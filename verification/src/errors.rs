//! The error model of the pipeline: every failure a run can report.
use vstd::prelude::*;

verus! {

/// A front-matter field that the metadata record requires.
#[derive(Clone, Copy, Debug, PartialEq, Eq, Structural)]
pub enum Field {
    Title,
    Date,
    Location,
}

/// Everything that can go wrong along the pipeline. Any of these ends the
/// run; none is retried.
#[derive(Clone, Copy, Debug, PartialEq, Eq, Structural)]
pub enum Error {
    /// The PDF path has no file stem and no output directory was given.
    InvalidPath,
    /// A file could not be read or a directory could not be created.
    IOError,
    /// The PDF could not be opened or decoded, or has no pages.
    UnreadablePdf,
    /// The notes file has no leading front-matter block, or the block is
    /// malformed.
    MissingFrontMatter,
    /// A required metadata field is absent from the front matter.
    MissingField(Field),
    /// A thumbnail or the page itself could not be written.
    WriteError,
    /// The metadata cannot be rendered through the template.
    TemplateError,
    /// The number of annotations does not match the number of pages.
    SlideCountMismatch,
}

/// The description `message` returns for each error.
pub open spec fn spec_message(e: Error) -> Seq<char> {
    match e {
        Error::InvalidPath => "the PDF path has no file stem to derive an output directory from"@,
        Error::IOError => "an input file could not be read or a directory could not be created"@,
        Error::UnreadablePdf => "the PDF could not be opened or decoded"@,
        Error::MissingFrontMatter => "the notes file does not start with a well-formed front-matter block"@,
        Error::MissingField(f) => match f {
            Field::Title => "the front matter is missing the required field: title"@,
            Field::Date => "the front matter is missing the required field: date"@,
            Field::Location => "the front matter is missing the required field: location"@,
        },
        Error::WriteError => "an output file could not be written"@,
        Error::TemplateError => "the metadata cannot be rendered through the template"@,
        Error::SlideCountMismatch => "the number of annotations does not match the number of pages"@,
    }
}

impl Error {
    /// A short human-readable description of the error.
    pub fn message(&self) -> (r: &'static str)
        ensures
            r@ == spec_message(*self),
    {
        match self {
            Error::InvalidPath => "the PDF path has no file stem to derive an output directory from",
            Error::IOError => "an input file could not be read or a directory could not be created",
            Error::UnreadablePdf => "the PDF could not be opened or decoded",
            Error::MissingFrontMatter => "the notes file does not start with a well-formed front-matter block",
            Error::MissingField(f) => match f {
                Field::Title => "the front matter is missing the required field: title",
                Field::Date => "the front matter is missing the required field: date",
                Field::Location => "the front matter is missing the required field: location",
            },
            Error::WriteError => "an output file could not be written",
            Error::TemplateError => "the metadata cannot be rendered through the template",
            Error::SlideCountMismatch => "the number of annotations does not match the number of pages",
        }
    }
}

} // verus!
