//! Turns a slide-deck PDF plus a Markdown notes file into one static HTML
//! page: one thumbnail image per PDF page, one annotation per notes chunk,
//! combined through a fixed built-in template.
//!
//! The library holds the whole computing pipeline: resolving the output
//! directory name, naming the thumbnails, parsing the notes file (front
//! matter, metadata, slide chunks, Markdown rendering) and rendering the
//! final page. Reading and writing files is left to the caller.
use vstd::prelude::*;

pub mod errors;
pub mod front_matter;
pub mod markdown;
pub mod meta;
pub mod notes;
pub mod render;
pub mod paths;
pub mod text;

use crate::errors::Error;
use crate::notes::{spec_parse_notes, parse_notes};
use crate::render::{spec_is_date, spec_page, render_page};

verus! {

/// What the whole computing pipeline yields on a notes file and a page
/// count: the rendered page, or the first error along the way — a parse
/// error, a count mismatch, or a date the template cannot render.
pub open spec fn spec_build_page(s: Seq<char>, n: nat, esc: bool) -> Result<Seq<char>, Error> {
    match spec_parse_notes(s) {
        Err(e) => Err(e),
        Ok(p) => if p.1.len() != n {
            Err(Error::SlideCountMismatch)
        } else if !spec_is_date(p.0.date) {
            Err(Error::TemplateError)
        } else {
            Ok(spec_page(p.0, p.1, esc))
        },
    }
}

/// The whole computing pipeline: parses the notes file and renders the page
/// for a deck of `page_count` pages, exactly as `spec_build_page` describes.
/// Reading the files and writing the output stays with the caller.
pub fn build_page(notes: &str, page_count: usize, escape_annotations: bool) -> (r: Result<
    String,
    Error,
>)
    ensures
        match r {
            Ok(s) => spec_build_page(notes@, page_count as nat, escape_annotations) == Ok::<
                Seq<char>,
                Error,
            >(s@),
            Err(e) => spec_build_page(notes@, page_count as nat, escape_annotations) == Err::<
                Seq<char>,
                Error,
            >(e),
        },
{
    let (meta, frags) = match parse_notes(notes) {
        Ok(p) => p,
        Err(e) => {
            return Err(e);
        },
    };
    match render_page(&meta, &frags, page_count, escape_annotations) {
        Ok(s) => Ok(s),
        Err(e) => Err(e),
    }
}

} // verus!
