//! The notes parser: front matter, metadata, slide chunks, annotations.
use vstd::prelude::*;
use crate::errors::Error;
use crate::front_matter::{spec_front_matter, split_front_matter};
use crate::markdown::{md_html_of, render_chunks};
use crate::meta::{Metadata, MetaView, spec_parse_meta, parse_metadata};
use crate::text::{spec_split, spec_count, split_str, lemma_split_count};

verus! {

/// The slide chunks of a notes body: the parts between the standalone `--`
/// delimiter lines, in document order.
pub open spec fn spec_chunks_of(b: Seq<char>) -> Seq<Seq<char>> {
    spec_split(b, "\n--\n"@)
}

/// The annotation fragments of a notes body: each chunk rendered from
/// Markdown to HTML, in document order.
pub open spec fn spec_fragments(b: Seq<char>) -> Seq<Seq<char>> {
    spec_chunks_of(b).map_values(|c: Seq<char>| md_html_of(c))
}

/// A body with K delimiter occurrences yields exactly K + 1 slide chunks,
/// in document order.
pub proof fn lemma_chunk_count(b: Seq<char>)
    ensures
        spec_chunks_of(b).len() == spec_count(b, "\n--\n"@) + 1,
{
    reveal_strlit("\n--\n");
    lemma_split_count(b, "\n--\n"@);
}

/// Splits the notes body into slide chunks at the standalone `--` lines.
pub fn split_body(body: &str) -> (r: Vec<String>)
    ensures
        r@.map_values(|t: String| t@) == spec_chunks_of(body@),
{
    proof {
        reveal_strlit("\n--\n");
    }
    split_str(body, "\n--\n")
}

/// What notes parsing yields on the whole file: the metadata record and the
/// annotation fragments, or the first error in the order the file is read.
pub open spec fn spec_parse_notes(s: Seq<char>) -> Result<(MetaView, Seq<Seq<char>>), Error> {
    match spec_front_matter(s) {
        None => Err(Error::MissingFrontMatter),
        Some(hb) => match spec_parse_meta(hb.0) {
            Err(e) => Err(e),
            Ok(m) => Ok((m, spec_fragments(hb.1))),
        },
    }
}

/// Parses the whole notes file: front matter to metadata, body to one HTML
/// annotation per slide chunk, exactly as `spec_parse_notes` describes.
pub fn parse_notes(text: &str) -> (r: Result<(Metadata, Vec<String>), Error>)
    ensures
        match r {
            Ok(p) => spec_parse_notes(text@) matches Ok(q) && p.0@ == q.0 && p.1@.map_values(
                |t: String| t@,
            ) == q.1,
            Err(e) => spec_parse_notes(text@) == Err::<(MetaView, Seq<Seq<char>>), Error>(e),
        },
{
    let (header, body) = match split_front_matter(text) {
        Ok(hb) => hb,
        Err(e) => {
            return Err(e);
        },
    };
    let meta = match parse_metadata(header.as_str()) {
        Ok(m) => m,
        Err(e) => {
            return Err(e);
        },
    };
    let chunks = split_body(body.as_str());
    let frags = render_chunks(&chunks);
    proof {
        assert(frags@.map_values(|t: String| t@) =~~= spec_fragments(body@));
    }
    Ok((meta, frags))
}

} // verus!
