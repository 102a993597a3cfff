//! Markdown rendering of slide chunks, through pulldown-cmark.
use vstd::prelude::*;

verus! {

/// The HTML fragment pulldown-cmark renders for a Markdown chunk. The
/// rendering is a fixed function of the chunk text alone; its exact value
/// is left to the renderer and not restated here.
pub uninterp spec fn md_html_of(s: Seq<char>) -> Seq<char>;

/// Relies on pulldown_cmark's `Parser::new_ext` (with no extensions
/// enabled) and `html::push_html`: the fragment depends on the chunk text
/// alone, and an empty chunk yields no events, hence an empty fragment.
#[verifier::external_body]
fn markdown_to_html(chunk: &str) -> (r: String)
    ensures
        r@ == md_html_of(chunk@),
        chunk@.len() == 0 ==> r@.len() == 0,
{
    let parser = pulldown_cmark::Parser::new_ext(chunk, pulldown_cmark::Options::empty());
    let mut out = String::new();
    pulldown_cmark::html::push_html(&mut out, parser);
    out
}

/// Renders each slide chunk to its HTML annotation fragment, in order; an
/// empty chunk gives an empty annotation.
pub fn render_chunks(chunks: &Vec<String>) -> (r: Vec<String>)
    ensures
        r@.len() == chunks@.len(),
        forall|i: int| 0 <= i < chunks@.len() ==> r@[i]@ == md_html_of(chunks@[i]@),
{
    let mut out: Vec<String> = Vec::new();
    let mut i: usize = 0;
    while i < chunks.len()
        invariant
            i <= chunks@.len(),
            out@.len() == i as nat,
            forall|k: int| 0 <= k < i ==> out@[k]@ == md_html_of(chunks@[k]@),
        decreases chunks@.len() - i,
    {
        let h = markdown_to_html(chunks[i].as_str());
        out.push(h);
        i += 1;
    }
    out
}

} // verus!
