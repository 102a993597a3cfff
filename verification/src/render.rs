//! Rendering the page: the fixed built-in template, HTML escaping of the
//! metadata fields, and one table row per annotation.
use vstd::prelude::*;
use vstd::string::*;
use crate::errors::Error;
use crate::meta::{Metadata, MetaView};
use crate::paths::{spec_thumb_src, spec_digit_val, thumb_rel_path};
use crate::text::{contains_sub, push_char, lemma_contains_mid};

verus! {

/// How one character is written into escaped HTML text.
pub open spec fn esc_char(c: char) -> Seq<char> {
    if c == '&' {
        "&amp;"@
    } else if c == '<' {
        "&lt;"@
    } else if c == '>' {
        "&gt;"@
    } else if c == '"' {
        "&quot;"@
    } else if c == '\'' {
        "&#x27;"@
    } else {
        seq![c]
    }
}

/// HTML-escaped text: each character written via `esc_char`.
pub open spec fn spec_escape(s: Seq<char>) -> Seq<char>
    decreases s.len(),
{
    if s.len() == 0 {
        Seq::<char>::empty()
    } else {
        esc_char(s[0]) + spec_escape(s.skip(1))
    }
}

/// Escaping distributes over concatenation.
pub proof fn lemma_escape_append(a: Seq<char>, b: Seq<char>)
    ensures
        spec_escape(a + b) == spec_escape(a) + spec_escape(b),
    decreases a.len(),
{
    if a.len() == 0 {
        assert(a + b =~= b);
        assert(spec_escape(a) =~= Seq::<char>::empty());
        assert(Seq::<char>::empty() + spec_escape(b) =~= spec_escape(b));
    } else {
        lemma_escape_append(a.skip(1), b);
        assert((a + b).skip(1) =~= a.skip(1) + b);
        assert((a + b)[0] == a[0]);
        assert(esc_char(a[0]) + (spec_escape(a.skip(1)) + spec_escape(b)) =~= (esc_char(a[0])
            + spec_escape(a.skip(1))) + spec_escape(b));
    }
}

/// Escaping one more character appends its image.
proof fn lemma_escape_snoc(s: Seq<char>, i: int)
    requires
        0 <= i < s.len(),
    ensures
        spec_escape(s.take(i + 1)) == spec_escape(s.take(i)) + esc_char(s[i]),
{
    lemma_escape_append(s.take(i), seq![s[i]]);
    assert(s.take(i) + seq![s[i]] =~= s.take(i + 1));
    assert(seq![s[i]].skip(1) =~= Seq::<char>::empty());
    assert(spec_escape(Seq::<char>::empty()) == Seq::<char>::empty());
    assert(spec_escape(seq![s[i]]) =~= esc_char(s[i]) + Seq::<char>::empty());
    assert(esc_char(s[i]) + Seq::<char>::empty() =~= esc_char(s[i]));
}

/// HTML-escapes a string, exactly as `spec_escape` describes.
pub fn html_escape(s: &str) -> (r: String)
    ensures
        r@ == spec_escape(s@),
{
    let n = s.unicode_len();
    let mut out = String::new();
    let mut i: usize = 0;
    while i < n
        invariant
            i <= n,
            n == s@.len(),
            out@ == spec_escape(s@.take(i as int)),
        decreases n - i,
    {
        let c = s.get_char(i);
        if c == '&' {
            out.append("&amp;");
        } else if c == '<' {
            out.append("&lt;");
        } else if c == '>' {
            out.append("&gt;");
        } else if c == '"' {
            out.append("&quot;");
        } else if c == '\'' {
            out.append("&#x27;");
        } else {
            push_char(&mut out, c);
        }
        proof {
            lemma_escape_snoc(s@, i as int);
            assert(out@ =~= spec_escape(s@.take(i as int)) + esc_char(s@[i as int]));
        }
        i += 1;
    }
    proof {
        assert(s@.take(n as int) =~= s@);
    }
    out
}

/// A decimal digit character.
pub open spec fn spec_is_digit(c: char) -> bool {
    c == '0' || c == '1' || c == '2' || c == '3' || c == '4' || c == '5' || c == '6' || c == '7'
        || c == '8' || c == '9'
}

/// A date the template accepts: `YYYY-MM-DD`, with a month of 1 to 12 and a
/// day of 1 to 31.
pub open spec fn spec_is_date(d: Seq<char>) -> bool {
    &&& d.len() == 10
    &&& spec_is_digit(d[0])
    &&& spec_is_digit(d[1])
    &&& spec_is_digit(d[2])
    &&& spec_is_digit(d[3])
    &&& d[4] == '-'
    &&& spec_is_digit(d[5])
    &&& spec_is_digit(d[6])
    &&& d[7] == '-'
    &&& spec_is_digit(d[8])
    &&& spec_is_digit(d[9])
    &&& 1 <= spec_digit_val(d[5]) * 10 + spec_digit_val(d[6]) <= 12
    &&& 1 <= spec_digit_val(d[8]) * 10 + spec_digit_val(d[9]) <= 31
}

/// Whether `c` is a decimal digit.
fn digit(c: char) -> (b: bool)
    ensures
        b == spec_is_digit(c),
{
    c == '0' || c == '1' || c == '2' || c == '3' || c == '4' || c == '5' || c == '6' || c == '7'
        || c == '8' || c == '9'
}

/// The value of a digit character.
fn digit_val(c: char) -> (v: usize)
    requires
        spec_is_digit(c),
    ensures
        v == spec_digit_val(c),
        v < 10,
{
    if c == '0' {
        0
    } else if c == '1' {
        1
    } else if c == '2' {
        2
    } else if c == '3' {
        3
    } else if c == '4' {
        4
    } else if c == '5' {
        5
    } else if c == '6' {
        6
    } else if c == '7' {
        7
    } else if c == '8' {
        8
    } else {
        9
    }
}

/// Whether `d` is a date the template accepts.
pub fn is_date(d: &str) -> (b: bool)
    ensures
        b == spec_is_date(d@),
{
    let n = d.unicode_len();
    if n != 10 {
        return false;
    }
    if !(digit(d.get_char(0)) && digit(d.get_char(1)) && digit(d.get_char(2)) && digit(
        d.get_char(3),
    )) {
        return false;
    }
    if d.get_char(4) != '-' || d.get_char(7) != '-' {
        return false;
    }
    if !(digit(d.get_char(5)) && digit(d.get_char(6)) && digit(d.get_char(8)) && digit(
        d.get_char(9),
    )) {
        return false;
    }
    let month = digit_val(d.get_char(5)) * 10 + digit_val(d.get_char(6));
    let day = digit_val(d.get_char(8)) * 10 + digit_val(d.get_char(9));
    1 <= month && month <= 12 && 1 <= day && day <= 31
}

/// The sentence fragment naming the event: with a link and an event name an
/// anchor, with an event name alone plain text, and otherwise just the
/// lead-in to the location.
pub open spec fn spec_event_part(m: MetaView) -> Seq<char> {
    if m.link is Some && m.event_name is Some {
        ",\n      at the <a href=\""@ + spec_escape(m.link->0) + "\">"@ + spec_escape(
            m.event_name->0,
        ) + "</a> conference in "@
    } else if m.event_name is Some {
        ",\n      at the "@ + spec_escape(m.event_name->0) + " conference in "@
    } else {
        ",\n      in "@
    }
}

/// Everything of the page before the table rows: the head of the document,
/// the escaped title, the talk sentence with the escaped date, event and
/// location, the heading, and the opening of the table.
pub open spec fn spec_head(m: MetaView) -> Seq<char> {
    "<html>\n<head>\n<meta charset=\"utf-8\"/>\n<title>"@ + spec_escape(m.title)
        + "</title>\n<style>\nh1, h2, h3 { font-family: helvetica; font-weight: normal; }\ntd { vertical-align: top; font-size: small; padding: 20px; }\nbody { font-family: verdana; font-size: small; line-height: 140%; }\n#main { text-align: left; width: 900px; margin: auto; }\nimg { border: 1px solid #8ac; width: 440px; height: 330px; }\nblockquote { font-style: italic; }\n</style>\n</head>\n<body>\n<div id=\"main\">\n<div class=\"intro\">\n  <p>This is the text version of a talk I gave on "@
        + spec_escape(m.date) + spec_event_part(m) + spec_escape(m.location) + ".\n</div>\n<h1>"@
        + spec_escape(m.title) + "</h1>\n<table>\n"@
}

/// Everything of the page after the table rows.
pub open spec fn spec_tail() -> Seq<char> {
    "</table>\n</div>\n</body>\n</html>\n"@
}

/// An annotation as the page carries it: escaped only on request.
pub open spec fn spec_maybe_escape(a: Seq<char>, esc: bool) -> Seq<char> {
    if esc {
        spec_escape(a)
    } else {
        a
    }
}

/// The table row for the annotation of page `i`: the `thumbs/<i>.jpg` image
/// and the annotation text.
pub open spec fn spec_row(a: Seq<char>, esc: bool, i: nat) -> Seq<char> {
    "<tr>\n  <td>\n    <img src=\""@ + spec_thumb_src(i) + "\"></td>\n  <td>\n      "@
        + spec_maybe_escape(a, esc) + "\n  </td>\n</tr>\n"@
}

/// The table rows for the annotations from page `i` on, in order.
pub open spec fn spec_rows(slides: Seq<Seq<char>>, esc: bool, i: nat) -> Seq<char>
    decreases slides.len(),
{
    if slides.len() == 0 {
        Seq::<char>::empty()
    } else {
        spec_row(slides[0], esc, i) + spec_rows(slides.skip(1), esc, i + 1)
    }
}

/// Rows of a concatenation: the second part starts where the first ends.
pub proof fn lemma_rows_append(a: Seq<Seq<char>>, b: Seq<Seq<char>>, esc: bool, i: nat)
    ensures
        spec_rows(a + b, esc, i) == spec_rows(a, esc, i) + spec_rows(b, esc, i + a.len()),
    decreases a.len(),
{
    if a.len() == 0 {
        assert(a + b =~~= b);
        assert(spec_rows(a, esc, i) =~= Seq::<char>::empty());
        assert(Seq::<char>::empty() + spec_rows(b, esc, i) =~= spec_rows(b, esc, i));
    } else {
        lemma_rows_append(a.skip(1), b, esc, i + 1);
        assert((a + b).skip(1) =~~= a.skip(1) + b);
        assert((a + b)[0] == a[0]);
        assert(spec_row(a[0], esc, i) + (spec_rows(a.skip(1), esc, i + 1) + spec_rows(
            b,
            esc,
            i + a.len(),
        )) =~= (spec_row(a[0], esc, i) + spec_rows(a.skip(1), esc, i + 1)) + spec_rows(
            b,
            esc,
            i + a.len(),
        ));
    }
}

/// The whole page: head, one row per annotation in order, tail.
pub open spec fn spec_page(m: MetaView, slides: Seq<Seq<char>>, esc: bool) -> Seq<char> {
    spec_head(m) + spec_rows(slides, esc, 0) + spec_tail()
}

/// Renders the page for the metadata and the annotation fragments. The
/// annotation count must match the page count, and the date must be a
/// `YYYY-MM-DD` date; each failure is reported by its own error, the count
/// checked first.
pub fn render_page(
    meta: &Metadata,
    slides: &Vec<String>,
    page_count: usize,
    escape_annotations: bool,
) -> (r: Result<String, Error>)
    ensures
        match r {
            Ok(s) => page_count == slides@.len() && spec_is_date(meta@.date) && s@ == spec_page(
                meta@,
                slides@.map_values(|t: String| t@),
                escape_annotations,
            ),
            Err(e) => (page_count != slides@.len() && e == Error::SlideCountMismatch) || (
            page_count == slides@.len() && !spec_is_date(meta@.date)
                && e == Error::TemplateError),
        },
{
    if slides.len() != page_count {
        return Err(Error::SlideCountMismatch);
    }
    if !is_date(meta.date.as_str()) {
        return Err(Error::TemplateError);
    }
    let ghost sv = slides@.map_values(|t: String| t@);
    let mut out = String::from_str("<html>\n<head>\n<meta charset=\"utf-8\"/>\n<title>");
    let t = html_escape(meta.title.as_str());
    out.append(t.as_str());
    out.append(
        "</title>\n<style>\nh1, h2, h3 { font-family: helvetica; font-weight: normal; }\ntd { vertical-align: top; font-size: small; padding: 20px; }\nbody { font-family: verdana; font-size: small; line-height: 140%; }\n#main { text-align: left; width: 900px; margin: auto; }\nimg { border: 1px solid #8ac; width: 440px; height: 330px; }\nblockquote { font-style: italic; }\n</style>\n</head>\n<body>\n<div id=\"main\">\n<div class=\"intro\">\n  <p>This is the text version of a talk I gave on ",
    );
    let d = html_escape(meta.date.as_str());
    out.append(d.as_str());
    match &meta.link {
        Some(l) => match &meta.event_name {
            Some(e) => {
                out.append(",\n      at the <a href=\"");
                let le = html_escape(l.as_str());
                out.append(le.as_str());
                out.append("\">");
                let ee = html_escape(e.as_str());
                out.append(ee.as_str());
                out.append("</a> conference in ");
            },
            None => {
                out.append(",\n      in ");
            },
        },
        None => match &meta.event_name {
            Some(e) => {
                out.append(",\n      at the ");
                let ee = html_escape(e.as_str());
                out.append(ee.as_str());
                out.append(" conference in ");
            },
            None => {
                out.append(",\n      in ");
            },
        },
    }
    let loc = html_escape(meta.location.as_str());
    out.append(loc.as_str());
    out.append(".\n</div>\n<h1>");
    out.append(t.as_str());
    out.append("</h1>\n<table>\n");
    proof {
        assert(out@ =~= spec_head(meta@));
    }
    let mut j: usize = 0;
    while j < page_count
        invariant
            j <= page_count,
            page_count == slides@.len(),
            sv == slides@.map_values(|t: String| t@),
            out@ == spec_head(meta@) + spec_rows(sv.take(j as int), escape_annotations, 0),
        decreases page_count - j,
    {
        proof {
            assert(sv[j as int] == slides@[j as int]@);
        }
        out.append("<tr>\n  <td>\n    <img src=\"");
        let tp = thumb_rel_path(j);
        out.append(tp.as_str());
        out.append("\"></td>\n  <td>\n      ");
        if escape_annotations {
            let ae = html_escape(slides[j].as_str());
            out.append(ae.as_str());
        } else {
            out.append(slides[j].as_str());
        }
        out.append("\n  </td>\n</tr>\n");
        proof {
            lemma_rows_append(sv.take(j as int), seq![sv[j as int]], escape_annotations, 0);
            assert(sv.take(j as int) + seq![sv[j as int]] =~~= sv.take(j + 1));
            assert(seq![sv[j as int]].skip(1) =~~= Seq::<Seq<char>>::empty());
            assert(spec_rows(Seq::<Seq<char>>::empty(), escape_annotations, (j + 1) as nat)
                == Seq::<char>::empty());
            assert(spec_rows(
                seq![sv[j as int]],
                escape_annotations,
                sv.take(j as int).len() as nat,
            ) =~= spec_row(sv[j as int], escape_annotations, j as nat) + Seq::<char>::empty());
            assert(spec_row(sv[j as int], escape_annotations, j as nat) + Seq::<char>::empty()
                =~= spec_row(sv[j as int], escape_annotations, j as nat));
            assert(out@ =~= spec_head(meta@) + spec_rows(sv.take(j + 1), escape_annotations, 0));
        }
        j += 1;
    }
    out.append("</table>\n</div>\n</body>\n</html>\n");
    proof {
        assert(sv.take(page_count as int) =~~= sv);
        assert(out@ =~= spec_page(meta@, sv, escape_annotations));
    }
    Ok(out)
}

/// The page references the thumbnail of every annotated page: for each
/// index `i` below the annotation count, `thumbs/<i>.jpg` occurs in the
/// rendered document.
#[verifier::rlimit(60)]
pub proof fn lemma_page_references_thumbs(m: MetaView, slides: Seq<Seq<char>>, esc: bool, i: int)
    requires
        0 <= i < slides.len(),
    ensures
        contains_sub(spec_page(m, slides, esc), spec_thumb_src(i as nat)),
{
    let a = slides.take(i);
    let b = seq![slides[i]];
    let c = slides.skip(i + 1);
    assert(a + b =~~= slides.take(i + 1));
    assert((a + b) + c =~~= slides);
    lemma_rows_append(a, b, esc, 0);
    lemma_rows_append(a + b, c, esc, 0);
    assert(b.skip(1) =~~= Seq::<Seq<char>>::empty());
    assert(spec_rows(Seq::<Seq<char>>::empty(), esc, (i + 1) as nat) == Seq::<char>::empty());
    assert(spec_rows(b, esc, a.len()) =~= spec_row(slides[i], esc, i as nat)
        + Seq::<char>::empty());
    let pre = spec_head(m) + spec_rows(a, esc, 0) + "<tr>\n  <td>\n    <img src=\""@;
    let post = "\"></td>\n  <td>\n      "@ + spec_maybe_escape(slides[i], esc)
        + "\n  </td>\n</tr>\n"@ + spec_rows(c, esc, (i + 1) as nat) + spec_tail();
    assert(pre + spec_thumb_src(i as nat) + post =~= spec_page(m, slides, esc));
    lemma_contains_mid(pre, spec_thumb_src(i as nat), post);
}

/// Rendering an empty annotation list still yields the escaped title, date
/// and location, and no table rows: the page is exactly head and tail.
pub proof fn lemma_render_empty(m: MetaView, esc: bool)
    ensures
        spec_rows(Seq::<Seq<char>>::empty(), esc, 0) == Seq::<char>::empty(),
        spec_page(m, Seq::<Seq<char>>::empty(), esc) == spec_head(m) + spec_tail(),
        contains_sub(spec_page(m, Seq::<Seq<char>>::empty(), esc), spec_escape(m.title)),
        contains_sub(spec_page(m, Seq::<Seq<char>>::empty(), esc), spec_escape(m.date)),
        contains_sub(spec_page(m, Seq::<Seq<char>>::empty(), esc), spec_escape(m.location)),
{
    let page = spec_page(m, Seq::<Seq<char>>::empty(), esc);
    assert(page =~= spec_head(m) + spec_tail());
    let lit_a = "<html>\n<head>\n<meta charset=\"utf-8\"/>\n<title>"@;
    let lit_b =
        "</title>\n<style>\nh1, h2, h3 { font-family: helvetica; font-weight: normal; }\ntd { vertical-align: top; font-size: small; padding: 20px; }\nbody { font-family: verdana; font-size: small; line-height: 140%; }\n#main { text-align: left; width: 900px; margin: auto; }\nimg { border: 1px solid #8ac; width: 440px; height: 330px; }\nblockquote { font-style: italic; }\n</style>\n</head>\n<body>\n<div id=\"main\">\n<div class=\"intro\">\n  <p>This is the text version of a talk I gave on "@;
    let lit_c = ".\n</div>\n<h1>"@;
    let lit_d = "</h1>\n<table>\n"@;
    let b_title = lit_b + spec_escape(m.date) + spec_event_part(m) + spec_escape(m.location)
        + lit_c + spec_escape(m.title) + lit_d + spec_tail();
    lemma_contains_mid(lit_a, spec_escape(m.title), b_title);
    assert(lit_a + spec_escape(m.title) + b_title =~= page);
    let a_date = lit_a + spec_escape(m.title) + lit_b;
    let b_date = spec_event_part(m) + spec_escape(m.location) + lit_c + spec_escape(m.title)
        + lit_d + spec_tail();
    lemma_contains_mid(a_date, spec_escape(m.date), b_date);
    assert(a_date + spec_escape(m.date) + b_date =~= page);
    let a_loc = lit_a + spec_escape(m.title) + lit_b + spec_escape(m.date) + spec_event_part(m);
    let b_loc = lit_c + spec_escape(m.title) + lit_d + spec_tail();
    lemma_contains_mid(a_loc, spec_escape(m.location), b_loc);
    assert(a_loc + spec_escape(m.location) + b_loc =~= page);
}

} // verus!
