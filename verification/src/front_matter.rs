//! Splitting the notes file into its YAML front-matter header and its body.
//!
//! The file must open with a line holding exactly `---`; the header runs to
//! the next line holding exactly `---`; the body is everything after that
//! closing line.
use vstd::prelude::*;
use vstd::string::*;
use crate::errors::Error;
use crate::text::is_match_at;

verus! {

/// The file opens with a front-matter marker line: `---` then a newline.
pub open spec fn starts_front_matter(s: Seq<char>) -> bool {
    s.len() >= 4 && s.subrange(0, 4) == "---\n"@
}

/// In the text `r` after the opening marker, position `k` starts a line that
/// consists of `---` alone: a closing marker.
pub open spec fn is_close_at(r: Seq<char>, k: int) -> bool {
    &&& 0 <= k
    &&& k + 3 <= r.len()
    &&& (k == 0 || r[k - 1] == '\n')
    &&& r.subrange(k, k + 3) == "---"@
    &&& (k + 3 == r.len() || r[k + 3] == '\n')
}

/// The first closing marker at or after `k`, if any.
pub open spec fn first_close_from(r: Seq<char>, k: int) -> Option<int>
    decreases r.len() - k when 0 <= k <= r.len()
{
    if is_close_at(r, k) {
        Some(k)
    } else if k >= r.len() {
        None
    } else {
        first_close_from(r, k + 1)
    }
}

/// The header and body the file splits into, when both markers are there:
/// the header is what lies between the opening line and the first closing
/// line, the body what follows the closing line.
pub open spec fn spec_front_matter(s: Seq<char>) -> Option<(Seq<char>, Seq<char>)> {
    if starts_front_matter(s) {
        let r = s.skip(4);
        match first_close_from(r, 0) {
            Some(k) => Some(
                (
                    r.subrange(0, k),
                    if k + 4 <= r.len() {
                        r.skip(k + 4)
                    } else {
                        Seq::<char>::empty()
                    },
                ),
            ),
            None => None,
        }
    } else {
        None
    }
}

/// Scanning from the front may start anywhere below the first marker.
proof fn lemma_first_close_shift(r: Seq<char>, k: int)
    requires
        0 <= k <= r.len(),
        forall|m: int| 0 <= m < k ==> !is_close_at(r, m),
    ensures
        first_close_from(r, 0) == first_close_from(r, k),
    decreases k,
{
    if k > 0 {
        lemma_first_close_shift(r, k - 1);
    }
}

/// Past the last possible start there is no closing marker.
proof fn lemma_first_close_none(r: Seq<char>, k: int)
    requires
        0 <= k <= r.len(),
        forall|m: int| k <= m ==> !is_close_at(r, m),
    ensures
        first_close_from(r, k) is None,
    decreases r.len() - k,
{
    if k < r.len() {
        lemma_first_close_none(r, k + 1);
    }
}

/// Whether a closing marker line starts at `k` of `r`.
fn close_at(r: &str, rlen: usize, k: usize) -> (b: bool)
    requires
        rlen == r@.len(),
        k + 3 <= rlen,
    ensures
        b == is_close_at(r@, k as int),
{
    proof {
        reveal_strlit("---");
    }
    if k > 0 && r.get_char(k - 1) != '\n' {
        return false;
    }
    if !is_match_at(r, "---", k) {
        return false;
    }
    if k + 3 < rlen && r.get_char(k + 3) != '\n' {
        return false;
    }
    true
}

/// Splits the notes file into front-matter header and body; without an
/// opening and a closing marker line the front matter is missing.
pub fn split_front_matter(s: &str) -> (res: Result<(String, String), Error>)
    ensures
        match res {
            Ok(hb) => spec_front_matter(s@) matches Some(p) && hb.0@ == p.0 && hb.1@ == p.1,
            Err(e) => e == Error::MissingFrontMatter && spec_front_matter(s@) is None,
        },
{
    proof {
        reveal_strlit("---\n");
    }
    let n = s.unicode_len();
    if n < 4 || !is_match_at(s, "---\n", 0) {
        return Err(Error::MissingFrontMatter);
    }
    let r = s.substring_char(4, n);
    proof {
        assert(r@ =~= s@.skip(4));
    }
    let rlen = r.unicode_len();
    let mut k: usize = 0;
    let mut close: Option<usize> = None;
    while rlen - k >= 3
        invariant_except_break
            rlen == r@.len(),
            k <= rlen,
            close is None,
            forall|m: int| 0 <= m < k ==> !is_close_at(r@, m),
        ensures
            rlen == r@.len(),
            match close {
                Some(c) => is_close_at(r@, c as int) && (forall|m: int|
                    0 <= m < c ==> !is_close_at(r@, m)),
                None => forall|m: int| 0 <= m ==> !is_close_at(r@, m),
            },
        decreases rlen - k,
    {
        if close_at(r, rlen, k) {
            close = Some(k);
            break;
        }
        k += 1;
    }
    match close {
        Some(c) => {
            proof {
                lemma_first_close_shift(r@, c as int);
                assert(first_close_from(r@, c as int) == Some(c as int));
            }
            let header = String::from_str(r.substring_char(0, c));
            let body = if rlen - c >= 4 {
                String::from_str(r.substring_char(c + 4, rlen))
            } else {
                String::new()
            };
            Ok((header, body))
        },
        None => {
            proof {
                lemma_first_close_none(r@, 0);
            }
            Err(Error::MissingFrontMatter)
        },
    }
}

} // verus!
