//! Basic string machinery: splitting a text at a literal delimiter, exact
//! character-level comparison, and substring containment.
use vstd::prelude::*;
use vstd::string::*;

verus! {

/// The needle `pat` occurs in `s` at position `i`.
pub open spec fn match_at(s: Seq<char>, pat: Seq<char>, i: int) -> bool {
    0 <= i && i + pat.len() <= s.len() && s.subrange(i, i + pat.len()) == pat
}

/// `nee` occurs somewhere in `hay`.
pub open spec fn contains_sub(hay: Seq<char>, nee: Seq<char>) -> bool {
    exists|k: int| match_at(hay, nee, k)
}

/// The parts of `s` between the leftmost, non-overlapping occurrences of
/// `pat`, in order: the splitting `str::split` performs.
pub open spec fn spec_split(s: Seq<char>, pat: Seq<char>) -> Seq<Seq<char>>
    decreases s.len() when pat.len() > 0
{
    if s.len() >= pat.len() && s.subrange(0, pat.len() as int) == pat {
        seq![Seq::<char>::empty()] + spec_split(s.skip(pat.len() as int), pat)
    } else if s.len() == 0 {
        seq![Seq::<char>::empty()]
    } else {
        let rest = spec_split(s.skip(1), pat);
        rest.update(0, seq![s[0]] + rest[0])
    }
}

/// How many leftmost, non-overlapping occurrences of `pat` lie in `s`.
pub open spec fn spec_count(s: Seq<char>, pat: Seq<char>) -> nat
    decreases s.len() when pat.len() > 0
{
    if s.len() >= pat.len() && s.subrange(0, pat.len() as int) == pat {
        1 + spec_count(s.skip(pat.len() as int), pat)
    } else if s.len() == 0 {
        0
    } else {
        spec_count(s.skip(1), pat)
    }
}

/// Splitting a text at a delimiter yields exactly one part more than the
/// number of delimiter occurrences, however the occurrences fall.
pub proof fn lemma_split_count(s: Seq<char>, pat: Seq<char>)
    requires
        pat.len() > 0,
    ensures
        spec_split(s, pat).len() == spec_count(s, pat) + 1,
    decreases s.len(),
{
    if s.len() >= pat.len() && s.subrange(0, pat.len() as int) == pat {
        lemma_split_count(s.skip(pat.len() as int), pat);
    } else if s.len() == 0 {
    } else {
        lemma_split_count(s.skip(1), pat);
    }
}

/// A split has at least one part.
pub proof fn lemma_split_nonempty(s: Seq<char>, pat: Seq<char>)
    requires
        pat.len() > 0,
    ensures
        spec_split(s, pat).len() >= 1,
{
    lemma_split_count(s, pat);
}

/// Relies on `String::push`: appends one character to the string.
#[verifier::external_body]
pub fn push_char(s: &mut String, c: char)
    ensures
        final(s)@ == old(s)@.push(c),
{
    s.push(c);
}

/// Character-by-character test of `pat` against `s` at position `i`.
pub fn is_match_at(s: &str, pat: &str, i: usize) -> (b: bool)
    requires
        i + pat@.len() <= s@.len(),
    ensures
        b == match_at(s@, pat@, i as int),
{
    let slen = s.unicode_len();
    let plen = pat.unicode_len();
    let mut j: usize = 0;
    while j < plen
        invariant
            j <= plen,
            plen == pat@.len(),
            slen == s@.len(),
            i + plen <= slen,
            forall|m: int| 0 <= m < j ==> s@[i + m] == pat@[m],
        decreases plen - j,
    {
        if s.get_char(i + j) != pat.get_char(j) {
            proof {
                if match_at(s@, pat@, i as int) {
                    assert(s@.subrange(i as int, i + pat@.len())[j as int] == s@[i + j]);
                }
            }
            return false;
        }
        j += 1;
    }
    proof {
        assert(s@.subrange(i as int, i + pat@.len()) =~= pat@);
    }
    true
}

/// Exact character-level equality of two strings.
pub fn str_eq_str(a: &str, b: &str) -> (r: bool)
    ensures
        r == (a@ == b@),
{
    let alen = a.unicode_len();
    let blen = b.unicode_len();
    if alen != blen {
        return false;
    }
    let mut j: usize = 0;
    while j < alen
        invariant
            j <= alen,
            alen == a@.len(),
            alen == b@.len(),
            forall|m: int| 0 <= m < j ==> a@[m] == b@[m],
        decreases alen - j,
    {
        if a.get_char(j) != b.get_char(j) {
            proof {
                if a@ == b@ {
                    assert(a@[j as int] == b@[j as int]);
                }
            }
            return false;
        }
        j += 1;
    }
    proof {
        assert(a@ =~= b@);
    }
    true
}

/// Splits `s` at each leftmost occurrence of `pat`, as `str::split` does.
pub fn split_str(s: &str, pat: &str) -> (r: Vec<String>)
    requires
        pat@.len() > 0,
    ensures
        r@.map_values(|t: String| t@) == spec_split(s@, pat@),
{
    let slen = s.unicode_len();
    let plen = pat.unicode_len();
    let mut parts: Vec<String> = Vec::new();
    let mut cur = String::new();
    let mut i: usize = 0;
    proof {
        lemma_split_nonempty(s@, pat@);
        let ss = spec_split(s@, pat@);
        assert(s@.skip(0) =~= s@);
        assert(parts@.map_values(|t: String| t@) + seq![cur@ + ss[0]] + ss.skip(1) =~~= ss);
    }
    while i < slen
        invariant
            i <= slen,
            slen == s@.len(),
            plen == pat@.len(),
            plen > 0,
            spec_split(s@.skip(i as int), pat@).len() >= 1,
            spec_split(s@, pat@) =~~= parts@.map_values(|t: String| t@) + seq![
                cur@ + spec_split(s@.skip(i as int), pat@)[0],
            ] + spec_split(s@.skip(i as int), pat@).skip(1),
        decreases slen - i,
    {
        let ghost rem = s@.skip(i as int);
        let ghost ss = spec_split(rem, pat@);
        let ghost done = parts@.map_values(|t: String| t@);
        let ghost curv = cur@;
        if plen <= slen - i && is_match_at(s, pat, i) {
            proof {
                assert(rem.subrange(0, plen as int) =~= s@.subrange(i as int, i + plen));
                assert(rem.skip(plen as int) =~= s@.skip(i + plen));
                let tail = spec_split(s@.skip(i + plen), pat@);
                assert(ss == seq![Seq::<char>::empty()] + tail);
                assert(ss.skip(1) =~= tail);
                lemma_split_nonempty(s@.skip(i + plen), pat@);
                assert(curv + ss[0] =~= curv);
                assert(seq![tail[0]] + tail.skip(1) =~~= tail);
            }
            parts.push(cur);
            cur = String::new();
            i += plen;
            proof {
                let tail = spec_split(s@.skip(i as int), pat@);
                assert(parts@.map_values(|t: String| t@) =~~= done + seq![curv]);
                assert(cur@ + tail[0] =~= tail[0]);
                assert(done + seq![curv] + seq![tail[0]] + tail.skip(1) =~~= done + seq![curv]
                    + tail);
                assert(spec_split(s@, pat@) =~~= parts@.map_values(|t: String| t@) + seq![
                    cur@ + tail[0],
                ] + tail.skip(1));
            }
        } else {
            proof {
                if rem.len() >= plen && rem.subrange(0, plen as int) == pat@ {
                    assert(s@.subrange(i as int, i + plen) =~= rem.subrange(0, plen as int));
                    assert(match_at(s@, pat@, i as int));
                }
                let rest = spec_split(rem.skip(1), pat@);
                assert(ss == rest.update(0, seq![rem[0]] + rest[0]));
                lemma_split_nonempty(rem.skip(1), pat@);
                assert(rem.skip(1) =~= s@.skip(i + 1));
                assert(ss[0] == seq![rem[0]] + rest[0]);
                assert(ss.skip(1) =~~= rest.skip(1));
            }
            let c = s.get_char(i);
            push_char(&mut cur, c);
            i += 1;
            proof {
                let rest = spec_split(s@.skip(i as int), pat@);
                assert(cur@ =~= curv.push(rem[0]));
                assert(curv + (seq![rem[0]] + rest[0]) =~= cur@ + rest[0]);
                assert(spec_split(s@, pat@) =~~= parts@.map_values(|t: String| t@) + seq![
                    cur@ + rest[0],
                ] + rest.skip(1));
            }
        }
    }
    let ghost done = parts@.map_values(|t: String| t@);
    let ghost curv = cur@;
    proof {
        assert(s@.skip(i as int) =~= Seq::<char>::empty());
        let ss = spec_split(Seq::<char>::empty(), pat@);
        assert(ss == seq![Seq::<char>::empty()]);
        assert(curv + ss[0] =~= curv);
        assert(ss.skip(1) =~~= Seq::<Seq<char>>::empty());
        assert(spec_split(s@, pat@) =~~= done + seq![curv]);
    }
    parts.push(cur);
    proof {
        assert(parts@.map_values(|t: String| t@) =~~= done + seq![curv]);
    }
    parts
}

/// The first occurrence of `c` in `l` at or after `k`, if any.
pub open spec fn first_index_of(l: Seq<char>, c: char, k: int) -> Option<int>
    decreases l.len() - k when 0 <= k <= l.len()
{
    if k >= l.len() {
        None
    } else if l[k] == c {
        Some(k)
    } else {
        first_index_of(l, c, k + 1)
    }
}

/// The index of the first occurrence of `c` in `s`, if any.
pub fn find_char(s: &str, c: char) -> (r: Option<usize>)
    ensures
        match r {
            Some(k) => first_index_of(s@, c, 0) == Some(k as int) && k < s@.len() && s@[
                k as int
            ] == c,
            None => first_index_of(s@, c, 0) is None,
        },
{
    let n = s.unicode_len();
    let mut j: usize = 0;
    while j < n
        invariant
            j <= n,
            n == s@.len(),
            first_index_of(s@, c, 0) == first_index_of(s@, c, j as int),
            forall|m: int| 0 <= m < j ==> s@[m] != c,
        decreases n - j,
    {
        if s.get_char(j) == c {
            return Some(j);
        }
        j += 1;
    }
    None
}

/// What stands between two known neighbours is contained in the whole.
pub proof fn lemma_contains_mid(a: Seq<char>, x: Seq<char>, b: Seq<char>)
    ensures
        contains_sub(a + x + b, x),
{
    assert((a + x + b).subrange(a.len() as int, a.len() as int + x.len() as int) =~= x);
    assert(match_at(a + x + b, x, a.len() as int));
}

} // verus!
