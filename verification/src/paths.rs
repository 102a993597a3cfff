//! Output naming: the thumbnail paths the page refers to, and the output
//! directory derived from the PDF path's file stem.
use vstd::prelude::*;
use vstd::string::*;
use vstd::arithmetic::div_mod::lemma_fundamental_div_mod;
use crate::errors::Error;
use crate::text::push_char;

verus! {

/// The decimal digit character for `d`.
pub open spec fn spec_digit(d: nat) -> char {
    if d == 0 {
        '0'
    } else if d == 1 {
        '1'
    } else if d == 2 {
        '2'
    } else if d == 3 {
        '3'
    } else if d == 4 {
        '4'
    } else if d == 5 {
        '5'
    } else if d == 6 {
        '6'
    } else if d == 7 {
        '7'
    } else if d == 8 {
        '8'
    } else {
        '9'
    }
}

/// The value a decimal digit character stands for.
pub open spec fn spec_digit_val(c: char) -> nat {
    if c == '0' {
        0
    } else if c == '1' {
        1
    } else if c == '2' {
        2
    } else if c == '3' {
        3
    } else if c == '4' {
        4
    } else if c == '5' {
        5
    } else if c == '6' {
        6
    } else if c == '7' {
        7
    } else if c == '8' {
        8
    } else {
        9
    }
}

/// The decimal numeral of `n`, most significant digit first.
pub open spec fn spec_dec(n: nat) -> Seq<char>
    decreases n,
{
    if n < 10 {
        seq![spec_digit(n)]
    } else {
        spec_dec(n / 10) + seq![spec_digit(n % 10)]
    }
}

/// The number a digit sequence stands for.
pub open spec fn spec_dec_val(s: Seq<char>) -> nat
    decreases s.len(),
{
    if s.len() == 0 {
        0
    } else {
        spec_dec_val(s.drop_last()) * 10 + spec_digit_val(s.last())
    }
}

/// Reading the decimal numeral of `n` back gives `n`.
pub proof fn lemma_dec_val(n: nat)
    ensures
        spec_dec_val(spec_dec(n)) == n,
    decreases n,
{
    if n < 10 {
        let s = seq![spec_digit(n)];
        assert(s.drop_last() =~= Seq::<char>::empty());
        assert(spec_dec_val(Seq::<char>::empty()) == 0);
        assert(s.last() == spec_digit(n));
        assert(spec_dec_val(s) == spec_dec_val(s.drop_last()) * 10 + spec_digit_val(s.last()));
        assert(spec_digit_val(spec_digit(n)) == n);
    } else {
        lemma_dec_val(n / 10);
        let a = spec_dec(n / 10);
        let s = a + seq![spec_digit(n % 10)];
        assert(spec_dec(n) == s);
        assert(s.len() == a.len() + 1);
        assert(s.drop_last() =~= a);
        assert(s.last() == spec_digit(n % 10));
        assert(spec_dec_val(s) == spec_dec_val(a) * 10 + spec_digit_val(s.last()));
        assert(spec_digit_val(spec_digit(n % 10)) == n % 10);
        lemma_fundamental_div_mod(n as int, 10);
    }
}

/// Distinct numbers have distinct decimal numerals.
pub proof fn lemma_dec_injective(m: nat, n: nat)
    requires
        spec_dec(m) == spec_dec(n),
    ensures
        m == n,
{
    lemma_dec_val(m);
    lemma_dec_val(n);
}

/// The page-relative path of the thumbnail for page `i`: `thumbs/<i>.jpg`.
pub open spec fn spec_thumb_src(i: nat) -> Seq<char> {
    "thumbs/"@ + spec_dec(i) + ".jpg"@
}

/// Distinct pages get distinct thumbnail paths: the numbering has no
/// duplicates, whatever the page count.
pub proof fn lemma_thumb_src_injective(i: nat, j: nat)
    requires
        spec_thumb_src(i) == spec_thumb_src(j),
    ensures
        i == j,
{
    let a = "thumbs/"@;
    let b = ".jpg"@;
    let x = spec_dec(i);
    let y = spec_dec(j);
    assert(a + x + b == a + y + b);
    assert((a + x + b).len() == a.len() + x.len() + b.len());
    assert((a + y + b).len() == a.len() + y.len() + b.len());
    assert(x.len() == y.len());
    assert(x =~= (a + x + b).subrange(a.len() as int, a.len() as int + x.len() as int));
    assert(y =~= (a + y + b).subrange(a.len() as int, a.len() as int + y.len() as int));
    assert(x == y);
    lemma_dec_injective(i, j);
}

/// The digit character for `d`.
fn digit_char(d: usize) -> (c: char)
    requires
        d < 10,
    ensures
        c == spec_digit(d as nat),
{
    if d == 0 {
        '0'
    } else if d == 1 {
        '1'
    } else if d == 2 {
        '2'
    } else if d == 3 {
        '3'
    } else if d == 4 {
        '4'
    } else if d == 5 {
        '5'
    } else if d == 6 {
        '6'
    } else if d == 7 {
        '7'
    } else if d == 8 {
        '8'
    } else {
        '9'
    }
}

/// Writes `n` in decimal.
pub fn dec_str(n: usize) -> (r: String)
    ensures
        r@ == spec_dec(n as nat),
    decreases n,
{
    let d = n % 10;
    let c = digit_char(d);
    if n < 10 {
        let mut s = String::new();
        push_char(&mut s, c);
        proof {
            assert(Seq::<char>::empty().push(c) =~= seq![spec_digit(n as nat)]);
        }
        s
    } else {
        let mut s = dec_str(n / 10);
        push_char(&mut s, c);
        proof {
            assert(spec_dec((n / 10) as nat).push(c) =~= spec_dec((n / 10) as nat) + seq![
                spec_digit((n % 10) as nat),
            ]);
        }
        s
    }
}

/// The path, relative to the output directory, of the thumbnail for page `i`.
pub fn thumb_rel_path(i: usize) -> (r: String)
    ensures
        r@ == spec_thumb_src(i as nat),
{
    let mut s = String::from_str("thumbs/");
    let d = dec_str(i);
    s.append(d.as_str());
    s.append(".jpg");
    proof {
        assert(s@ =~= "thumbs/"@ + spec_dec(i as nat) + ".jpg"@);
    }
    s
}

/// The thumbnail paths of an `n`-page deck: exactly `n` of them, the `i`-th
/// being `thumbs/<i>.jpg` — indices contiguous from 0, in page order.
pub fn thumb_rel_paths(n: usize) -> (r: Vec<String>)
    ensures
        r@.len() == n as nat,
        forall|i: int| 0 <= i < n ==> r@[i]@ == spec_thumb_src(i as nat),
{
    let mut v: Vec<String> = Vec::new();
    let mut i: usize = 0;
    while i < n
        invariant
            i <= n,
            v@.len() == i as nat,
            forall|k: int| 0 <= k < i ==> v@[k]@ == spec_thumb_src(k as nat),
        decreases n - i,
    {
        let p = thumb_rel_path(i);
        v.push(p);
        i += 1;
    }
    v
}

/// Joins a directory and a path below it with a `/`.
pub fn join_path(dir: &str, rest: &str) -> (r: String)
    ensures
        r@ == dir@ + "/"@ + rest@,
{
    let mut s = String::from_str(dir);
    s.append("/");
    s.append(rest);
    proof {
        assert(s@ =~= dir@ + "/"@ + rest@);
    }
    s
}

/// The index of the last occurrence of `c` in `p`, or -1 if there is none.
pub open spec fn spec_last_index_of(p: Seq<char>, c: char) -> int
    decreases p.len(),
{
    if p.len() == 0 {
        -1
    } else if p.last() == c {
        p.len() - 1
    } else {
        spec_last_index_of(p.drop_last(), c)
    }
}

/// What follows the last `/` of a path: its file name, empty when the path
/// is empty or ends in `/`.
pub open spec fn spec_file_name(p: Seq<char>) -> Seq<char> {
    p.subrange(spec_last_index_of(p, '/') + 1, p.len() as int)
}

/// The file stem of a path: the file name up to its last `.` (a leading `.`
/// does not count), or nothing when there is no file name to speak of.
pub open spec fn spec_file_stem(p: Seq<char>) -> Option<Seq<char>> {
    let name = spec_file_name(p);
    if name.len() == 0 || name == "."@ || name == ".."@ {
        None
    } else {
        let k = spec_last_index_of(name, '.');
        if k > 0 {
            Some(name.subrange(0, k))
        } else {
            Some(name)
        }
    }
}

/// The last index is in range and every later character differs from `c`.
pub proof fn lemma_last_index_bounds(p: Seq<char>, c: char)
    ensures
        -1 <= spec_last_index_of(p, c) < p.len(),
    decreases p.len(),
{
    if p.len() == 0 {
    } else if p.last() == c {
    } else {
        lemma_last_index_bounds(p.drop_last(), c);
    }
}

/// The index of the last occurrence of `c` in `s`, if any.
pub fn last_index_of(s: &str, c: char) -> (r: Option<usize>)
    ensures
        match r {
            Some(k) => spec_last_index_of(s@, c) == k as int,
            None => spec_last_index_of(s@, c) == -1,
        },
{
    let n = s.unicode_len();
    let mut j: usize = n;
    proof {
        assert(s@.take(n as int) =~= s@);
    }
    while j > 0
        invariant
            j <= n,
            n == s@.len(),
            spec_last_index_of(s@, c) == spec_last_index_of(s@.take(j as int), c),
        decreases j,
    {
        let ch = s.get_char(j - 1);
        proof {
            let t = s@.take(j as int);
            assert(t.last() == s@[j - 1]);
            assert(t.drop_last() =~= s@.take(j - 1));
        }
        if ch == c {
            return Some(j - 1);
        }
        j -= 1;
    }
    proof {
        assert(s@.take(0) =~= Seq::<char>::empty());
    }
    None
}

/// Resolves the output directory: the one given, else the PDF path's file
/// stem; with neither at hand the path is invalid.
pub fn resolve_output_dir(pdf: &str, output: &Option<String>) -> (r: Result<String, Error>)
    ensures
        match r {
            Ok(d) => (output matches Some(o) && d@ == o@) || (output is None
                && (spec_file_stem(pdf@) matches Some(st) && d@ == st)),
            Err(e) => e == Error::InvalidPath && output is None && spec_file_stem(pdf@) is None,
        },
{
    match output {
        Some(o) => Ok(o.clone()),
        None => {
            let n = pdf.unicode_len();
            let slash = last_index_of(pdf, '/');
            proof {
                lemma_last_index_bounds(pdf@, '/');
            }
            let start = match slash {
                Some(k) => k + 1,
                None => 0,
            };
            let name = pdf.substring_char(start, n);
            proof {
                assert(name@ =~= spec_file_name(pdf@));
            }
            let nlen = name.unicode_len();
            if nlen == 0 || crate::text::str_eq_str(name, ".") || crate::text::str_eq_str(
                name,
                "..",
            ) {
                return Err(Error::InvalidPath);
            }
            let dot = last_index_of(name, '.');
            proof {
                lemma_last_index_bounds(name@, '.');
            }
            let stem = match dot {
                Some(k) if k > 0 => name.substring_char(0, k),
                _ => name,
            };
            Ok(String::from_str(stem))
        },
    }
}

} // verus!
