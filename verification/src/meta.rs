//! The presentation metadata and its parser.
//!
//! The front-matter header is a sequence of `key: value` lines. `title`,
//! `date` and `location` are required; `link` and `event_name` are optional.
//! Empty lines are skipped, unknown keys are ignored, a later occurrence of
//! a key wins, and a non-empty line without a colon makes the block
//! malformed. A value is what follows the first colon, less leading spaces.
use vstd::prelude::*;
use vstd::string::*;
use crate::errors::{Error, Field};
use crate::text::{spec_split, split_str, str_eq_str, find_char, first_index_of};

verus! {

/// The presentation metadata parsed from the front matter.
#[derive(Debug)]
pub struct Metadata {
    pub title: String,
    pub date: String,
    pub location: String,
    pub link: Option<String>,
    pub event_name: Option<String>,
}

/// The mathematical image of a `Metadata` record.
pub ghost struct MetaView {
    pub title: Seq<char>,
    pub date: Seq<char>,
    pub location: Seq<char>,
    pub link: Option<Seq<char>>,
    pub event_name: Option<Seq<char>>,
}

/// The view of an optional string.
pub open spec fn opt_view(o: Option<String>) -> Option<Seq<char>> {
    match o {
        Some(s) => Some(s@),
        None => None,
    }
}

impl View for Metadata {
    type V = MetaView;

    open spec fn view(&self) -> MetaView {
        MetaView {
            title: self.title@,
            date: self.date@,
            location: self.location@,
            link: opt_view(self.link),
            event_name: opt_view(self.event_name),
        }
    }
}

/// A partial record: the fields seen so far while reading header lines.
pub ghost struct MetaAcc {
    pub title: Option<Seq<char>>,
    pub date: Option<Seq<char>>,
    pub location: Option<Seq<char>>,
    pub link: Option<Seq<char>>,
    pub event_name: Option<Seq<char>>,
}

/// No field seen yet.
pub open spec fn empty_acc() -> MetaAcc {
    MetaAcc { title: None, date: None, location: None, link: None, event_name: None }
}

/// A value: what follows the first colon, less leading spaces.
pub open spec fn skip_spaces(v: Seq<char>) -> Seq<char>
    decreases v.len(),
{
    if v.len() > 0 && v[0] == ' ' {
        skip_spaces(v.skip(1))
    } else {
        v
    }
}

/// One header line folded into the partial record. `None` marks a malformed
/// line: non-empty but without a colon.
pub open spec fn apply_line(acc: MetaAcc, l: Seq<char>) -> Option<MetaAcc> {
    if l.len() == 0 {
        Some(acc)
    } else {
        match first_index_of(l, ':', 0) {
            None => None,
            Some(j) => {
                let key = l.subrange(0, j);
                let val = skip_spaces(l.skip(j + 1));
                if key == "title"@ {
                    Some(MetaAcc { title: Some(val), ..acc })
                } else if key == "date"@ {
                    Some(MetaAcc { date: Some(val), ..acc })
                } else if key == "location"@ {
                    Some(MetaAcc { location: Some(val), ..acc })
                } else if key == "link"@ {
                    Some(MetaAcc { link: Some(val), ..acc })
                } else if key == "event_name"@ {
                    Some(MetaAcc { event_name: Some(val), ..acc })
                } else {
                    Some(acc)
                }
            },
        }
    }
}

/// All header lines folded in turn into the partial record.
pub open spec fn fold_lines(acc: MetaAcc, ls: Seq<Seq<char>>) -> Option<MetaAcc>
    decreases ls.len(),
{
    if ls.len() == 0 {
        Some(acc)
    } else {
        match apply_line(acc, ls[0]) {
            None => None,
            Some(a) => fold_lines(a, ls.skip(1)),
        }
    }
}

/// What metadata parsing yields on the header text `h`: the record, or the
/// first missing required field in the order title, date, location, or a
/// malformed-block error.
pub open spec fn spec_parse_meta(h: Seq<char>) -> Result<MetaView, Error> {
    match fold_lines(empty_acc(), spec_split(h, "\n"@)) {
        None => Err(Error::MissingFrontMatter),
        Some(a) => if a.title is None {
            Err(Error::MissingField(Field::Title))
        } else if a.date is None {
            Err(Error::MissingField(Field::Date))
        } else if a.location is None {
            Err(Error::MissingField(Field::Location))
        } else {
            Ok(
                MetaView {
                    title: a.title->0,
                    date: a.date->0,
                    location: a.location->0,
                    link: a.link,
                    event_name: a.event_name,
                },
            )
        },
    }
}

/// Exec skipping of leading spaces agrees with `skip_spaces`.
proof fn lemma_skip_spaces_prefix(v: Seq<char>, p: int)
    requires
        0 <= p <= v.len(),
        forall|m: int| 0 <= m < p ==> v[m] == ' ',
        p == v.len() || v[p] != ' ',
    ensures
        skip_spaces(v) == v.skip(p),
    decreases p,
{
    if p > 0 {
        lemma_skip_spaces_prefix(v.skip(1), p - 1);
        assert(v.skip(1).skip(p - 1) =~= v.skip(p));
        assert(v.skip(0) =~= v);
    } else {
        assert(v.skip(0) =~= v);
    }
}

/// The value part of a header line: what follows position `from`, less
/// leading spaces.
fn value_after(l: &str, from: usize) -> (r: String)
    requires
        from <= l@.len(),
    ensures
        r@ == skip_spaces(l@.skip(from as int)),
{
    let n = l.unicode_len();
    let mut p: usize = from;
    while p < n && l.get_char(p) == ' '
        invariant
            from <= p <= n,
            n == l@.len(),
            forall|m: int| from <= m < p ==> l@[m] == ' ',
        decreases n - p,
    {
        p += 1;
    }
    let v = l.substring_char(p, n);
    proof {
        let tail = l@.skip(from as int);
        lemma_skip_spaces_prefix(tail, p - from);
        assert(tail.skip(p - from) =~= l@.skip(p as int));
        assert(v@ =~= l@.skip(p as int));
    }
    String::from_str(v)
}

/// Parses the front-matter header into the metadata record, exactly as
/// `spec_parse_meta` describes.
pub fn parse_metadata(h: &str) -> (r: Result<Metadata, Error>)
    ensures
        match r {
            Ok(m) => spec_parse_meta(h@) == Ok::<MetaView, Error>(m@),
            Err(e) => spec_parse_meta(h@) == Err::<MetaView, Error>(e),
        },
{
    proof {
        reveal_strlit("\n");
    }
    let lines = split_str(h, "\n");
    let ghost ls = spec_split(h@, "\n"@);
    let mut title: Option<String> = None;
    let mut date: Option<String> = None;
    let mut location: Option<String> = None;
    let mut link: Option<String> = None;
    let mut event_name: Option<String> = None;
    let mut i: usize = 0;
    proof {
        assert(ls.skip(0) =~= ls);
    }
    while i < lines.len()
        invariant
            i <= lines.len(),
            ls == spec_split(h@, "\n"@),
            ls == lines@.map_values(|t: String| t@),
            fold_lines(empty_acc(), ls) == fold_lines(
                MetaAcc {
                    title: opt_view(title),
                    date: opt_view(date),
                    location: opt_view(location),
                    link: opt_view(link),
                    event_name: opt_view(event_name),
                },
                ls.skip(i as int),
            ),
        decreases lines.len() - i,
    {
        let ghost acc = MetaAcc {
            title: opt_view(title),
            date: opt_view(date),
            location: opt_view(location),
            link: opt_view(link),
            event_name: opt_view(event_name),
        };
        let ghost rest = ls.skip(i as int);
        proof {
            assert(rest[0] == ls[i as int]);
            assert(rest.skip(1) =~= ls.skip(i + 1));
        }
        let l = &lines[i];
        proof {
            assert(ls[i as int] == lines@[i as int]@);
            assert(rest[0] == l@);
        }
        let llen = l.as_str().unicode_len();
        if llen == 0 {
            proof {
                assert(l@ =~= Seq::<char>::empty());
                assert(apply_line(acc, rest[0]) == Some(acc));
            }
        } else {
            match find_char(l.as_str(), ':') {
                None => {
                    proof {
                        assert(apply_line(acc, rest[0]) is None);
                        assert(fold_lines(acc, rest) is None);
                    }
                    return Err(Error::MissingFrontMatter);
                },
                Some(j) => {
                    let key = l.as_str().substring_char(0, j);
                    proof {
                        assert(key@ =~= l@.subrange(0, j as int));
                    }
                    let val = value_after(l.as_str(), j + 1);
                    if str_eq_str(key, "title") {
                        title = Some(val);
                    } else if str_eq_str(key, "date") {
                        date = Some(val);
                    } else if str_eq_str(key, "location") {
                        location = Some(val);
                    } else if str_eq_str(key, "link") {
                        link = Some(val);
                    } else if str_eq_str(key, "event_name") {
                        event_name = Some(val);
                    }
                },
            }
        }
        i += 1;
        proof {
            let acc2 = MetaAcc {
                title: opt_view(title),
                date: opt_view(date),
                location: opt_view(location),
                link: opt_view(link),
                event_name: opt_view(event_name),
            };
            assert(apply_line(acc, rest[0]) == Some(acc2));
            assert(fold_lines(acc, rest) == fold_lines(acc2, ls.skip(i as int)));
        }
    }
    proof {
        assert(ls.skip(lines@.len() as int) =~= Seq::<Seq<char>>::empty());
    }
    let title = match title {
        Some(t) => t,
        None => {
            return Err(Error::MissingField(Field::Title));
        },
    };
    let date = match date {
        Some(d) => d,
        None => {
            return Err(Error::MissingField(Field::Date));
        },
    };
    let location = match location {
        Some(x) => x,
        None => {
            return Err(Error::MissingField(Field::Location));
        },
    };
    Ok(Metadata { title, date, location, link, event_name })
}

} // verus!
