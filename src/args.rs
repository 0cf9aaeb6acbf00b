//! The crawler's command-line values: the visit limit and the allow-list of
//! media types.

use vstd::prelude::*;
use crate::media::{media_type_of, texts, MediaType};

verus! {

/// The limit used where none is given or it does not read as a number.
pub const DEFAULT_LIMIT: isize = 0;

/// Whether `s` is one or more decimal digits.
pub open spec fn is_digits(s: Seq<char>) -> bool {
    s.len() > 0 && forall|i: int| 0 <= i < s.len() ==> '0' <= #[trigger] s[i] <= '9'
}

/// The number that the decimal digits `s` write.
pub open spec fn digits_value(s: Seq<char>) -> int
    decreases s.len(),
{
    if s.len() == 0 {
        0
    } else {
        digits_value(s.drop_last()) * 10 + (s.last() as int - '0' as int)
    }
}

/// The number that `s` writes: an optional `+` or `-` and decimal digits.
pub open spec fn signed_value(s: Seq<char>) -> Option<int> {
    if s.len() > 0 && s[0] == '-' {
        if is_digits(s.drop_first()) {
            Some(-digits_value(s.drop_first()))
        } else {
            None
        }
    } else if s.len() > 0 && s[0] == '+' {
        if is_digits(s.drop_first()) {
            Some(digits_value(s.drop_first()))
        } else {
            None
        }
    } else if is_digits(s) {
        Some(digits_value(s))
    } else {
        None
    }
}

/// What `s` reads as, as an `isize`: its number where that fits.
pub open spec fn isize_of(s: Seq<char>) -> Option<isize> {
    match signed_value(s) {
        Some(v) => if isize::MIN <= v <= isize::MAX {
            Some(v as isize)
        } else {
            None
        },
        None => None,
    }
}

/// Relies on `str::parse::<isize>`: an optional sign and decimal digits,
/// nothing else, and a value in range.
#[verifier::external_body]
fn parse_isize(s: &str) -> (r: Option<isize>)
    ensures
        r == isize_of(s@),
{
    s.parse::<isize>().ok()
}

/// The pieces of `s` between single spaces, as `str::split(" ")` gives them:
/// one more than there are spaces, empty ones included.
pub open spec fn pieces(s: Seq<char>) -> Seq<Seq<char>>
    decreases s.len(),
{
    if s.len() == 0 {
        seq![Seq::<char>::empty()]
    } else {
        let p = pieces(s.drop_last());
        if s.last() == ' ' {
            p.push(Seq::empty())
        } else {
            p.update(p.len() - 1, p.last().push(s.last()))
        }
    }
}

/// The media types that the strings `ps` read as, in order, skipping those
/// that do not read as one.
pub open spec fn media_list(ps: Seq<Seq<char>>) -> Seq<Seq<char>>
    decreases ps.len(),
{
    if ps.len() == 0 {
        Seq::empty()
    } else {
        let prev = media_list(ps.drop_last());
        match media_type_of(ps.last()) {
            Some(t) => prev.push(t),
            None => prev,
        }
    }
}

/// The visit limit written as `limit_arg`: its number, or 0 where it is
/// missing or does not read as one.
pub fn fetch_limit(limit_arg: Option<String>) -> (r: isize)
    ensures
        r == match limit_arg {
            Some(s) => match isize_of(s@) {
                Some(l) => l,
                None => DEFAULT_LIMIT,
            },
            None => DEFAULT_LIMIT,
        },
{
    match limit_arg {
        Some(limit) => match parse_isize(limit.as_str()) {
            Some(l) => l,
            None => DEFAULT_LIMIT,
        },
        None => DEFAULT_LIMIT,
    }
}

/// The allow-list written as `mime_types_arg`: each of its space-separated
/// pieces that reads as a media type, in order; none where it is missing.
pub fn fetch_mime_types(mime_types_arg: Option<String>) -> (r: Vec<MediaType>)
    ensures
        texts(r@) == match mime_types_arg {
            Some(s) => media_list(pieces(s@)),
            None => Seq::empty(),
        },
{
    let mut mime_types: Vec<MediaType> = Vec::new();
    match mime_types_arg {
        None => {
            assert(texts(mime_types@) =~= Seq::empty());
            mime_types
        },
        Some(mts) => {
            let s = mts.as_str();
            let n = s.unicode_len();
            let mut start: usize = 0;
            let mut i: usize = 0;
            let ghost mut done: Seq<Seq<char>> = Seq::empty();
            assert(s@.subrange(0, 0) =~= Seq::<char>::empty());
            while i < n
                invariant
                    n == s@.len(),
                    start <= i <= n,
                    pieces(s@.subrange(0, i as int)) == done.push(s@.subrange(start as int, i as int)),
                    texts(mime_types@) == media_list(done),
                decreases n - i,
            {
                let c = s.get_char(i);
                let ghost p = pieces(s@.subrange(0, i as int));
                assert(s@.subrange(0, i + 1).drop_last() =~= s@.subrange(0, i as int));
                if c == ' ' {
                    let piece = s.substring_char(start, i);
                    let ghost before = texts(mime_types@);
                    match MediaType::parse(piece) {
                        Some(m) => {
                            mime_types.push(m);
                            assert(texts(mime_types@) =~= before.push(m@));
                        },
                        None => {},
                    }
                    proof {
                        assert(done.push(piece@).drop_last() =~= done);
                        done = done.push(piece@);
                        assert(s@.subrange(i + 1, i + 1) =~= Seq::<char>::empty());
                    }
                    start = i + 1;
                } else {
                    assert(s@.subrange(start as int, i + 1) =~= s@.subrange(start as int, i as int).push(c));
                    assert(p.update(p.len() - 1, p.last().push(c)) =~= done.push(
                        s@.subrange(start as int, i + 1),
                    ));
                }
                i = i + 1;
            }
            let last = s.substring_char(start, n);
            let ghost before = texts(mime_types@);
            match MediaType::parse(last) {
                Some(m) => {
                    mime_types.push(m);
                    assert(texts(mime_types@) =~= before.push(m@));
                },
                None => {},
            }
            proof {
                assert(s@.subrange(0, n as int) =~= s@);
                assert(done.push(last@).drop_last() =~= done);
            }
            mime_types
        },
    }
}

} // verus!
