//! The range token of a chunk: `<start>-<end>`, two unsigned decimal
//! numbers around one dash, with nothing else in it.

use vstd::prelude::*;
use vstd::string::StringSliceAdditionalSpecFns;
use vstd::utf8::encode_utf8;
use crate::error::Error;
use crate::storage::model::ByteRange;

verus! {

/// The byte `-`.
pub const DASH: u8 = 45;

/// The byte `0`.
pub const ZERO: u8 = 48;

/// The byte `9`.
pub const NINE: u8 = 57;

/// Whether `b` is a decimal digit.
pub open spec fn is_digit(b: u8) -> bool {
    ZERO <= b <= NINE
}

/// The number that the digits `s` write in decimal.
pub open spec fn decimal_value(s: Seq<u8>) -> nat
    decreases s.len(),
{
    if s.len() == 0 {
        0
    } else {
        decimal_value(s.drop_last()) * 10 + (s.last() - ZERO) as nat
    }
}

/// Whether `s` is an offset: one digit or more, nothing but digits, and a
/// value that the machine's word holds.
pub open spec fn is_offset(s: Seq<u8>) -> bool {
    &&& s.len() > 0
    &&& forall|i: int| 0 <= i < s.len() ==> is_digit(#[trigger] s[i])
    &&& decimal_value(s) <= usize::MAX
}

/// Whether `s` is a range token whose dash stands at `d`.
pub open spec fn splits_at(s: Seq<u8>, d: int) -> bool {
    &&& 0 <= d < s.len()
    &&& s[d] == DASH
    &&& is_offset(s.subrange(0, d))
    &&& is_offset(s.subrange(d + 1, s.len() as int))
}

/// The range that a token with its dash at `d` writes.
pub open spec fn range_at(s: Seq<u8>, d: int) -> ByteRange {
    ByteRange {
        start: decimal_value(s.subrange(0, d)) as usize,
        end: decimal_value(s.subrange(d + 1, s.len() as int)) as usize,
    }
}

/// The range that the token `s` writes, if it is a range token.
pub open spec fn token_range(s: Seq<u8>) -> Option<ByteRange> {
    if exists|d: int| splits_at(s, d) {
        Some(range_at(s, choose|d: int| splits_at(s, d)))
    } else {
        None
    }
}

/// What parsing `s` answers: the range that it writes, or
/// `MalformedRange` where it is no range token.
pub open spec fn parsed(s: Seq<u8>) -> Result<ByteRange, Error> {
    match token_range(s) {
        Some(range) => Ok(range),
        None => Err(Error::MalformedRange),
    }
}

/// A range token has its dash in one place only: the offset before it
/// holds no dash.
pub proof fn dash_is_unique(s: Seq<u8>, d: int, e: int)
    requires
        splits_at(s, d),
        splits_at(s, e),
    ensures
        d == e,
{
    if d < e {
        assert(s.subrange(0, e)[d] == s[d]);
    }
    if e < d {
        assert(s.subrange(0, d)[e] == s[e]);
    }
}

/// Reads the digits of `token` from `from` on. Returns where they end, and
/// their value unless the machine's word cannot hold it.
fn scan_number(token: &[u8], from: usize) -> (r: (usize, Option<usize>))
    requires
        from <= token@.len(),
    ensures
        from <= r.0 <= token@.len(),
        forall|i: int| from <= i < r.0 ==> is_digit(#[trigger] token@[i]),
        r.0 < token@.len() ==> !is_digit(token@[r.0 as int]),
        match r.1 {
            Some(v) => v == decimal_value(token@.subrange(from as int, r.0 as int)),
            None => decimal_value(token@.subrange(from as int, r.0 as int)) > usize::MAX,
        },
{
    let mut p: usize = from;
    let mut value: Option<usize> = Some(0);
    assert(token@.subrange(from as int, from as int) =~= Seq::<u8>::empty());
    while p < token.len() && ZERO <= token[p] && token[p] <= NINE
        invariant
            from <= p <= token@.len(),
            forall|i: int| from <= i < p ==> is_digit(#[trigger] token@[i]),
            match value {
                Some(v) => v == decimal_value(token@.subrange(from as int, p as int)),
                None => decimal_value(token@.subrange(from as int, p as int)) > usize::MAX,
            },
        decreases token@.len() - p,
    {
        let digit: usize = (token[p] - ZERO) as usize;
        proof {
            let next = token@.subrange(from as int, p as int + 1);
            assert(next.drop_last() =~= token@.subrange(from as int, p as int));
            assert(next.last() == token@[p as int]);
        }
        value = match value {
            None => None,
            Some(v) => match v.checked_mul(10) {
                None => None,
                Some(tens) => tens.checked_add(digit),
            },
        };
        p += 1;
    }
    (p, value)
}

/// Parses a range token given as bytes.
pub fn parse_range_bytes(token: &[u8]) -> (r: Result<ByteRange, Error>)
    ensures
        r == parsed(token@),
{
    let ghost s = token@;
    let (p, start) = scan_number(token, 0);
    proof {
        // A dash that splits the token stands where the first digits end.
        assert forall|d: int| splits_at(s, d) implies d == p by {
            if d < p {
                assert(is_digit(s[d]));
            }
            if d > p {
                assert(s.subrange(0, d)[p as int] == s[p as int]);
            }
        }
    }
    if p == 0 || p >= token.len() || token[p] != DASH {
        proof {
            if p == 0 && s.len() > 0 {
                assert(s.subrange(0, 0).len() == 0);
            }
        }
        return Err(Error::MalformedRange);
    }
    let (q, end) = scan_number(token, p + 1);
    let ghost left = s.subrange(0, p as int);
    let ghost right = s.subrange(p + 1, s.len() as int);
    if q == p + 1 || q != token.len() {
        proof {
            if q < s.len() && q > p + 1 {
                assert(right[q - p - 1] == s[q as int]);
            }
            if q == p + 1 && q < s.len() {
                assert(right[0] == s[q as int]);
            }
        }
        return Err(Error::MalformedRange);
    }
    match (start, end) {
        (Some(a), Some(b)) => {
            proof {
                assert forall|i: int| 0 <= i < left.len() implies is_digit(#[trigger] left[i]) by {
                    assert(left[i] == s[i]);
                }
                assert forall|i: int| 0 <= i < right.len() implies is_digit(#[trigger] right[i]) by {
                    assert(right[i] == s[i + p + 1]);
                }
                assert(splits_at(s, p as int));
                dash_is_unique(s, p as int, choose|d: int| splits_at(s, d));
            }
            Ok(ByteRange { start: a, end: b })
        },
        _ => Err(Error::MalformedRange),
    }
}

/// What parsing the text `token` answers. The text is read as its UTF-8
/// bytes, among which a digit or a dash stands for itself alone.
pub open spec fn parsed_text(token: Seq<char>) -> Result<ByteRange, Error> {
    parsed(encode_utf8(token))
}

/// Parses a range token.
pub fn parse_range(token: &str) -> (r: Result<ByteRange, Error>)
    ensures
        r == parsed_text(token@),
{
    assert(token.spec_bytes() == encode_utf8(token@));
    parse_range_bytes(token.as_bytes())
}

} // verus!
