//! What a response reports can be sent back: the range in it is a range
//! token, and a client that follows it is in step with the session.

use vstd::prelude::*;
use vstd::utf8::{encode_utf8, is_ascii_chars, is_ascii_chars_encode_utf8};
use crate::endpoints::wire::{bare_range, decimal_text, digit_char};
use crate::error::Error;
use crate::range::{
    dash_is_unique, decimal_value, is_digit, parsed_text, range_at, splits_at, DASH,
};
use crate::storage::model::{has_session, upload_answer, ByteRange, RegistryState};

verus! {

/// The characters of `text`, each as one byte.
spec fn as_bytes(text: Seq<char>) -> Seq<u8> {
    Seq::new(text.len(), |i: int| text[i] as u8)
}

/// A number written in decimal is digits only, and reads as itself.
proof fn lemma_decimal_text_reads_back(n: nat)
    ensures
        decimal_text(n).len() > 0,
        is_ascii_chars(decimal_text(n)),
        forall|i: int| 0 <= i < decimal_text(n).len() ==> is_digit(#[trigger] as_bytes(decimal_text(n))[i]),
        decimal_value(as_bytes(decimal_text(n))) == n,
    decreases n,
{
    let text = decimal_text(n);
    let bytes = as_bytes(text);
    if n < 10 {
        assert(text =~= seq![digit_char(n)]);
        assert(bytes.drop_last() =~= Seq::<u8>::empty());
        assert(decimal_value(bytes.drop_last()) == 0);
    } else {
        lemma_decimal_text_reads_back(n / 10);
        let front = decimal_text(n / 10);
        assert(text =~= front.push(digit_char(n % 10)));
        assert(bytes.drop_last() =~= as_bytes(front));
        assert forall|i: int| 0 <= i < text.len() implies is_digit(#[trigger] bytes[i]) by {
            if i < front.len() {
                assert(bytes[i] == as_bytes(front)[i]);
            }
        }
    }
}

/// The range that a response reports for a buffer of `length` bytes is a
/// range token: parsed, it runs from zero to that length.
pub proof fn reported_range_parses_back(length: usize)
    ensures
        parsed_text(bare_range(length as nat)) == Ok::<ByteRange, Error>(
            ByteRange { start: 0, end: length },
        ),
{
    reveal_strlit("0-");
    let digits = decimal_text(length as nat);
    let text = bare_range(length as nat);
    lemma_decimal_text_reads_back(length as nat);
    assert(text =~= seq!['0', '-'] + digits);
    assert(is_ascii_chars(text));
    is_ascii_chars_encode_utf8(text);
    let bytes = encode_utf8(text);
    assert(bytes =~= as_bytes(text));
    let left = bytes.subrange(0, 1);
    let right = bytes.subrange(2, bytes.len() as int);
    assert(bytes[1] == DASH);
    assert(left.drop_last() =~= Seq::<u8>::empty());
    assert(decimal_value(left) == 0) by {
        assert(decimal_value(left.drop_last()) == 0);
    }
    assert(right =~= as_bytes(digits));
    assert forall|i: int| 0 <= i < right.len() implies is_digit(#[trigger] right[i]) by {
        assert(right[i] == as_bytes(digits)[i]);
    }
    assert(splits_at(bytes, 1));
    dash_is_unique(bytes, 1, choose|d: int| splits_at(bytes, d));
    assert(range_at(bytes, 1) == ByteRange { start: 0, end: length });
}

/// An offset conflict tells the client where to go on: an upload that
/// starts at the length in the conflict is accepted, whatever it declares
/// as its end, as long as the buffer can hold its bytes.
pub proof fn conflict_tells_where_to_resume(
    s: RegistryState,
    repository: Seq<char>,
    id: Seq<char>,
    bytes: Seq<u8>,
    range: Option<ByteRange>,
    current_length: usize,
    next_bytes: Seq<u8>,
    next_end: usize,
)
    requires
        upload_answer(
            s,
            repository,
            id,
            bytes,
            range,
            Err(Error::OffsetConflict { current_length }),
        ),
        current_length + next_bytes.len() <= usize::MAX,
    ensures
        has_session(s, repository, id),
        upload_answer(
            s,
            repository,
            id,
            next_bytes,
            Some(ByteRange { start: current_length, end: next_end }),
            Ok((current_length + next_bytes.len()) as usize),
        ),
{
}

} // verus!
