use blob_registry::error::Error;
use blob_registry::range::{parse_range, parse_range_bytes};
use blob_registry::storage::model::ByteRange;

#[test]
fn well_formed_tokens() {
    assert_eq!(parse_range("0-4"), Ok(ByteRange { start: 0, end: 4 }));
    assert_eq!(parse_range("5-5"), Ok(ByteRange { start: 5, end: 5 }));
    assert_eq!(parse_range("1024-2047"), Ok(ByteRange { start: 1024, end: 2047 }));
    assert_eq!(parse_range("007-010"), Ok(ByteRange { start: 7, end: 10 }));
    assert_eq!(parse_range("9-3"), Ok(ByteRange { start: 9, end: 3 }));
    assert_eq!(parse_range_bytes(b"12-34"), Ok(ByteRange { start: 12, end: 34 }));
}

#[test]
fn largest_offset_is_accepted_and_the_next_is_not() {
    let max = usize::MAX.to_string();
    let token = format!("{}-{}", max, max);
    assert_eq!(parse_range(&token), Ok(ByteRange { start: usize::MAX, end: usize::MAX }));
    assert_eq!(parse_range("18446744073709551616-0"), Err(Error::MalformedRange));
    assert_eq!(parse_range("0-18446744073709551616"), Err(Error::MalformedRange));
    assert_eq!(parse_range("99999999999999999999999999999999-1"), Err(Error::MalformedRange));
}

#[test]
fn malformed_tokens() {
    for token in [
        "", "-", "5", "5-", "-5", "a-b", "1-2-3", " 1-2", "1-2 ", "1 - 2", "+1-2", "1-+2", "1--2",
        "0x1-2", "1_0-2", "1-2\n", "bytes=0-4", "١-٢", "1–2",
    ] {
        assert_eq!(parse_range(token), Err(Error::MalformedRange));
    }
    assert_eq!(parse_range_bytes(&[0x31, 0xff, 0x32]), Err(Error::MalformedRange));
}
