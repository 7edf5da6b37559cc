use std::num::IntErrorKind;

use redbook::hex::{hex_dump, hex_to_bytes, HexErrorKind, IntErrorCause};

#[test]
fn hex_dump_empty() {
    assert_eq!(hex_dump(&[]), "");
}

#[test]
fn hex_dump_single_byte() {
    assert_eq!(hex_dump(&[0x00]), "00");
    assert_eq!(hex_dump(&[0xff]), "ff");
}

#[test]
fn hex_dump_multiple_bytes() {
    assert_eq!(hex_dump(&[0x00, 0x01, 0x02]), "00 01 02");
    assert_eq!(hex_dump(&[0x10, 0x20, 0x30, 0x40]), "10 20 30 40");
}

#[test]
fn hex_dump_lowercase() {
    assert_eq!(hex_dump(&[0xab, 0xcd]), "ab cd");
}

#[test]
fn hex_dump_full_range() {
    assert_eq!(hex_dump(&[0x00, 0xff]), "00 ff");
}

#[test]
fn hex_dump_roundtrip() {
    let original: Vec<u8> = vec![0x00, 0x01, 0x02, 0x0a, 0xff];
    let dumped = hex_dump(&original);
    let parsed = hex_to_bytes(&dumped).unwrap();
    assert_eq!(parsed, original);
}

#[test]
fn hex_to_bytes_empty() {
    assert_eq!(hex_to_bytes("").unwrap(), Vec::<u8>::new());
}

#[test]
fn hex_to_bytes_single() {
    assert_eq!(hex_to_bytes("00").unwrap(), vec![0x00]);
    assert_eq!(hex_to_bytes("ff").unwrap(), vec![0xff]);
}

#[test]
fn hex_to_bytes_multiple() {
    assert_eq!(hex_to_bytes("00 01 02").unwrap(), vec![0x00, 0x01, 0x02]);
    assert_eq!(
        hex_to_bytes("10203040").unwrap(),
        vec![0x10, 0x20, 0x30, 0x40]
    );
}

#[test]
fn hex_to_bytes_with_newlines() {
    assert_eq!(hex_to_bytes("00\n01\n02").unwrap(), vec![0x00, 0x01, 0x02]);
}

#[test]
fn hex_to_bytes_uppercase() {
    assert_eq!(hex_to_bytes("FF").unwrap(), vec![0xff]);
    assert_eq!(hex_to_bytes("AB CD").unwrap(), vec![0xab, 0xcd]);
}

#[test]
fn hex_to_bytes_bad_length() {
    let r = hex_to_bytes("01 3");
    assert!(matches!(r, Err(e) if *e.kind() == HexErrorKind::NotPairs));
}

#[test]
fn hex_to_bytes_bad_char() {
    let r = hex_to_bytes("01 3g ff");
    assert!(r.is_err(), "{r:?}");
    assert!(matches!(r,
        Err(e)
        if matches!(e.kind(),
            HexErrorKind::InvalidValue(parse_err)
            if *parse_err.kind() == IntErrorKind::InvalidDigit
        )
    ));
}

#[test]
fn hex_error_messages() {
    let r = hex_to_bytes("abc").unwrap_err();
    assert_eq!(r.message(), "does not consist of exact pairs of hex digits");
    let r = hex_to_bytes("zz").unwrap_err();
    assert_eq!(r.message(), "invalid digit found in string");
}

#[test]
fn hex_dump_parses_back_every_byte() {
    let all: Vec<u8> = (0..=255u8).collect();
    assert_eq!(hex_to_bytes(&hex_dump(&all)).unwrap(), all);
}

#[test]
fn hex_error_int_cause() {
    let e = hex_to_bytes("01 3g ff").unwrap_err();
    assert_eq!(e.kind().int_error_cause(), Some(IntErrorCause::InvalidDigit));
    let e = hex_to_bytes("zz").unwrap_err();
    assert_eq!(e.kind().int_error_cause(), Some(IntErrorCause::InvalidDigit));
    let e = hex_to_bytes("abc").unwrap_err();
    assert_eq!(e.kind().int_error_cause(), None);
}
