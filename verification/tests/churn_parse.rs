//! The churn parser and the hex decoder.

use lightarti_rest::churn::parse_churn;
use lightarti_rest::hexcode::decode_hex;

#[test]
fn hex_decodes_both_cases() {
    let d = decode_hex(b"0aFf10").expect("valid hex");
    assert_eq!(d, vec![0x0a, 0xff, 0x10]);
    assert_eq!(decode_hex(b""), Some(vec![]));
}

#[test]
fn hex_rejects_odd_and_bad() {
    assert_eq!(decode_hex(b"abc"), None);
    assert_eq!(decode_hex(b"zz"), None);
    assert_eq!(decode_hex(b"0 "), None);
}

#[test]
fn churn_empty_file_is_empty() {
    let churn = parse_churn(b"").expect("empty churn");
    assert!(churn.is_empty());
}

#[test]
fn churn_parses_lines() {
    let text = b"000102030405060708090a0b0c0d0e0f10111213\n\
                 F0F1F2F3F4F5F6F7F8F9FAFBFCFDFEFF00010203\n";
    let churn = parse_churn(text).expect("valid churn");
    assert_eq!(churn.len(), 2);
    assert_eq!(churn[0][0], 0x00);
    assert_eq!(churn[0][19], 0x13);
    assert_eq!(churn[1][0], 0xf0);
}

#[test]
fn churn_skips_empty_lines_and_strips_cr() {
    let text = b"\n000102030405060708090a0b0c0d0e0f10111213\r\n\n";
    let churn = parse_churn(text).expect("valid churn");
    assert_eq!(churn.len(), 1);
    assert_eq!(churn[0].len(), 20);
}

#[test]
fn churn_rejects_bad_hex() {
    let err = parse_churn(b"not-hex-at-all\n").expect_err("");
    assert_eq!(err.describe(), "Corrupt cache: invalid RSA identity");
}

#[test]
fn churn_rejects_wrong_length() {
    // Valid hex, but 19 bytes instead of 20.
    let err = parse_churn(b"000102030405060708090a0b0c0d0e0f101112\n").expect_err("");
    assert_eq!(err.describe(), "Corrupt cache: invalid RSA identity");
}
