use xlsxlite::column::decode_column;
use xlsxlite::column::encode_column;

#[test]
fn encode_decode_roundtrip_first_thousand() {
    let mut n: u64 = 1;
    while n <= 1000 {
        let code = encode_column(n);
        assert_eq!(decode_column(code.as_str()), Some(n));
        n += 1;
    }
}

#[test]
fn encoding_sequence_matches_letter_order() {
    assert_eq!(encode_column(1), "A");
    assert_eq!(encode_column(2), "B");
    assert_eq!(encode_column(25), "Y");
    assert_eq!(encode_column(26), "Z");
    assert_eq!(encode_column(27), "AA");
    assert_eq!(encode_column(28), "AB");
    assert_eq!(encode_column(52), "AZ");
    assert_eq!(encode_column(53), "BA");
    assert_eq!(encode_column(702), "ZZ");
    assert_eq!(encode_column(703), "AAA");
}

#[test]
fn decode_rejects_malformed_codes() {
    assert_eq!(decode_column(""), None);
    assert_eq!(decode_column("A1"), None);
    assert_eq!(decode_column("a"), None);
    assert_eq!(decode_column("-"), None);
}

#[test]
fn decode_known_values() {
    assert_eq!(decode_column("A"), Some(1));
    assert_eq!(decode_column("Z"), Some(26));
    assert_eq!(decode_column("AA"), Some(27));
    assert_eq!(decode_column("XFD"), Some(16384));
}
