use mtbfile_sender::b64::decode;

#[test]
fn decodes_padded_input() {
    assert_eq!(decode(b"aGVsbG8="), Some(b"hello".to_vec()));
    assert_eq!(decode(b"aA=="), Some(b"h".to_vec()));
}

#[test]
fn decodes_unpadded_full_groups() {
    assert_eq!(decode(b"aGVsbG8h"), Some(b"hello!".to_vec()));
    assert_eq!(decode(b"dXNlcjpzZWNyZXQ="), Some(b"user:secret".to_vec()));
}

#[test]
fn empty_input_decodes_to_nothing() {
    assert_eq!(decode(b""), Some(Vec::new()));
}

#[test]
fn rejects_bad_lengths_and_bad_bytes() {
    assert_eq!(decode(b"a"), None);
    assert_eq!(decode(b"abc"), None);
    assert_eq!(decode(b"####"), None);
    assert_eq!(decode(b"a==="), None);
    assert_eq!(decode(b"ab=c"), None);
}

#[test]
fn rejects_padding_before_the_final_group() {
    assert_eq!(decode(b"aA==aGVs"), None);
}
