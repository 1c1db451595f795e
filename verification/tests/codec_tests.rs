use llm_client::decode_chunk;
use llm_client::utf8_is_valid;

#[test]
fn decode_ascii_chunk() {
    let bytes: Vec<u8> = b"Hello".to_vec();
    assert_eq!(decode_chunk(&bytes), Some("Hello".to_string()));
}

#[test]
fn decode_empty_chunk() {
    let bytes: Vec<u8> = Vec::new();
    assert_eq!(decode_chunk(&bytes), Some(String::new()));
}

#[test]
fn decode_multibyte_chunk() {
    let text = "héllo → 🙂";
    let bytes: Vec<u8> = text.as_bytes().to_vec();
    assert_eq!(decode_chunk(&bytes), Some(text.to_string()));
}

#[test]
fn reject_lone_continuation_byte() {
    let bytes: Vec<u8> = vec![0x80];
    assert_eq!(decode_chunk(&bytes), None);
}

#[test]
fn reject_overlong_encoding() {
    let bytes: Vec<u8> = vec![0xc0, 0x80];
    assert_eq!(decode_chunk(&bytes), None);
}

#[test]
fn reject_surrogate_encoding() {
    let bytes: Vec<u8> = vec![0xed, 0xa0, 0x80];
    assert_eq!(decode_chunk(&bytes), None);
}

#[test]
fn reject_scalar_beyond_maximum() {
    let bytes: Vec<u8> = vec![0xf5, 0x80, 0x80, 0x80];
    assert_eq!(decode_chunk(&bytes), None);
}

#[test]
fn reject_truncated_encoding() {
    let bytes: Vec<u8> = vec![0xc3];
    assert_eq!(decode_chunk(&bytes), None);
}

#[test]
fn validity_agrees_with_std() {
    let cases: Vec<Vec<u8>> = vec![
        b"".to_vec(),
        b"plain ascii".to_vec(),
        "héllo → 🙂".as_bytes().to_vec(),
        vec![0x80],
        vec![0xc0, 0x80],
        vec![0xc1, 0xbf],
        vec![0xc2],
        vec![0xc2, 0x7f],
        vec![0xc2, 0x80],
        vec![0xdf, 0xbf],
        vec![0xe0, 0x9f, 0xbf],
        vec![0xe0, 0xa0, 0x80],
        vec![0xed, 0x9f, 0xbf],
        vec![0xed, 0xa0, 0x80],
        vec![0xee, 0x80, 0x80],
        vec![0xef, 0xbf, 0xbd],
        vec![0xf0, 0x8f, 0xbf, 0xbf],
        vec![0xf0, 0x90, 0x80, 0x80],
        vec![0xf4, 0x8f, 0xbf, 0xbf],
        vec![0xf4, 0x90, 0x80, 0x80],
        vec![0xf5, 0x80, 0x80, 0x80],
        vec![0xf8, 0x80],
        vec![0xff],
        vec![0x61, 0xc3, 0xa9, 0x62],
        vec![0x61, 0xc3],
        vec![0xa9, 0x62],
    ];
    for bytes in cases {
        assert_eq!(utf8_is_valid(&bytes), std::str::from_utf8(&bytes).is_ok());
    }
}
