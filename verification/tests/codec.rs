use fact_store::codec::{b64url, decode_b64url};

#[test]
fn b64url_encodes_without_padding() {
    assert_eq!(b64url(b""), "");
    assert_eq!(b64url(b"f"), "Zg");
    assert_eq!(b64url(b"fo"), "Zm8");
    assert_eq!(b64url(b"foo"), "Zm9v");
    assert_eq!(b64url(b"hello"), "aGVsbG8");
    assert_eq!(b64url(&[0xfb, 0xff]), "-_8");
    assert_eq!(b64url(b"# Fact\n"), "IyBGYWN0Cg");
}

#[test]
fn decode_b64url_reads_canonical_text() {
    assert_eq!(decode_b64url(""), Some(Vec::new()));
    assert_eq!(decode_b64url("Zg"), Some(b"f".to_vec()));
    assert_eq!(decode_b64url("Zm8"), Some(b"fo".to_vec()));
    assert_eq!(decode_b64url("aGVsbG8"), Some(b"hello".to_vec()));
    assert_eq!(decode_b64url("-_8"), Some(vec![0xfb, 0xff]));
}

#[test]
fn decode_b64url_rejects_bad_text() {
    // a single trailing symbol cannot hold a byte
    assert_eq!(decode_b64url("Z"), None);
    assert_eq!(decode_b64url("Zm9vZ"), None);
    // non-zero leftover bits
    assert_eq!(decode_b64url("Zh"), None);
    assert_eq!(decode_b64url("Zm9"), None);
    // padding and the standard alphabet are not accepted
    assert_eq!(decode_b64url("Zg=="), None);
    assert_eq!(decode_b64url("+/8"), None);
    assert_eq!(decode_b64url("é"), None);
}

#[test]
fn b64url_roundtrip_on_all_small_inputs() {
    let mut data = Vec::new();
    for i in 0..300u32 {
        data.push((i * 37 % 256) as u8);
        let text = b64url(&data);
        assert_eq!(decode_b64url(&text), Some(data.clone()));
    }
}

#[test]
fn decoded_text_encodes_back_to_itself() {
    for text in ["", "Zg", "Zm8", "Zm9v", "aGVsbG8", "-_8", "IyBGYWN0Cg", "AAAA", "__-_"] {
        let bytes = decode_b64url(text).unwrap();
        assert_eq!(b64url(&bytes), text);
    }
}
