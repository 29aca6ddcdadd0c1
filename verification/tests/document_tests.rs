use md_workspace::document::{document_from_bytes, document_to_bytes, EncodingError};

#[test]
fn save_then_open_returns_content_exactly() {
    let content = "# Notes\n\nплан, 計画, ασκήσεις — done ✔";
    let written = document_to_bytes(content);
    let reread = document_from_bytes(written);
    assert_eq!(reread, Ok(content.to_string()));
}

#[test]
fn empty_content_round_trips() {
    let written = document_to_bytes("");
    assert!(written.is_empty());
    assert_eq!(document_from_bytes(written), Ok(String::new()));
}

#[test]
fn ascii_content_encodes_to_its_bytes() {
    let written = document_to_bytes("plain text");
    assert_eq!(written, b"plain text".to_vec());
}

#[test]
fn invalid_text_is_rejected_not_lossily_decoded() {
    let bytes = vec![0x68, 0x69, 0xff, 0xfe];
    assert_eq!(document_from_bytes(bytes), Err(EncodingError::NotText));
}

#[test]
fn lone_continuation_byte_is_rejected() {
    assert_eq!(document_from_bytes(vec![0x80]), Err(EncodingError::NotText));
}

#[test]
fn overlong_encoding_is_rejected() {
    // 0xc0 0xaf is an overlong encoding of '/'; strict UTF-8 refuses it.
    assert_eq!(document_from_bytes(vec![0xc0, 0xaf]), Err(EncodingError::NotText));
}
