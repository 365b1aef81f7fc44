use coder::clipboard::{base64, osc52_sequence};

#[test]
fn base64_encodes_rfc4648_vectors() {
    assert_eq!(base64(b""), "");
    assert_eq!(base64(b"f"), "Zg==");
    assert_eq!(base64(b"fo"), "Zm8=");
    assert_eq!(base64(b"foo"), "Zm9v");
    assert_eq!(base64(b"foob"), "Zm9vYg==");
    assert_eq!(base64(b"fooba"), "Zm9vYmE=");
    assert_eq!(base64(b"foobar"), "Zm9vYmFy");
}

#[test]
fn osc52_wraps_the_encoded_text_and_skips_empty() {
    assert_eq!(osc52_sequence("hi").as_deref(), Some("\x1b]52;c;aGk=\x1b\\"));
    assert_eq!(osc52_sequence(""), None);
}
