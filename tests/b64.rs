use oauth2_utils::errors::DecodeError;
use oauth2_utils::urlsafe::b64::{urlsafe_b64decode, urlsafe_b64encode};

#[test]
fn test_urlsafe_b64encode() {
    // simple string
    let input_string: &str = "Hello, World!";
    let expected_output: &str = "SGVsbG8sIFdvcmxkIQ";
    let encoded_result: String = urlsafe_b64encode(input_string.as_bytes());
    assert_eq!(encoded_result, expected_output);

    // empty str
    let empty_input: &str = "";
    let empty_expected_output: &str = "";
    let empty_encoded_result: String = urlsafe_b64encode(empty_input.as_bytes());
    assert_eq!(empty_encoded_result, empty_expected_output);

    // binary data
    let binary_data: Vec<u8> = vec![0x01, 0x02, 0x03, 0x04];
    let binary_expected_output: &str = "AQIDBA";
    let binary_encoded_result: String = urlsafe_b64encode(&binary_data);
    assert_eq!(binary_encoded_result, binary_expected_output);
}

#[test]
fn test_urlsafe_b64decode() {
    // simple string
    let encoded_string: &str = "aGV5eQ";
    let expected_output: &str = "heyy";
    let decoded_result: Result<String, DecodeError> = urlsafe_b64decode(encoded_string.as_bytes());
    assert_eq!(decoded_result.unwrap(), expected_output.to_string());

    // empty str
    let empty_encoded: &str = "";
    let empty_expected_output: &str = "";
    let empty_decoded_result: Result<String, DecodeError> = urlsafe_b64decode(empty_encoded.as_bytes());
    assert_eq!(empty_decoded_result.unwrap(), empty_expected_output.to_string());

    // invalid encoding
    let invalid_encoded: &str = "InvalidBase64";
    let invalid_decoded_result: Result<String, DecodeError> = urlsafe_b64decode(invalid_encoded.as_bytes());
    assert!(invalid_decoded_result.is_err());
}

#[test]
fn encode_uses_urlsafe_symbols() {
    assert_eq!(urlsafe_b64encode(&[0xfb, 0xff, 0xbf]), "-_-_");
    assert_eq!(urlsafe_b64encode(&[0xff]), "_w");
    assert_eq!(urlsafe_b64encode(&[0xff, 0xee]), "_-4");
}

#[test]
fn encode_length_follows_byte_count() {
    for n in 0..20usize {
        let bytes: Vec<u8> = vec![0x5a; n];
        assert_eq!(urlsafe_b64encode(&bytes).len(), (4 * n + 2) / 3);
    }
}

#[test]
fn round_trip_of_text() {
    for text in ["", "a", "ab", "abc", "heyy", "Hello, World!", "grüße, 世界"] {
        let encoded = urlsafe_b64encode(text.as_bytes());
        assert_eq!(urlsafe_b64decode(encoded.as_bytes()).unwrap(), text);
    }
}

#[test]
fn decode_reads_invalid_utf8_lossily() {
    assert_eq!(urlsafe_b64decode("_w".as_bytes()).unwrap(), "\u{FFFD}");
}

#[test]
fn decode_error_invalid_length() {
    assert_eq!(urlsafe_b64decode("InvalidBase64".as_bytes()), Err(DecodeError::InvalidLength));
    assert_eq!(urlsafe_b64decode("a".as_bytes()), Err(DecodeError::InvalidLength));
}

#[test]
fn decode_error_invalid_byte() {
    assert_eq!(urlsafe_b64decode("ab+d".as_bytes()), Err(DecodeError::InvalidByte(2, b'+')));
    assert_eq!(urlsafe_b64decode("ab/d".as_bytes()), Err(DecodeError::InvalidByte(2, b'/')));
}

#[test]
fn decode_error_invalid_last_symbol() {
    assert_eq!(urlsafe_b64decode("AB".as_bytes()), Err(DecodeError::InvalidLastSymbol(1, b'B')));
}

#[test]
fn decode_error_invalid_padding() {
    assert_eq!(urlsafe_b64decode("AA==".as_bytes()), Err(DecodeError::InvalidPadding));
}
