//! Tests of the wire codec: framing, parsing, and the round trip.

use iroha_network::decode;
use iroha_network::encode;
use iroha_network::ProtocolError;
use iroha_network::Request;

#[test]
fn request_correctly_built() {
    let request = Request::new("/commands".to_string(), b"some_command".to_vec());
    let bytes: Vec<u8> = encode(request);
    assert_eq!(b"/commands\r\nsome_command".to_vec(), bytes)
}

#[test]
fn request_correctly_parsed() {
    let request = Request::new("/commands".to_string(), b"some_command".to_vec());
    assert_eq!(decode(b"/commands\r\nsome_command".to_vec()).unwrap(), request)
}

#[test]
fn round_trip_preserves_request() {
    let request = Request::new(
        "/path/with unicode ä and spaces".to_string(),
        b"payload with \n newline and \r and \x00 bytes".to_vec(),
    );
    assert_eq!(decode(encode(request.clone())).unwrap(), request)
}

#[test]
fn round_trip_of_empty_payload() {
    let request = Request::new("/ping".to_string(), vec![]);
    assert_eq!(decode(encode(request.clone())).unwrap(), request)
}

#[test]
fn decode_without_delimiter_is_missing_delimiter() {
    assert_eq!(
        decode(b"no delimiter in here".to_vec()).unwrap_err(),
        ProtocolError::MissingDelimiter
    )
}

#[test]
fn decode_of_empty_input_is_missing_delimiter() {
    assert_eq!(decode(vec![]).unwrap_err(), ProtocolError::MissingDelimiter)
}

#[test]
fn decode_rejects_a_path_that_is_not_text() {
    assert_eq!(
        decode(vec![0xff, 0xfe, b'\r', b'\n']).unwrap_err(),
        ProtocolError::InvalidText
    )
}

#[test]
fn decode_splits_on_the_first_newline_only() {
    let request = decode(b"/a\r\nline1\nline2\n".to_vec()).unwrap();
    assert_eq!(request.url(), "/a");
    assert_eq!(request.payload(), b"line1\nline2\n")
}

#[test]
fn decode_drops_one_byte_before_the_delimiter_unconditionally() {
    let request = decode(b"/abX\npayload".to_vec()).unwrap();
    assert_eq!(request.url(), "/ab");
    assert_eq!(request.payload(), b"payload")
}

#[test]
fn decode_of_empty_path_segment() {
    let request = decode(b"\npayload".to_vec()).unwrap();
    assert_eq!(request.url(), "");
    assert_eq!(request.payload(), b"payload")
}
