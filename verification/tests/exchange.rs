//! Tests of a full exchange over a stream: server side, client side, error
//! propagation, and truncation at the receive buffer.

use iroha_network::encode;
use iroha_network::EchoHandler;
use iroha_network::FixedResponder;
use iroha_network::MemoryStream;
use iroha_network::Network;
use iroha_network::NetworkError;
use iroha_network::ProtocolError;
use iroha_network::RejectAll;
use iroha_network::Request;
use iroha_network::Stream;
use iroha_network::TransportError;
use iroha_network::BUFFER_SIZE;

/// A connection that fails on every operation, as a torn-down socket would.
struct BrokenStream;

impl Stream for BrokenStream {
    fn read_into(&mut self, _buffer: &mut Vec<u8>) -> Result<usize, TransportError> {
        Err(TransportError::Read)
    }

    fn write_all(&mut self, _bytes: &[u8]) -> Result<(), TransportError> {
        Err(TransportError::Write)
    }

    fn flush(&mut self) -> Result<(), TransportError> {
        Err(TransportError::Flush)
    }
}

#[test]
fn server_answers_ping_with_pong() {
    let mut stream = MemoryStream::new(encode(Request::new("/ping".to_string(), vec![])));
    let mut handler = FixedResponder::new(b"pong".to_vec());
    Network::handle_message(&mut stream, &mut handler).unwrap();
    assert_eq!(stream.into_written(), b"pong".to_vec())
}

#[test]
fn client_writes_frame_and_reads_response() {
    let mut stream = MemoryStream::new(b"pong".to_vec());
    let response =
        Network::send_over_stream(&mut stream, Request::new("/ping".to_string(), vec![])).unwrap();
    assert_eq!(response, b"pong".to_vec());
    assert_eq!(stream.into_written(), b"/ping\r\n".to_vec())
}

#[test]
fn repeated_exchanges_are_independent() {
    let mut handler = FixedResponder::new(b"pong".to_vec());
    for _ in 0..3 {
        let mut stream = MemoryStream::new(encode(Request::new("/ping".to_string(), vec![])));
        Network::handle_message(&mut stream, &mut handler).unwrap();
        assert_eq!(stream.into_written(), b"pong".to_vec());
    }
}

#[test]
fn malformed_frame_aborts_the_exchange_and_writes_nothing() {
    let mut stream = MemoryStream::new(b"frame without delimiter".to_vec());
    let mut handler = FixedResponder::new(b"pong".to_vec());
    let error = Network::handle_message(&mut stream, &mut handler).unwrap_err();
    assert_eq!(error, NetworkError::Protocol(ProtocolError::MissingDelimiter));
    assert_eq!(stream.into_written(), Vec::<u8>::new())
}

#[test]
fn empty_connection_is_a_missing_delimiter() {
    let mut stream = MemoryStream::new(vec![]);
    let mut handler = FixedResponder::new(b"pong".to_vec());
    let error = Network::handle_message(&mut stream, &mut handler).unwrap_err();
    assert_eq!(error, NetworkError::Protocol(ProtocolError::MissingDelimiter))
}

#[test]
fn rejecting_handler_yields_an_application_error_and_writes_nothing() {
    let mut stream = MemoryStream::new(encode(Request::new("/anything".to_string(), vec![])));
    let mut handler = RejectAll;
    let error = Network::handle_message(&mut stream, &mut handler).unwrap_err();
    assert!(matches!(error, NetworkError::Application(_)));
    assert_eq!(stream.into_written(), Vec::<u8>::new())
}

#[test]
fn oversized_message_reaches_the_decode_step_truncated() {
    let frame = encode(Request::new("/echo".to_string(), vec![b'x'; 2 * BUFFER_SIZE]));
    assert!(frame.len() > BUFFER_SIZE);
    let mut stream = MemoryStream::new(frame);
    let mut handler = EchoHandler;
    Network::handle_message(&mut stream, &mut handler).unwrap();
    let echoed = stream.into_written();
    assert_eq!(echoed.len(), BUFFER_SIZE - "/echo\r\n".len());
    assert!(echoed.iter().all(|b| *b == b'x'))
}

#[test]
fn client_read_is_capped_at_the_buffer_size() {
    let mut stream = MemoryStream::new(vec![b'y'; 2 * BUFFER_SIZE]);
    let response =
        Network::send_over_stream(&mut stream, Request::new("/x".to_string(), vec![])).unwrap();
    assert_eq!(response.len(), BUFFER_SIZE)
}

#[test]
fn client_handle_remembers_its_server_url() {
    let client = Network::new("127.0.0.1:7878");
    assert_eq!(client.server_url(), "127.0.0.1:7878")
}

#[test]
fn failing_stream_surfaces_a_transport_error() {
    let mut handler = FixedResponder::new(b"pong".to_vec());
    let error = Network::handle_message(&mut BrokenStream, &mut handler).unwrap_err();
    assert_eq!(error, NetworkError::Transport(TransportError::Read));
    let error =
        Network::send_over_stream(&mut BrokenStream, Request::new("/ping".to_string(), vec![]))
            .unwrap_err();
    assert_eq!(error, TransportError::Write)
}
