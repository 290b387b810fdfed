//! The server and client sides of the one-request-per-connection protocol.
//!
//! A server reads one frame from a stream, decodes it, hands the request to a
//! handler, writes the handler's response back and is done with the
//! connection. A client writes one frame, flushes, and reads one response.
//! Either side reads at most [`crate::BUFFER_SIZE`] bytes: a longer message is
//! silently truncated to that size, never reassembled.

use vstd::prelude::*;

use crate::codec::decode;
use crate::codec::encode;
use crate::codec::spec_decode;
use crate::codec::spec_encode;
use crate::codec::ProtocolError;
use crate::codec::Request;
use crate::codec::RequestModel;
use crate::stream::Stream;
use crate::stream::TransportError;
use crate::BUFFER_SIZE;

verus! {

/// A response: an opaque byte sequence produced by the application handler.
pub type Response = Vec<u8>;

/// An error raised by the application handler, propagated back to the caller
/// of the exchange; how it is reported to the remote end is the application's
/// concern, not this layer's.
#[derive(Debug, PartialEq, Eq)]
pub struct ApplicationError {
    message: String,
}

impl ApplicationError {
    /// An application error carrying `message`.
    pub fn new(message: String) -> (r: ApplicationError)
        ensures
            r@ == message@,
    {
        ApplicationError { message }
    }

    /// The text of the error.
    pub fn message(&self) -> (r: &str)
        ensures
            r@ == self@,
    {
        self.message.as_str()
    }
}

impl View for ApplicationError {
    type V = Seq<char>;

    closed spec fn view(&self) -> Seq<char> {
        self.message@
    }
}

/// Any way a single exchange over one connection can fail. Every such failure
/// is scoped to its connection: the caller may log and discard it, and a
/// listening loop goes on unaffected.
#[derive(Debug, PartialEq, Eq)]
pub enum NetworkError {
    /// The received bytes are not a well-formed frame.
    Protocol(ProtocolError),
    /// The stream failed while reading, writing or flushing.
    Transport(TransportError),
    /// The application handler rejected the request.
    Application(ApplicationError),
}

/// An application handler: turns one decoded request into one response.
///
/// `handle_post` is the handler's own contract: every implementation defines
/// what a completed call guarantees, and [`Network::handle_message`] passes
/// that guarantee through to its caller.
pub trait Handler: Sized {
    /// What a completed `handle` call guarantees, relating the handler state
    /// before (`pre`) and after (`self`) to the request and the result.
    spec fn handle_post(
        &self,
        pre: Self,
        request: RequestModel,
        r: Result<Seq<u8>, ApplicationError>,
    ) -> bool;

    /// Produces the response to `request`, or an application error.
    fn handle(&mut self, request: Request) -> (r: Result<Response, ApplicationError>)
        ensures
            final(self).handle_post(
                *old(self),
                request@,
                match r {
                    Ok(resp) => Ok::<Seq<u8>, ApplicationError>(resp@),
                    Err(e) => Err::<Seq<u8>, ApplicationError>(e),
                },
            ),
    ;
}

/// A handler that answers every request with one fixed response.
pub struct FixedResponder {
    response: Vec<u8>,
}

impl FixedResponder {
    /// A handler that always answers with `response`.
    pub fn new(response: Vec<u8>) -> (r: FixedResponder)
        ensures
            r@ == response@,
    {
        FixedResponder { response }
    }
}

impl View for FixedResponder {
    type V = Seq<u8>;

    closed spec fn view(&self) -> Seq<u8> {
        self.response@
    }
}

impl Handler for FixedResponder {
    open spec fn handle_post(
        &self,
        pre: Self,
        request: RequestModel,
        r: Result<Seq<u8>, ApplicationError>,
    ) -> bool {
        &&& self@ == pre@
        &&& r == Ok::<Seq<u8>, ApplicationError>(pre@)
    }

    fn handle(&mut self, request: Request) -> (r: Result<Response, ApplicationError>) {
        let response = self.response.clone();
        proof {
            assert(response@ =~= self.response@);
        }
        Ok(response)
    }
}

/// A handler that answers every request with the request's own payload;
/// what it echoes back is exactly what the decode step delivered.
pub struct EchoHandler;

impl Handler for EchoHandler {
    open spec fn handle_post(
        &self,
        pre: Self,
        request: RequestModel,
        r: Result<Seq<u8>, ApplicationError>,
    ) -> bool {
        r == Ok::<Seq<u8>, ApplicationError>(request.payload)
    }

    fn handle(&mut self, request: Request) -> (r: Result<Response, ApplicationError>) {
        Ok(vstd::slice::slice_to_vec(request.payload()))
    }
}

/// A client bound to one server address. It amortizes nothing: every call
/// opens a fresh connection, in keeping with the one-request-per-connection
/// protocol.
pub struct Network {
    server_url: String,
}

/// The number of bytes a single read consumes from a stream: everything
/// available, capped by the receive buffer.
pub open spec fn spec_consumed(inbox: Seq<u8>) -> int {
    vstd::math::min(inbox.len() as int, BUFFER_SIZE as int)
}

/// The bytes a single read hands to the decode step: the consumed prefix of
/// the stream, so a message longer than the buffer arrives truncated.
pub open spec fn spec_received(inbox: Seq<u8>) -> Seq<u8> {
    inbox.take(spec_consumed(inbox))
}

impl Network {
    /// A client that will send its requests to the server on `server_url`,
    /// a `host:port` endpoint.
    pub fn new(server_url: &str) -> (r: Network)
        ensures
            r@ == server_url@,
    {
        Network { server_url: server_url.to_owned() }
    }

    /// The address this client sends to.
    pub fn server_url(&self) -> (r: &str)
        ensures
            r@ == self@,
    {
        self.server_url.as_str()
    }

    /// Serves one exchange on `stream`: reads one frame, decodes it, lets
    /// `handler` answer it, writes the response back and flushes.
    ///
    /// A failure at any step aborts only this exchange and is returned for
    /// the caller to log or discard; nothing more is written after a failure.
    pub fn handle_message<S: Stream, H: Handler>(stream: &mut S, handler: &mut H) -> (r: Result<
        (),
        NetworkError,
    >)
        ensures
            match r {
                Ok(()) => {
                    &&& spec_decode(spec_received(old(stream).inbox())) is Ok
                    &&& exists|resp: Seq<u8>|
                        {
                            &&& #[trigger] final(handler).handle_post(
                                *old(handler),
                                spec_decode(spec_received(old(stream).inbox())).unwrap(),
                                Ok::<Seq<u8>, ApplicationError>(resp),
                            )
                            &&& final(stream).outbox() == old(stream).outbox() + resp
                        }
                    &&& final(stream).inbox() == old(stream).inbox().skip(
                        spec_consumed(old(stream).inbox()),
                    )
                },
                Err(NetworkError::Protocol(e)) => {
                    &&& spec_decode(spec_received(old(stream).inbox())) == Err::<
                        RequestModel,
                        ProtocolError,
                    >(e)
                    &&& final(stream).outbox() == old(stream).outbox()
                    &&& *final(handler) == *old(handler)
                },
                Err(NetworkError::Application(e)) => {
                    &&& spec_decode(spec_received(old(stream).inbox())) is Ok
                    &&& final(handler).handle_post(
                        *old(handler),
                        spec_decode(spec_received(old(stream).inbox())).unwrap(),
                        Err::<Seq<u8>, ApplicationError>(e),
                    )
                    &&& final(stream).outbox() == old(stream).outbox()
                },
                Err(NetworkError::Transport(_)) => {
                    ||| {
                        // The read failed: nothing was consumed, nothing was
                        // written, and the handler was never invoked.
                        &&& final(stream).inbox() == old(stream).inbox()
                        &&& final(stream).outbox() == old(stream).outbox()
                        &&& *final(handler) == *old(handler)
                    }
                    ||| {
                        // The write or the flush failed, after the frame was
                        // read, decoded and answered: the outbox holds at most
                        // that one response, and nothing more is written.
                        &&& spec_decode(spec_received(old(stream).inbox())) is Ok
                        &&& final(stream).inbox() == old(stream).inbox().skip(
                            spec_consumed(old(stream).inbox()),
                        )
                        &&& exists|resp: Seq<u8>|
                            {
                                &&& #[trigger] final(handler).handle_post(
                                    *old(handler),
                                    spec_decode(spec_received(old(stream).inbox())).unwrap(),
                                    Ok::<Seq<u8>, ApplicationError>(resp),
                                )
                                &&& (final(stream).outbox() == old(stream).outbox()
                                    || final(stream).outbox() == old(stream).outbox() + resp)
                            }
                    }
                },
            },
    {
        let mut buffer: Vec<u8> = vec![0u8; BUFFER_SIZE];
        let read_size = match stream.read_into(&mut buffer) {
            Ok(n) => n,
            Err(e) => {
                return Err(NetworkError::Transport(e));
            },
        };
        buffer.truncate(read_size);
        proof {
            assert(buffer@ =~= spec_received(old(stream).inbox()));
        }
        let request = match decode(buffer) {
            Ok(request) => request,
            Err(e) => {
                return Err(NetworkError::Protocol(e));
            },
        };
        let response = match handler.handle(request) {
            Ok(response) => response,
            Err(e) => {
                return Err(NetworkError::Application(e));
            },
        };
        let ghost resp_bytes = response@;
        match stream.write_all(response.as_slice()) {
            Ok(()) => {},
            Err(e) => {
                proof {
                    assert(handler.handle_post(
                        *old(handler),
                        spec_decode(spec_received(old(stream).inbox())).unwrap(),
                        Ok::<Seq<u8>, ApplicationError>(resp_bytes),
                    ));
                    assert(stream.outbox() == old(stream).outbox());
                }
                return Err(NetworkError::Transport(e));
            },
        }
        match stream.flush() {
            Ok(()) => {},
            Err(e) => {
                proof {
                    assert(handler.handle_post(
                        *old(handler),
                        spec_decode(spec_received(old(stream).inbox())).unwrap(),
                        Ok::<Seq<u8>, ApplicationError>(resp_bytes),
                    ));
                    assert(stream.outbox() == old(stream).outbox() + resp_bytes);
                }
                return Err(NetworkError::Transport(e));
            },
        }
        proof {
            assert(handler.handle_post(
                *old(handler),
                spec_decode(spec_received(old(stream).inbox())).unwrap(),
                Ok::<Seq<u8>, ApplicationError>(resp_bytes),
            ));
            assert(final(stream).outbox() == old(stream).outbox() + resp_bytes);
        }
        Ok(())
    }

    /// Sends one encoded request over an open stream, flushes, and reads the
    /// response: at most [`crate::BUFFER_SIZE`] bytes, whatever the other end
    /// had sent by then.
    pub fn send_over_stream<S: Stream>(stream: &mut S, request: Request) -> (r: Result<
        Response,
        TransportError,
    >)
        ensures
            match r {
                Ok(resp) => {
                    &&& final(stream).outbox() == old(stream).outbox() + spec_encode(request@)
                    &&& resp@ == spec_received(old(stream).inbox())
                    &&& final(stream).inbox() == old(stream).inbox().skip(
                        spec_consumed(old(stream).inbox()),
                    )
                },
                Err(_) => {
                    // Whichever operation failed, nothing was consumed, and
                    // the outbox holds at most the one encoded frame.
                    &&& final(stream).inbox() == old(stream).inbox()
                    &&& (final(stream).outbox() == old(stream).outbox() || final(stream).outbox()
                        == old(stream).outbox() + spec_encode(request@))
                },
            },
    {
        let frame = encode(request);
        match stream.write_all(frame.as_slice()) {
            Ok(()) => {},
            Err(e) => {
                return Err(e);
            },
        }
        match stream.flush() {
            Ok(()) => {},
            Err(e) => {
                return Err(e);
            },
        }
        let mut buffer: Vec<u8> = vec![0u8; BUFFER_SIZE];
        let read_size = match stream.read_into(&mut buffer) {
            Ok(n) => n,
            Err(e) => {
                return Err(e);
            },
        };
        buffer.truncate(read_size);
        proof {
            assert(buffer@ =~= spec_received(old(stream).inbox()));
        }
        Ok(buffer)
    }
}

impl View for Network {
    type V = Seq<char>;

    closed spec fn view(&self) -> Seq<char> {
        self.server_url@
    }
}

} // verus!
