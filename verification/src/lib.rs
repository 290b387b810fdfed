//! A minimal request/response wire protocol over byte streams, with a
//! peer-discovery protocol built on top of it.
//!
//! The wire format of a request is `uri_path` bytes, a two-byte `\r\n`
//! delimiter, then the raw payload bytes, with no length prefix.

mod codec;
mod network;
mod peer;
mod stream;

pub use codec::decode;
pub use codec::first_line_feed;
pub use codec::lemma_missing_delimiter;
pub use codec::lemma_round_trip;
pub use codec::spec_path_segment;
pub use codec::CARRIAGE_RETURN;
pub use codec::LINE_FEED;
pub use codec::encode;
pub use codec::spec_decode;
pub use codec::spec_encode;
pub use codec::ProtocolError;
pub use codec::Request;
pub use codec::RequestModel;
pub use network::spec_consumed;
pub use network::spec_received;
pub use network::ApplicationError;
pub use network::EchoHandler;
pub use network::FixedResponder;
pub use network::Handler;
pub use network::Network;
pub use network::NetworkError;
pub use network::Response;
pub use peer::is_discovery_route;
pub use peer::spec_contains;
pub use peer::spec_count_byte;
pub use peer::spec_insert;
pub use peer::spec_join_notifications;
pub use peer::spec_route_post;
pub use peer::DiscoveryService;
pub use peer::Outbound;
pub use peer::OutboundModel;
pub use peer::Peer;
pub use peer::PeerModel;
pub use peer::RejectAll;
pub use stream::MemoryStream;
pub use stream::Stream;
pub use stream::TransportError;

use vstd::prelude::*;

verus! {

/// Size in bytes of the receive buffer: a single read is bounded by this, and
/// longer messages are silently truncated to it.
pub const BUFFER_SIZE: usize = 2048;

} // verus!
