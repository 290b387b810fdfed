//! The peer registry and the discovery (join) protocol.
//!
//! A [`Peer`] keeps the set of known peer addresses and answers the three
//! discovery routes of the wire protocol:
//!
//! - `count-peers`: the registry size as a single byte (saturated at 255);
//! - `add-peer`: inserts the address in the payload, idempotently;
//! - `join`: records the requester and produces one `add-peer` notification
//!   for every already-known peer in each direction, so that repeated joins
//!   converge the network toward a full mesh.
//!
//! The notifications are queued, not sent: the server that owns the registry
//! drains them with [`Peer::take_outbound`] after responding, so a slow or
//! failing notification never blocks or fails the join itself. Convergence is
//! eventual and best-effort: a lost notification is not detected or resent.

use vstd::prelude::*;
use vstd::utf8::decode_utf8;
use vstd::utf8::encode_utf8;
use vstd::utf8::encode_utf8_decode_utf8;
use vstd::utf8::valid_utf8;
use vstd::string::StringSliceAdditionalSpecFns;
use vstd::string::StrSliceExecFns;
use vstd::string::StringExecFns;

use crate::codec::Request;
use crate::codec::RequestModel;
use crate::network::ApplicationError;
use crate::network::Handler;
use crate::network::Response;

verus! {

/// One message that the discovery protocol wants sent to another peer.
pub struct Outbound {
    /// The `host:port` address of the peer to send to.
    pub to: String,
    /// The request to send.
    pub request: Request,
    /// True when the send is to happen only after the fixed short settling
    /// delay that avoids a connect race against a freshly opened listener.
    pub delayed: bool,
}

/// The mathematical model of an [`Outbound`] message.
#[verifier::ext_equal]
pub struct OutboundModel {
    pub to: Seq<char>,
    pub request: RequestModel,
    pub delayed: bool,
}

impl View for Outbound {
    type V = OutboundModel;

    open spec fn view(&self) -> OutboundModel {
        OutboundModel { to: self.to@, request: self.request@, delayed: self.delayed }
    }
}

/// The mathematical model of a [`Peer`]: the known addresses, in the order
/// they were first added, and the queued outbound notifications.
#[verifier::ext_equal]
pub struct PeerModel {
    pub peers: Seq<Seq<char>>,
    pub pending: Seq<OutboundModel>,
}

/// A peer's registry of known peer addresses, plus the outbound notifications
/// the discovery protocol has queued and not yet handed out.
pub struct Peer {
    peers: Vec<String>,
    pending: Vec<Outbound>,
}

/// Whether `list` already holds `addr`.
pub open spec fn spec_contains(list: Seq<Seq<char>>, addr: Seq<char>) -> bool {
    exists|i: int| 0 <= i < list.len() && list[i] == addr
}

/// Idempotent insertion: `list` unchanged when it holds `addr`, else `addr`
/// appended.
pub open spec fn spec_insert(list: Seq<Seq<char>>, addr: Seq<char>) -> Seq<Seq<char>> {
    if spec_contains(list, addr) {
        list
    } else {
        list.push(addr)
    }
}

/// A registry size as the single byte of the `count-peers` response,
/// saturated at 255.
pub open spec fn spec_count_byte(n: int) -> u8 {
    if n <= 255 {
        n as u8
    } else {
        255u8
    }
}

/// The notifications a join from `requester` queues, given the `snapshot` of
/// the registry taken when it arrived: for each known peer, an immediate
/// `add-peer(requester)` to that peer, then a delayed `add-peer(peer)` back
/// to the requester.
pub open spec fn spec_join_notifications(snapshot: Seq<Seq<char>>, requester: Seq<char>)
    -> Seq<OutboundModel> {
    Seq::new(
        2 * snapshot.len(),
        |k: int|
            if k % 2 == 0 {
                OutboundModel {
                    to: snapshot[k / 2],
                    request: RequestModel {
                        uri_path: "add-peer"@,
                        payload: encode_utf8(requester),
                    },
                    delayed: false,
                }
            } else {
                OutboundModel {
                    to: requester,
                    request: RequestModel {
                        uri_path: "add-peer"@,
                        payload: encode_utf8(snapshot[k / 2]),
                    },
                    delayed: true,
                }
            },
    )
}

/// Whether `path` is one of the three routes the discovery protocol consumes.
pub open spec fn is_discovery_route(path: Seq<char>) -> bool {
    ||| path == "count-peers"@
    ||| path == "add-peer"@
    ||| path == "join"@
}

/// What handling one request does to a peer: relates the registry before
/// (`pre`) and after (`post`) to the request and the outcome. `r` is `None`
/// exactly when the route is not a discovery route and the request is someone
/// else's to handle.
pub open spec fn spec_route_post(
    pre: PeerModel,
    post: PeerModel,
    request: RequestModel,
    r: Option<Result<Seq<u8>, ApplicationError>>,
) -> bool {
    &&& (r is None <==> !is_discovery_route(request.uri_path))
    &&& (r is None ==> post == pre)
    &&& (request.uri_path == "count-peers"@ ==> {
        &&& post == pre
        &&& r matches Some(Ok(resp)) && resp == seq![spec_count_byte(pre.peers.len() as int)]
    })
    &&& (request.uri_path == "add-peer"@ && valid_utf8(request.payload) ==> {
        &&& post.peers == spec_insert(pre.peers, decode_utf8(request.payload))
        &&& post.pending == pre.pending
        &&& r matches Some(Ok(resp)) && resp == Seq::<u8>::empty()
    })
    &&& (request.uri_path == "join"@ && valid_utf8(request.payload) ==> {
        let requester = decode_utf8(request.payload);
        &&& post.peers == spec_insert(pre.peers, requester)
        &&& post.pending == pre.pending + spec_join_notifications(pre.peers, requester)
        &&& r matches Some(Ok(resp)) && resp == Seq::<u8>::empty()
    })
    &&& (is_discovery_route(request.uri_path) && request.uri_path != "count-peers"@
        && !valid_utf8(request.payload) ==> {
        &&& post == pre
        &&& r matches Some(Err(_))
    })
}

impl View for Peer {
    type V = PeerModel;

    closed spec fn view(&self) -> PeerModel {
        PeerModel {
            peers: self.peers@.map_values(|s: String| s@),
            pending: self.pending@.map_values(|o: Outbound| o@),
        }
    }
}

impl Peer {
    /// Addresses are unique in the registry.
    pub open spec fn wf(&self) -> bool {
        forall|i: int, j: int|
            0 <= i < j < self@.peers.len() ==> self@.peers[i] != self@.peers[j]
    }

    /// An empty registry with nothing queued.
    pub fn new() -> (r: Peer)
        ensures
            r@.peers == Seq::<Seq<char>>::empty(),
            r@.pending == Seq::<OutboundModel>::empty(),
            r.wf(),
    {
        let r = Peer { peers: Vec::new(), pending: Vec::new() };
        proof {
            assert(r@.peers =~= Seq::<Seq<char>>::empty());
            assert(r@.pending =~= Seq::<OutboundModel>::empty());
        }
        r
    }

    /// Whether `address` is already known.
    pub fn contains_peer(&self, address: &str) -> (r: bool)
        ensures
            r == spec_contains(self@.peers, address@),
    {
        let n = self.peers.len();
        let mut i: usize = 0;
        while i < n
            invariant
                i <= n,
                n == self@.peers.len(),
                forall|j: int| 0 <= j < i ==> self@.peers[j] != address@,
            decreases n - i,
        {
            if str_eq(self.peers[i].as_str(), address) {
                proof {
                    assert(self@.peers[i as int] == address@);
                }
                return true;
            }
            i = i + 1;
        }
        false
    }

    /// Inserts `address`, keeping addresses unique: a second insertion of the
    /// same address changes nothing.
    pub fn add_peer(&mut self, address: String)
        ensures
            old(self).wf() ==> final(self).wf(),
            final(self)@.peers == spec_insert(old(self)@.peers, address@),
            final(self)@.pending == old(self)@.pending,
    {
        if !self.contains_peer(address.as_str()) {
            self.peers.push(address);
            proof {
                assert(self@.peers =~= old(self)@.peers.push(address@));
                assert(self@.pending =~= old(self)@.pending);
            }
        }
    }

    /// The registry size as the single `count-peers` response byte, saturated
    /// at 255.
    pub fn count_peers(&self) -> (r: u8)
        ensures
            r == spec_count_byte(self@.peers.len() as int),
    {
        let n = self.peers.len();
        if n <= 255 {
            n as u8
        } else {
            255u8
        }
    }

    /// Hands out every queued outbound notification, leaving the queue empty.
    pub fn take_outbound(&mut self) -> (r: Vec<Outbound>)
        ensures
            r@.map_values(|o: Outbound| o@) == old(self)@.pending,
            final(self)@.pending == Seq::<OutboundModel>::empty(),
            final(self)@.peers == old(self)@.peers,
            old(self).wf() ==> final(self).wf(),
    {
        let mut drained: Vec<Outbound> = Vec::new();
        std::mem::swap(&mut self.pending, &mut drained);
        proof {
            assert(self@.pending =~= Seq::<OutboundModel>::empty());
        }
        drained
    }

    /// First step of joining a network through `bootstrap`: remembers the
    /// bootstrap address locally and produces the `join` request, carrying
    /// this node's own address, that is to be sent to it.
    pub fn join_request(&mut self, own_address: &str, bootstrap: String) -> (r: Outbound)
        ensures
            old(self).wf() ==> final(self).wf(),
            final(self)@.peers == spec_insert(old(self)@.peers, bootstrap@),
            final(self)@.pending == old(self)@.pending,
            r@.to == bootstrap@,
            r@.request.uri_path == "join"@,
            r@.request.payload == encode_utf8(own_address@),
            r@.delayed == false,
    {
        let payload = own_address.as_bytes_vec();
        let request = Request::new(String::from_str("join"), payload);
        let to = bootstrap.clone();
        self.add_peer(bootstrap);
        Outbound { to, request, delayed: false }
    }

    /// Answers a request on one of the discovery routes, updating the
    /// registry and queueing join notifications; hands back `None` when the
    /// route is not a discovery route, for the caller's own handler to take.
    pub fn handle_discovery(&mut self, request: &Request) -> (r: Option<
        Result<Response, ApplicationError>,
    >)
        ensures
            old(self).wf() ==> final(self).wf(),
            ({
                let rr = match r {
                    Some(Ok(resp)) => Some(Ok::<Seq<u8>, ApplicationError>(resp@)),
                    Some(Err(e)) => Some(Err::<Seq<u8>, ApplicationError>(e)),
                    None => None,
                };
                spec_route_post(old(self)@, final(self)@, request@, rr)
            }),
    {
        proof {
            reveal_strlit("count-peers");
            reveal_strlit("add-peer");
            reveal_strlit("join");
            assert("count-peers"@.len() == 11);
            assert("add-peer"@.len() == 8);
            assert("join"@.len() == 4);
            assert("count-peers"@ != "add-peer"@);
            assert("count-peers"@ != "join"@);
            assert("add-peer"@ != "join"@);
        }
        if str_eq(request.url(), "count-peers") {
            let count = self.count_peers();
            let mut resp: Vec<u8> = Vec::new();
            resp.push(count);
            proof {
                assert(resp@ =~= seq![spec_count_byte(self@.peers.len() as int)]);
            }
            Some(Ok(resp))
        } else if str_eq(request.url(), "add-peer") {
            let payload = vstd::slice::slice_to_vec(request.payload());
            match crate::codec::text_of_bytes(payload) {
                Some(address) => {
                    self.add_peer(address);
                    Some(Ok(Vec::new()))
                },
                None => Some(
                    Err(ApplicationError::new(String::from_str("add-peer: address is not text"))),
                ),
            }
        } else if str_eq(request.url(), "join") {
            let payload = vstd::slice::slice_to_vec(request.payload());
            match crate::codec::text_of_bytes(payload) {
                Some(address) => {
                    proof {
                        vstd::utf8::decode_utf8_encode_utf8(request@.payload);
                    }
                    self.queue_join_notifications(&address, request.payload());
                    self.add_peer(address);
                    Some(Ok(Vec::new()))
                },
                None => Some(
                    Err(ApplicationError::new(String::from_str("join: address is not text"))),
                ),
            }
        } else {
            None
        }
    }

    /// Queues the two `add-peer` notifications per known peer that a join
    /// from `requester` owes: `requester_bytes` must be the requester's
    /// address on the wire, and is passed through verbatim as the payload
    /// announced to the known peers.
    fn queue_join_notifications(&mut self, requester: &String, requester_bytes: &[u8])
        requires
            requester_bytes@ == encode_utf8(requester@),
        ensures
            final(self)@.pending == old(self)@.pending + spec_join_notifications(
                old(self)@.peers,
                requester@,
            ),
            final(self)@.peers == old(self)@.peers,
            old(self).wf() ==> final(self).wf(),
    {
        let ghost goal = spec_join_notifications(old(self)@.peers, requester@);
        let n = self.peers.len();
        let mut i: usize = 0;
        while i < n
            invariant
                i <= n,
                n == self@.peers.len(),
                self@.peers == old(self)@.peers,
                requester_bytes@ == encode_utf8(requester@),
                goal == spec_join_notifications(old(self)@.peers, requester@),
                self@.pending == old(self)@.pending + goal.take(2 * i),
                self.peers == old(self).peers,
            decreases n - i,
        {
            let to_peer = Outbound {
                to: self.peers[i].clone(),
                request: Request::new(
                    String::from_str("add-peer"),
                    vstd::slice::slice_to_vec(requester_bytes),
                ),
                delayed: false,
            };
            let ghost sent = to_peer@;
            self.pending.push(to_peer);
            proof {
                assert(goal.len() == 2 * n);
                assert((2 * i) % 2 == 0 && (2 * i) / 2 == i as int);
                assert(sent =~~= goal[2 * i]);
                let prev = old(self)@.pending + goal.take(2 * i);
                let target = old(self)@.pending + goal.take(2 * i + 1);
                assert(self@.pending.len() == prev.len() + 1);
                assert(target.len() == prev.len() + 1);
                assert(self@.pending[prev.len() as int] == sent);
                assert forall|k: int| 0 <= k < target.len() implies self@.pending[k] == target[k] by {
                    if k < prev.len() {
                        assert(self@.pending[k] == prev[k]);
                        assert(prev[k] == target[k]);
                    } else {
                        assert(target[k] == goal[2 * i]);
                    }
                }
                assert(self@.pending =~= target);
            }
            let to_requester = Outbound {
                to: requester.clone(),
                request: Request::new(
                    String::from_str("add-peer"),
                    self.peers[i].as_str().as_bytes_vec(),
                ),
                delayed: true,
            };
            let ghost back = to_requester@;
            self.pending.push(to_requester);
            proof {
                assert((2 * i + 1) % 2 == 1 && (2 * i + 1) / 2 == i as int);
                assert(back =~~= goal[2 * i + 1]);
                let prev = old(self)@.pending + goal.take(2 * i + 1);
                let target = old(self)@.pending + goal.take(2 * (i + 1));
                assert(self@.pending.len() == prev.len() + 1);
                assert(target.len() == prev.len() + 1);
                assert(self@.pending[prev.len() as int] == back);
                assert forall|k: int| 0 <= k < target.len() implies self@.pending[k] == target[k] by {
                    if k < prev.len() {
                        assert(self@.pending[k] == prev[k]);
                        assert(prev[k] == target[k]);
                    } else {
                        assert(target[k] == goal[2 * i + 1]);
                    }
                }
                assert(self@.pending =~= target);
            }
            i = i + 1;
        }
        proof {
            assert(goal.take(2 * n) =~= goal);
        }
    }
}

/// Compares two string slices by their UTF-8 bytes; equal bytes mean equal
/// character sequences, because UTF-8 encoding is injective.
fn str_eq(a: &str, b: &str) -> (r: bool)
    ensures
        r == (a@ == b@),
{
    let ab = a.as_bytes();
    let bb = b.as_bytes();
    proof {
        encode_utf8_decode_utf8(a@);
        encode_utf8_decode_utf8(b@);
    }
    if ab.len() != bb.len() {
        return false;
    }
    let n = ab.len();
    let mut i: usize = 0;
    while i < n
        invariant
            i <= n,
            n == ab@.len(),
            n == bb@.len(),
            ab@ == encode_utf8(a@),
            bb@ == encode_utf8(b@),
            decode_utf8(encode_utf8(a@)) == a@,
            decode_utf8(encode_utf8(b@)) == b@,
            forall|j: int| 0 <= j < i ==> ab@[j] == bb@[j],
        decreases n - i,
    {
        if *vstd::slice::slice_index_get(ab, i) != *vstd::slice::slice_index_get(bb, i) {
            return false;
        }
        i = i + 1;
    }
    proof {
        assert(ab@ =~= bb@);
    }
    true
}

/// The discovery protocol stacked in front of an application handler: the
/// three discovery routes update the peer registry, and any other route is
/// forwarded, with its decoded request, to the inner handler unchanged.
pub struct DiscoveryService<H: Handler> {
    /// The peer registry the discovery routes act on.
    pub peer: Peer,
    /// The application handler that answers every other route.
    pub inner: H,
}

impl<H: Handler> DiscoveryService<H> {
    /// A discovery service over `peer` that forwards unknown routes to
    /// `inner`.
    pub fn new(peer: Peer, inner: H) -> (r: DiscoveryService<H>)
        ensures
            r.peer == peer,
            r.inner == inner,
    {
        DiscoveryService { peer, inner }
    }
}

impl<H: Handler> Handler for DiscoveryService<H> {
    open spec fn handle_post(
        &self,
        pre: Self,
        request: RequestModel,
        r: Result<Seq<u8>, ApplicationError>,
    ) -> bool {
        if is_discovery_route(request.uri_path) {
            &&& spec_route_post(pre.peer@, self.peer@, request, Some(r))
            &&& (pre.peer.wf() ==> self.peer.wf())
            &&& self.inner == pre.inner
        } else {
            &&& self.peer@ == pre.peer@
            &&& self.inner.handle_post(pre.inner, request, r)
        }
    }

    fn handle(&mut self, request: Request) -> (r: Result<Response, ApplicationError>) {
        match self.peer.handle_discovery(&request) {
            Some(result) => result,
            None => self.inner.handle(request),
        }
    }
}

/// The terminal application handler: it recognizes no route and rejects
/// every request with an application error, so a deployment that serves only
/// the discovery routes answers anything else with a connection-scoped
/// failure.
pub struct RejectAll;

impl Handler for RejectAll {
    open spec fn handle_post(
        &self,
        pre: Self,
        request: RequestModel,
        r: Result<Seq<u8>, ApplicationError>,
    ) -> bool {
        r is Err
    }

    fn handle(&mut self, request: Request) -> (r: Result<Response, ApplicationError>) {
        Err(ApplicationError::new(String::from_str("unrecognized route")))
    }
}

} // verus!
