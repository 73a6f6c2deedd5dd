use vstd::prelude::*;
use vstd::hash_map::HashMapWithView;
use vstd::string::*;

use crate::content::{ContentId, cid_parses, payload_is_cid};
use crate::service::{BehaviourEvent, BitswapInfo, GossipsubMessage, Wiring};

verus! {

broadcast use vstd::std_specs::hash::group_hash_axioms;

/// The protocol name that the nodes of this network advertise.
pub const PROTOCOL_NAME: &'static str = "/ursa/0.0.1";

/// The protocol name of the request/response protocol.
pub const MESSAGE_PROTOCOL: &'static str = "/ursa/message/0.0.1";

/// The gossip topic that every node subscribes to.
pub const URSA_GLOBAL: &'static str = "/ursa/global";

/// An event of the block-exchange protocol.
pub enum BitswapEvent {
    /// A block of the query arrived; the count is of the blocks still missing.
    Progress(u64, usize),
    /// The query ended; the flag says whether it succeeded.
    Complete(u64, bool),
}

/// An event of the request/response protocol.
pub enum RequestResponseEvent<N: Wiring> {
    /// A peer sent a request; `channel` takes the response.
    Request { peer: N::Peer, request: N::Request, channel: N::ResponseChannel },
    /// A response to one of this node's requests arrived.
    Response { request_id: N::RequestId, response: N::Response },
    /// A request of this node failed.
    OutboundFailure { request_id: N::RequestId },
    /// A response of this node could not be sent.
    InboundFailure { request_id: N::RequestId },
    /// A response of this node was sent.
    ResponseSent { request_id: N::RequestId },
}

/// A block-exchange query that the behaviour started and has not seen end.
pub struct QueryRecord {
    pub cid: ContentId,
    /// The blocks known to be missing, as the last progress report gave it.
    pub missing: usize,
}

/// Whether one of the protocols that a peer advertises is this network's.
pub open spec fn advertises_ursa(protocols: Seq<String>) -> bool {
    exists|i: int| 0 <= i < protocols.len() && (#[trigger] protocols[i])@ == PROTOCOL_NAME@
}

/// The composition of the sub-protocols, as far as the service sees it: the
/// block-exchange queries in flight, and the queue of normalized events that
/// the swarm polls.
pub struct Behaviour<N: Wiring> {
    events: Vec<BehaviourEvent<N>>,
    queries: HashMapWithView<u64, QueryRecord>,
}

impl<N: Wiring> Behaviour<N> {
    /// The events waiting to be polled, oldest first.
    pub closed spec fn queued(&self) -> Seq<BehaviourEvent<N>> {
        self.events@
    }

    /// The queries in flight, by query id.
    pub closed spec fn in_flight(&self) -> Map<u64, QueryRecord> {
        self.queries@
    }

    /// A behaviour with no query in flight and no event queued.
    pub fn new() -> (r: Self)
        ensures
            r.queued() == Seq::<BehaviourEvent<N>>::empty(),
            r.in_flight() == Map::<u64, QueryRecord>::empty(),
    {
        Behaviour { events: Vec::new(), queries: HashMapWithView::new() }
    }

    /// Records that query `query_id` fetches `cid`.
    pub fn start_query(&mut self, query_id: u64, cid: ContentId)
        ensures
            final(self).queued() == old(self).queued(),
            final(self).in_flight() == old(self).in_flight().insert(
                query_id,
                QueryRecord { cid, missing: 0 },
            ),
    {
        self.queries.insert(query_id, QueryRecord { cid, missing: 0 });
    }

    /// Appends an event to the queue.
    pub fn push_event(&mut self, event: BehaviourEvent<N>)
        ensures
            final(self).queued() == old(self).queued().push(event),
            final(self).in_flight() == old(self).in_flight(),
    {
        self.events.push(event);
    }

    /// Takes a block-exchange event: progress updates the count of missing
    /// blocks of a known query; the end of a known query is forgotten and
    /// queued as the outcome for its identifier. Events of unknown queries
    /// are dropped.
    pub fn handle_bitswap(&mut self, event: BitswapEvent)
        ensures
            match event {
                BitswapEvent::Progress(q, n) => {
                    &&& final(self).queued() == old(self).queued()
                    &&& old(self).in_flight().contains_key(q) ==> final(self).in_flight()
                        == old(self).in_flight().insert(
                        q,
                        QueryRecord { cid: old(self).in_flight()[q].cid, missing: n },
                    )
                    &&& !old(self).in_flight().contains_key(q) ==> final(self).in_flight()
                        == old(self).in_flight()
                },
                BitswapEvent::Complete(q, ok) => {
                    &&& final(self).in_flight() == old(self).in_flight().remove(q)
                    &&& old(self).in_flight().contains_key(q) ==> {
                        &&& final(self).queued().len() == old(self).queued().len() + 1
                        &&& final(self).queued().drop_last() == old(self).queued()
                        &&& final(self).queued().last() matches BehaviourEvent::Bitswap(info)
                        &&& info.cid == old(self).in_flight()[q].cid
                        &&& info.query_id == q
                        &&& info.block_found == ok
                    }
                    &&& !old(self).in_flight().contains_key(q) ==> final(self).queued()
                        == old(self).queued()
                },
            },
    {
        match event {
            BitswapEvent::Progress(q, n) => {
                match self.queries.remove(&q) {
                    Some(rec) => {
                        self.queries.insert(q, QueryRecord { cid: rec.cid, missing: n });
                        assert(self.queries@ =~= old(self).queries@.insert(
                            q,
                            QueryRecord { cid: old(self).queries@[q].cid, missing: n },
                        ));
                    },
                    None => {},
                }
            },
            BitswapEvent::Complete(q, ok) => {
                match self.queries.remove(&q) {
                    Some(rec) => {
                        let ghost e0 = self.events@;
                        self.events.push(
                            BehaviourEvent::Bitswap(
                                BitswapInfo { cid: rec.cid, query_id: q, block_found: ok },
                            ),
                        );
                        assert(self.events@.drop_last() =~= e0);
                    },
                    None => {
                        assert(self.queries@ =~= old(self).queries@.remove(q));
                    },
                }
            },
        }
    }

    /// Decides whether a peer that identified itself with these protocols belongs
    /// to this network: then it becomes an explicit gossip peer and its listen
    /// addresses go to discovery and to the request/response protocol.
    pub fn handle_identify(&self, protocols: &Vec<String>) -> (r: bool)
        ensures
            r == advertises_ursa(protocols@),
    {
        let name = String::from_str(PROTOCOL_NAME);
        let mut i: usize = 0;
        while i < protocols.len()
            invariant
                name@ == PROTOCOL_NAME@,
                0 <= i <= protocols@.len(),
                forall|j: int| 0 <= j < i ==> (#[trigger] protocols@[j])@ != PROTOCOL_NAME@,
            decreases protocols@.len() - i,
        {
            if protocols[i] == name {
                assert(protocols@[i as int]@ == PROTOCOL_NAME@);
                return true;
            }
            i = i + 1;
        }
        false
    }

    /// Takes a gossip message: it is queued when its payload reads as a
    /// content identifier, and dropped otherwise.
    pub fn handle_gossipsub(&mut self, peer: N::Peer, topic: N::TopicHash, message: GossipsubMessage<N>)
        ensures
            final(self).in_flight() == old(self).in_flight(),
            cid_parses(message.data@) ==> final(self).queued() == old(self).queued().push(
                BehaviourEvent::GossipMessage { peer, topic, message },
            ),
            !cid_parses(message.data@) ==> final(self).queued() == old(self).queued(),
    {
        if payload_is_cid(&message.data) {
            self.events.push(BehaviourEvent::GossipMessage { peer, topic, message });
        }
    }

    /// Takes an event of the request/response protocol: an inbound request is
    /// queued with its response channel; the outcomes of this node's own
    /// requests reach their callers through the protocol and queue nothing.
    pub fn handle_request_response(&mut self, event: RequestResponseEvent<N>)
        ensures
            final(self).in_flight() == old(self).in_flight(),
            match event {
                RequestResponseEvent::Request { peer, request, channel } => final(self).queued()
                    == old(self).queued().push(
                    BehaviourEvent::RequestMessage { peer, request, channel },
                ),
                _ => final(self).queued() == old(self).queued(),
            },
    {
        match event {
            RequestResponseEvent::Request { peer, request, channel } => {
                self.events.push(BehaviourEvent::RequestMessage { peer, request, channel });
            },
            _ => {},
        }
    }

    /// The oldest queued event, taken off the queue.
    pub fn poll(&mut self) -> (r: Option<BehaviourEvent<N>>)
        ensures
            final(self).in_flight() == old(self).in_flight(),
            old(self).queued().len() == 0 ==> r is None && final(self).queued()
                == old(self).queued(),
            old(self).queued().len() > 0 ==> r == Some(old(self).queued()[0])
                && final(self).queued() == old(self).queued().drop_first(),
    {
        if self.events.len() == 0 {
            None
        } else {
            let e = self.events.remove(0);
            assert(self.events@ =~= old(self).events@.drop_first());
            Some(e)
        }
    }
}

} // verus!
