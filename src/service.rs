use vstd::prelude::*;
use vstd::string::*;

use crate::content::{ContentId, cid_debug_text};
use crate::pending::{PendingQueries, registered, waiting_on};

verus! {

/// The types that the service carries for the surrounding program without
/// looking inside them: the callers' reply sinks, peer identities, requests,
/// responses and gossip messages.
pub trait Wiring {
    /// Receives the outcome of a block query.
    type BlockReply;
    /// Receives a snapshot of the connected peers.
    type PeersReply;
    /// Receives the identifiers that the node started to provide.
    type ProvideReply;
    /// Receives the response to an outbound request.
    type RequestReply;
    /// Receives the acknowledgement of an outbound response.
    type ResponseReply;
    /// A peer identity.
    type Peer;
    /// A request of the request/response protocol.
    type Request;
    /// A response of the request/response protocol.
    type Response;
    /// The identifier of an inbound request.
    type RequestId;
    /// The single-shot channel on which an inbound request is answered.
    type ResponseChannel;
    /// A gossip topic.
    type Topic;
    /// The hash that names a gossip topic inside a message.
    type TopicHash;
}

/// A gossip message: its payload, the topic it was published on, and where
/// it came from.
pub struct GossipsubMessage<N: Wiring> {
    pub source: Option<N::Peer>,
    pub data: Vec<u8>,
    pub sequence_number: Option<u64>,
    pub topic: N::TopicHash,
}

/// How much of a DAG a block query fetches: the block alone, or everything
/// that its links reach.
#[derive(Debug, Clone, Copy, PartialEq, Eq, Structural)]
pub enum BitswapType {
    Get,
    Sync,
}

/// Why a block query failed.
#[derive(Debug)]
pub enum BlockError {
    /// No peer was known to ask, and the block is not held locally.
    NoPeers,
    /// The query ended and the store does not hold the block.
    NotFound(ContentId),
}

/// The text of the error that a caller receives.
pub open spec fn block_error_text(e: BlockError) -> Seq<char> {
    match e {
        BlockError::NoPeers => NO_PEERS_TEXT@,
        BlockError::NotFound(c) => NOT_FOUND_PREFIX@ + cid_debug_text(c@) + NOT_FOUND_SUFFIX@,
    }
}

pub const NO_PEERS_TEXT: &'static str =
    "There were no peers provided and the block does not exist in local store";

pub const NOT_FOUND_PREFIX: &'static str = "The requested block with cid ";

pub const NOT_FOUND_SUFFIX: &'static str = " is not found with any peers";

impl BlockError {
    /// The text of the error.
    pub fn message(&self) -> (r: String)
        ensures
            r@ == block_error_text(*self),
    {
        match self {
            BlockError::NoPeers => String::from_str(NO_PEERS_TEXT),
            BlockError::NotFound(c) => {
                let mut s = String::from_str(NOT_FOUND_PREFIX);
                let t = c.debug_text();
                s.append(t.as_str());
                s.append(NOT_FOUND_SUFFIX);
                s
            },
        }
    }

    /// A copy of the error.
    pub fn duplicate(&self) -> (r: BlockError)
        ensures
            same_error(r, *self),
    {
        match self {
            BlockError::NoPeers => BlockError::NoPeers,
            BlockError::NotFound(c) => BlockError::NotFound(c.duplicate()),
        }
    }
}

/// Two errors of the same kind, about the same identifier.
pub open spec fn same_error(a: BlockError, b: BlockError) -> bool {
    match (a, b) {
        (BlockError::NoPeers, BlockError::NoPeers) => true,
        (BlockError::NotFound(x), BlockError::NotFound(y)) => x@ == y@,
        _ => false,
    }
}

/// The reply owed to a waiter on `k` once its query ended: success exactly
/// when the store holds the block, else "not found" for `k`.
pub open spec fn settled_reply(r: Result<(), BlockError>, k: Seq<u8>, present: bool) -> bool {
    if present {
        r is Ok
    } else {
        match r {
            Err(BlockError::NotFound(c)) => c@ == k,
            _ => false,
        }
    }
}

/// A block request taken with peers to ask is answered exactly once: its
/// caller joins the end of the waiters on the identifier, settling that
/// identifier hands every one of those waiters a reply, the caller's at its
/// own position, and afterwards no waiter on it is left to answer again.
pub proof fn lemma_accepted_request_answered_once<W>(m: Map<Seq<u8>, Seq<W>>, k: Seq<u8>, w: W)
    ensures
        registered(m, k, w).contains_key(k),
        waiting_on(registered(m, k, w), k) == waiting_on(m, k) + 1,
        registered(m, k, w)[k][waiting_on(m, k) as int] == w,
        waiting_on(registered(m, k, w).remove(k), k) == 0,
        forall|x: Seq<u8>|
            x != k ==> waiting_on(#[trigger] registered(m, k, w).remove(k), x) == waiting_on(m, x),
{
    let m1 = registered(m, k, w);
    assert forall|x: Seq<u8>| x != k implies waiting_on(#[trigger] registered(m, k, w).remove(k), x)
        == waiting_on(m, x) by {
        assert(m1.remove(k).contains_key(x) == m.contains_key(x));
    }
}

/// All callers that wait on one identifier get the same outcome when it
/// settles: success for all, or "not found" for that identifier for all.
pub proof fn lemma_waiters_share_outcome(
    a: Result<(), BlockError>,
    b: Result<(), BlockError>,
    k: Seq<u8>,
    present: bool,
)
    requires
        settled_reply(a, k, present),
        settled_reply(b, k, present),
    ensures
        a is Ok <==> b is Ok,
        a is Ok <==> present,
        a is Err ==> same_error(a->Err_0, b->Err_0),
{
}

/// A request of a caller to the service.
pub enum UrsaCommand<N: Wiring> {
    /// Fetch a block (or its whole DAG) from the peers.
    GetBitswap { cid: ContentId, query: BitswapType, sender: N::BlockReply },
    /// Report the connected peers.
    GetPeers { sender: N::PeersReply },
    /// Announce that the node provides these identifiers.
    StartProviding { cids: Vec<ContentId>, sender: N::ProvideReply },
    /// Send a request to a peer.
    SendRequest { peer_id: N::Peer, request: N::Request, channel: N::RequestReply },
    /// Answer an inbound request.
    SendResponse { request_id: N::RequestId, response: N::Response, channel: N::ResponseReply },
    /// Publish a gossip message.
    GossipsubMessage { topic: N::Topic, message: GossipsubMessage<N> },
}

/// The outcome of a finished block-exchange query, as the behaviour reports it.
pub struct BitswapInfo {
    pub cid: ContentId,
    pub query_id: u64,
    pub block_found: bool,
}

/// The reachability of the node, as the NAT probe classifies it.
#[derive(Debug)]
pub enum NatStatus {
    Unknown,
    Private,
    /// Reachable from outside at this address.
    Public(String),
}

/// An event of the composed behaviour, as the service loop receives it.
pub enum BehaviourEvent<N: Wiring> {
    Bitswap(BitswapInfo),
    GossipMessage { peer: N::Peer, topic: N::TopicHash, message: GossipsubMessage<N> },
    RequestMessage { peer: N::Peer, request: N::Request, channel: N::ResponseChannel },
    PeerConnected(N::Peer),
    PeerDisconnected(N::Peer),
    PublishAd { root_cid: ContentId, context_id: Vec<u8>, is_rm: bool },
    NatStatusChanged { before: NatStatus, after: NatStatus },
    RelayReservationOpened { peer_id: N::Peer },
    RelayReservationClosed { peer_id: N::Peer },
    RelayCircuitOpened,
    RelayCircuitClosed,
}

/// An event that the service hands to its subscribers.
pub enum UrsaEvent<N: Wiring> {
    /// A remote peer connected.
    PeerConnected(N::Peer),
    /// A remote peer disconnected.
    PeerDisconnected(N::Peer),
    /// A block-exchange query finished.
    BitswapEvent(BitswapInfo),
    /// A gossip message arrived from a connected peer.
    GossipsubMessage(GossipsubMessage<N>),
    /// A request arrived; `channel` takes the response.
    RequestMessage { request: N::Request, channel: N::ResponseChannel },
}

/// What the service loop is to do after a command.
pub enum CommandAction<N: Wiring> {
    /// Deliver `reply` to `sender`; the swarm is not touched.
    ReplyBlock { sender: N::BlockReply, reply: Result<(), BlockError> },
    /// Start a block-exchange query for `cid` among `peers`.
    QueryBlock { cid: ContentId, query: BitswapType, peers: Vec<N::Peer> },
    /// Nothing: the caller joined the waiters of a query already under way
    /// for the same identifier, and gets its outcome.
    Joined,
    /// Deliver the snapshot of the peers to `sender`.
    ReplyPeers { sender: N::PeersReply, peers: Vec<N::Peer> },
    /// Publish an advertisement for `cids`, then deliver `cids` to `sender`.
    Provide { cids: Vec<ContentId>, sender: N::ProvideReply },
    /// Hand the request to the request/response protocol; `channel` takes the
    /// response when it comes.
    SendRequest { peer_id: N::Peer, request: N::Request, channel: N::RequestReply },
    /// Answering an inbound request through a command is not supported: tell
    /// `channel` so.
    RefuseResponse { channel: N::ResponseReply },
    /// Publish a gossip message; a failure is only worth a warning.
    Publish { topic: N::Topic, message: GossipsubMessage<N> },
}

/// What the service loop is to do after an event of the swarm.
pub enum SwarmAction<N: Wiring> {
    /// Nothing beyond what metrics and logs record.
    Nothing,
    /// Hand the event to the subscribers.
    Emit(UrsaEvent<N>),
    /// Cancel the finished query; no caller waits on its block.
    CancelQuery { query_id: u64 },
    /// Cancel the finished query and settle the callers that wait on `cid`:
    /// first wait for the store to hold the block where `wait_for_block`.
    Settle { query_id: u64, cid: ContentId, wait_for_block: bool },
    /// Listen through a relay: the node found itself behind a NAT.
    AdoptRelay,
    /// Report that the node is reachable from outside at this address.
    PublicAddress(String),
    /// Publish an advertisement for the DAG under `root_cid`.
    PublishAd { root_cid: ContentId, context_id: Vec<u8>, is_rm: bool },
}

/// The state that the service loop keeps between commands and events: the
/// callers that wait on block queries, and whether the relay client is on.
pub struct UrsaService<N: Wiring> {
    pending: PendingQueries<N::BlockReply>,
    relay_client_enabled: bool,
    /// How many block requests have been made for each identifier.
    issued: Ghost<spec_fn(Seq<u8>) -> nat>,
    /// How many replies to block requests have been handed out, by identifier.
    answered: Ghost<spec_fn(Seq<u8>) -> nat>,
    /// How many events of the swarm the service has taken.
    received: Ghost<nat>,
    /// How many events the service has handed to its subscribers.
    emitted: Ghost<nat>,
}

impl<N: Wiring> View for UrsaService<N> {
    type V = Map<Seq<u8>, Seq<N::BlockReply>>;

    /// The callers that wait on each identifier.
    closed spec fn view(&self) -> Map<Seq<u8>, Seq<N::BlockReply>> {
        self.pending@
    }
}

/// `f` with one more at `k`.
pub open spec fn bumped(f: spec_fn(Seq<u8>) -> nat, k: Seq<u8>, n: nat) -> spec_fn(Seq<u8>) -> nat {
    |x: Seq<u8>| if x == k { f(x) + n } else { f(x) }
}

impl<N: Wiring> UrsaService<N> {
    /// The table is well formed, and for each identifier the callers still
    /// waiting are the requests made less the replies handed out.
    pub closed spec fn wf(&self) -> bool {
        &&& self.pending.wf()
        &&& forall|k: Seq<u8>| #[trigger] self.issued@(k) == waiting_on(self.pending@, k) + self.answered@(k)
        &&& self.emitted@ <= self.received@
    }

    /// How many events of the swarm the service has taken.
    pub closed spec fn events_received(&self) -> nat {
        self.received@
    }

    /// How many events the service has handed to its subscribers.
    pub closed spec fn events_emitted(&self) -> nat {
        self.emitted@
    }

    /// Every event handed to the subscribers answers an event of the swarm
    /// taken before it: commands never produce one.
    pub proof fn lemma_emissions_follow_events(&self)
        requires
            self.wf(),
        ensures
            self.events_emitted() <= self.events_received(),
    {
    }

    /// How many block requests have been made for `k`.
    pub closed spec fn issued(&self) -> spec_fn(Seq<u8>) -> nat {
        self.issued@
    }

    /// How many replies to block requests for `k` have been handed out.
    pub closed spec fn answered(&self) -> spec_fn(Seq<u8>) -> nat {
        self.answered@
    }

    /// Whether the relay client is on.
    pub closed spec fn relay_enabled(&self) -> bool {
        self.relay_client_enabled
    }

    /// For each identifier, the callers registered in the table are those
    /// whose block requests have not been answered yet.
    pub proof fn lemma_waiters_balance(&self, k: Seq<u8>)
        requires
            self.wf(),
        ensures
            waiting_on(self@, k) == self.issued()(k) - self.answered()(k),
            self.answered()(k) <= self.issued()(k),
    {
        assert(self.issued@(k) == waiting_on(self.pending@, k) + self.answered@(k));
    }

    /// A service with no caller waiting.
    pub fn new(relay_client_enabled: bool) -> (r: Self)
        ensures
            r.wf(),
            r@ == Map::<Seq<u8>, Seq<N::BlockReply>>::empty(),
            r.relay_enabled() == relay_client_enabled,
            forall|k: Seq<u8>| #[trigger] r.issued()(k) == 0 && r.answered()(k) == 0,
            r.events_received() == 0 && r.events_emitted() == 0,
    {
        UrsaService {
            pending: PendingQueries::new(),
            relay_client_enabled,
            issued: Ghost(|k: Seq<u8>| 0nat),
            answered: Ghost(|k: Seq<u8>| 0nat),
            received: Ghost(0),
            emitted: Ghost(0),
        }
    }

    /// The number of callers waiting on `cid`.
    pub fn waiter_count(&self, cid: &ContentId) -> (r: usize)
        requires
            self.wf(),
        ensures
            r == waiting_on(self@, cid@),
    {
        self.pending.waiter_count(cid)
    }

    /// Whether the relay client is on.
    pub fn is_relay_client_enabled(&self) -> (r: bool)
        ensures
            r == self.relay_enabled(),
    {
        self.relay_client_enabled
    }

    /// Takes a block request: with no peer to ask, the caller is answered at
    /// once with `NoPeers` and the swarm is left alone; else the caller waits
    /// on `cid`, and a query starts among `peers` unless one is already under
    /// way for `cid`: at most one query per identifier is outstanding.
    pub fn get_block(
        &mut self,
        cid: ContentId,
        query: BitswapType,
        sender: N::BlockReply,
        peers: Vec<N::Peer>,
    ) -> (r: CommandAction<N>)
        requires
            old(self).wf(),
        ensures
            final(self).wf(),
            final(self).relay_enabled() == old(self).relay_enabled(),
            final(self).events_received() == old(self).events_received(),
            final(self).events_emitted() == old(self).events_emitted(),
            final(self).issued() == bumped(old(self).issued(), cid@, 1),
            peers@.len() == 0 ==> {
                &&& r == (CommandAction::<N>::ReplyBlock { sender, reply: Err(BlockError::NoPeers) })
                &&& final(self)@ == old(self)@
                &&& final(self).answered() == bumped(old(self).answered(), cid@, 1)
            },
            peers@.len() > 0 ==> {
                &&& final(self)@ == registered(old(self)@, cid@, sender)
                &&& final(self).answered() == old(self).answered()
            },
            peers@.len() > 0 && !old(self)@.contains_key(cid@) ==> {
                &&& r matches CommandAction::QueryBlock { cid: c, query: q, peers: p }
                &&& c@ == cid@ && q == query && p == peers
            },
            peers@.len() > 0 && old(self)@.contains_key(cid@) ==> r == CommandAction::<N>::Joined,
    {
        let ghost k = cid@;
        let ghost i0 = self.issued@;
        let ghost a0 = self.answered@;
        let ghost m0 = self.pending@;
        if peers.len() == 0 {
            self.issued = Ghost(bumped(i0, k, 1));
            self.answered = Ghost(bumped(a0, k, 1));
            proof {
                assert forall|x: Seq<u8>| #[trigger] self.issued@(x) == waiting_on(self.pending@, x)
                    + self.answered@(x) by {
                    assert(i0(x) == waiting_on(m0, x) + a0(x));
                }
            }
            CommandAction::ReplyBlock { sender, reply: Err(BlockError::NoPeers) }
        } else {
            let outstanding = self.pending.contains(&cid);
            let key = cid.duplicate();
            self.pending.register(key, sender);
            self.issued = Ghost(bumped(i0, k, 1));
            proof {
                assert forall|x: Seq<u8>| #[trigger] self.issued@(x) == waiting_on(self.pending@, x)
                    + self.answered@(x) by {
                    assert(i0(x) == waiting_on(m0, x) + a0(x));
                }
            }
            if outstanding {
                CommandAction::Joined
            } else {
                CommandAction::QueryBlock { cid, query, peers }
            }
        }
    }

    /// Takes a command of a caller, given the peers that the swarm knows now,
    /// and says what the loop is to do.
    pub fn handle_command(&mut self, command: UrsaCommand<N>, peers: Vec<N::Peer>) -> (r:
        CommandAction<N>)
        requires
            old(self).wf(),
        ensures
            final(self).wf(),
            final(self).relay_enabled() == old(self).relay_enabled(),
            final(self).events_received() == old(self).events_received(),
            final(self).events_emitted() == old(self).events_emitted(),
            match command {
                UrsaCommand::GetBitswap { cid, query, sender } => {
                    &&& final(self).issued() == bumped(old(self).issued(), cid@, 1)
                    &&& peers@.len() == 0 ==> {
                        &&& r == (CommandAction::<N>::ReplyBlock {
                            sender,
                            reply: Err(BlockError::NoPeers),
                        })
                        &&& final(self)@ == old(self)@
                        &&& final(self).answered() == bumped(old(self).answered(), cid@, 1)
                    }
                    &&& peers@.len() > 0 ==> {
                        &&& final(self)@ == registered(old(self)@, cid@, sender)
                        &&& final(self).answered() == old(self).answered()
                    }
                    &&& peers@.len() > 0 && !old(self)@.contains_key(cid@) ==> {
                        &&& r matches CommandAction::QueryBlock { cid: c, query: q, peers: p }
                        &&& c@ == cid@ && q == query && p == peers
                    }
                    &&& peers@.len() > 0 && old(self)@.contains_key(cid@) ==> r
                        == CommandAction::<N>::Joined
                },
                _ => {
                    &&& final(self)@ == old(self)@
                    &&& final(self).issued() == old(self).issued()
                    &&& final(self).answered() == old(self).answered()
                    &&& match command {
                        UrsaCommand::GetPeers { sender } => r == (CommandAction::<N>::ReplyPeers {
                            sender,
                            peers,
                        }),
                        UrsaCommand::StartProviding { cids, sender } => r == (CommandAction::<
                            N,
                        >::Provide { cids, sender }),
                        UrsaCommand::SendRequest { peer_id, request, channel } => r == (
                        CommandAction::<N>::SendRequest { peer_id, request, channel }),
                        UrsaCommand::SendResponse { channel, .. } => r == (
                        CommandAction::<N>::RefuseResponse { channel }),
                        UrsaCommand::GossipsubMessage { topic, message } => r == (
                        CommandAction::<N>::Publish { topic, message }),
                        _ => true,
                    }
                },
            },
    {
        match command {
            UrsaCommand::GetBitswap { cid, query, sender } => self.get_block(
                cid,
                query,
                sender,
                peers,
            ),
            UrsaCommand::GetPeers { sender } => CommandAction::ReplyPeers { sender, peers },
            UrsaCommand::StartProviding { cids, sender } => CommandAction::Provide { cids, sender },
            UrsaCommand::SendRequest { peer_id, request, channel } => CommandAction::SendRequest {
                peer_id,
                request,
                channel,
            },
            UrsaCommand::SendResponse { request_id: _, response: _, channel } =>
                CommandAction::RefuseResponse { channel },
            UrsaCommand::GossipsubMessage { topic, message } => CommandAction::Publish {
                topic,
                message,
            },
        }
    }
    /// Takes an event of the swarm and says what the loop is to do.
    /// `sender_connected` tells whether the peer that sent a gossip message is
    /// still connected; the other events do not look at it.
    pub fn handle_swarm_event(&mut self, event: BehaviourEvent<N>, sender_connected: bool) -> (r:
        SwarmAction<N>)
        requires
            old(self).wf(),
        ensures
            final(self).wf(),
            final(self)@ == old(self)@,
            final(self).relay_enabled() == old(self).relay_enabled(),
            final(self).issued() == old(self).issued(),
            final(self).answered() == old(self).answered(),
            final(self).events_received() == old(self).events_received() + 1,
            final(self).events_emitted() == old(self).events_emitted() + if r is Emit {
                1nat
            } else {
                0nat
            },
            match event {
                BehaviourEvent::Bitswap(info) => if old(self)@.contains_key(info.cid@) {
                    r == (SwarmAction::<N>::Settle {
                        query_id: info.query_id,
                        cid: info.cid,
                        wait_for_block: info.block_found,
                    })
                } else {
                    r == (SwarmAction::<N>::CancelQuery { query_id: info.query_id })
                },
                BehaviourEvent::GossipMessage { message, .. } => if sender_connected {
                    r == SwarmAction::<N>::Emit(UrsaEvent::GossipsubMessage(message))
                } else {
                    r == SwarmAction::<N>::Nothing
                },
                BehaviourEvent::RequestMessage { request, channel, .. } => r == SwarmAction::<
                    N,
                >::Emit(UrsaEvent::RequestMessage { request, channel }),
                BehaviourEvent::PeerConnected(p) => r == SwarmAction::<N>::Emit(
                    UrsaEvent::PeerConnected(p),
                ),
                BehaviourEvent::PeerDisconnected(p) => r == SwarmAction::<N>::Emit(
                    UrsaEvent::PeerDisconnected(p),
                ),
                BehaviourEvent::PublishAd { root_cid, context_id, is_rm } => r == (
                SwarmAction::<N>::PublishAd { root_cid, context_id, is_rm }),
                BehaviourEvent::NatStatusChanged { before, after } => if before is Unknown
                    && after is Private && old(self).relay_enabled() {
                    r == SwarmAction::<N>::AdoptRelay
                } else if after is Public {
                    r == SwarmAction::<N>::PublicAddress(after->Public_0)
                } else {
                    r == SwarmAction::<N>::Nothing
                },
                _ => r == SwarmAction::<N>::Nothing,
            },
    {
        let action = match event {
            BehaviourEvent::Bitswap(info) => {
                if self.pending.contains(&info.cid) {
                    SwarmAction::Settle {
                        query_id: info.query_id,
                        cid: info.cid,
                        wait_for_block: info.block_found,
                    }
                } else {
                    SwarmAction::CancelQuery { query_id: info.query_id }
                }
            },
            BehaviourEvent::GossipMessage { peer: _, topic: _, message } => {
                if sender_connected {
                    SwarmAction::Emit(UrsaEvent::GossipsubMessage(message))
                } else {
                    SwarmAction::Nothing
                }
            },
            BehaviourEvent::RequestMessage { peer: _, request, channel } => SwarmAction::Emit(
                UrsaEvent::RequestMessage { request, channel },
            ),
            BehaviourEvent::PeerConnected(p) => SwarmAction::Emit(UrsaEvent::PeerConnected(p)),
            BehaviourEvent::PeerDisconnected(p) => SwarmAction::Emit(UrsaEvent::PeerDisconnected(p)),
            BehaviourEvent::PublishAd { root_cid, context_id, is_rm } => SwarmAction::PublishAd {
                root_cid,
                context_id,
                is_rm,
            },
            BehaviourEvent::NatStatusChanged { before, after } => match (before, after) {
                (NatStatus::Unknown, NatStatus::Private) => {
                    if self.relay_client_enabled {
                        SwarmAction::AdoptRelay
                    } else {
                        SwarmAction::Nothing
                    }
                },
                (_, NatStatus::Public(addr)) => SwarmAction::PublicAddress(addr),
                _ => SwarmAction::Nothing,
            },
            _ => SwarmAction::Nothing,
        };
        self.received = Ghost(self.received@ + 1);
        self.emitted = Ghost(
            self.emitted@ + if action is Emit {
                1nat
            } else {
                0nat
            },
        );
        action
    }

    /// Settles the callers that wait on `cid` once its query ended, given
    /// whether the store now holds the block: in the order in which they came,
    /// each gets success where it does and "not found" for `cid` where it does
    /// not, and the entry of `cid` is erased. With no caller waiting, nothing
    /// is handed out.
    pub fn settle(&mut self, cid: &ContentId, present: bool) -> (r: Vec<
        (N::BlockReply, Result<(), BlockError>),
    >)
        requires
            old(self).wf(),
        ensures
            final(self).wf(),
            final(self).relay_enabled() == old(self).relay_enabled(),
            final(self).events_received() == old(self).events_received(),
            final(self).events_emitted() == old(self).events_emitted(),
            final(self)@ == old(self)@.remove(cid@),
            final(self).issued() == old(self).issued(),
            final(self).answered() == bumped(
                old(self).answered(),
                cid@,
                waiting_on(old(self)@, cid@),
            ),
            r@.len() == waiting_on(old(self)@, cid@),
            forall|i: int| 0 <= i < r@.len() ==> (#[trigger] r@[i]).0 == old(self)@[cid@][i],
            forall|i: int| 0 <= i < r@.len() ==> settled_reply((#[trigger] r@[i]).1, cid@, present),
    {
        let ghost k = cid@;
        let ghost i0 = self.issued@;
        let ghost a0 = self.answered@;
        let ghost m0 = self.pending@;
        let mut out: Vec<(N::BlockReply, Result<(), BlockError>)> = Vec::new();
        match self.pending.take(cid) {
            Some(list) => {
                let ghost orig = list@;
                let mut rest = list;
                while rest.len() > 0
                    invariant
                        k == cid@,
                        m0.contains_key(k),
                        orig == m0[k],
                        out@.len() + rest@.len() == orig.len(),
                        rest@ == orig.subrange(out@.len() as int, orig.len() as int),
                        forall|i: int|
                            0 <= i < out@.len() ==> (#[trigger] out@[i]).0 == orig[i]
                                && settled_reply(out@[i].1, k, present),
                    decreases rest@.len(),
                {
                    let ghost before_len = out@.len();
                    let ghost rest0 = rest@;
                    let w = rest.remove(0);
                    assert(w == rest0[0]);
                    assert(rest0[0] == orig[before_len as int]);
                    let reply: Result<(), BlockError> = if present {
                        Ok(())
                    } else {
                        Err(BlockError::NotFound(cid.duplicate()))
                    };
                    assert(settled_reply(reply, k, present));
                    let ghost out0 = out@;
                    out.push((w, reply));
                    assert(rest@ =~= orig.subrange(out@.len() as int, orig.len() as int));
                    assert forall|i: int| 0 <= i < out@.len() implies (#[trigger] out@[i]).0 == orig[i]
                        && settled_reply(out@[i].1, k, present) by {
                        if i < before_len {
                            assert(out@[i] == out0[i]);
                            assert(out0[i].0 == orig[i] && settled_reply(out0[i].1, k, present));
                        }
                    }
                }
                assert(out@.len() == m0[k].len());
                assert forall|i: int| 0 <= i < out@.len() implies (#[trigger] out@[i]).0 == m0[k][i]
                    && settled_reply(out@[i].1, k, present) by {}
            },
            None => {},
        }
        self.answered = Ghost(bumped(a0, k, waiting_on(m0, k)));
        proof {
            assert forall|x: Seq<u8>| #[trigger] self.issued@(x) == waiting_on(self.pending@, x)
                + self.answered@(x) by {
                assert(i0(x) == waiting_on(m0, x) + a0(x));
            }
        }
        out
    }
}

} // verus!
