//! The networking core of a content-addressed peer-to-peer node: the table of
//! block queries that callers wait on, the normalization of the sub-protocols'
//! events, and the decisions that the service loop takes on each command and
//! on each event of the swarm.
mod advert;
mod behaviour;
mod config;
mod content;
mod pending;
mod presence;
mod relay;
mod service;

pub use advert::{AdvertStep, INDEXER_INGEST_TOPIC, advertisement_steps, chunk_entries};
pub use behaviour::{
    Behaviour, BitswapEvent, MESSAGE_PROTOCOL, PROTOCOL_NAME, QueryRecord, RequestResponseEvent,
    URSA_GLOBAL,
};
pub use config::{
    DIAL_CONCURRENCY_FACTOR, EVENT_BUFFER_SIZE, MAX_CONNECTIONS_PER_DIRECTION,
    MAX_ESTABLISHED_PER_PEER, StartupStep, UrsaConfig, relay_without_autonat, startup_steps,
    step_failure_is_fatal,
};
pub use content::{ContentId, payload_is_cid};
pub use pending::PendingQueries;
pub use presence::{PRESENCE_TIMEOUT_MS, PresenceStep, presence_step};
pub use relay::{RelayCandidate, relay_address_at, relay_listen_address};
pub use service::{
    BehaviourEvent, BitswapInfo, BitswapType, BlockError, CommandAction, GossipsubMessage,
    NatStatus, SwarmAction, UrsaCommand, UrsaEvent, UrsaService, Wiring,
};
