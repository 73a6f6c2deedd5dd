use std::str::FromStr;

use ursa_network::{
    BehaviourEvent, BitswapInfo, BitswapType, BlockError, CommandAction, ContentId,
    GossipsubMessage, NatStatus, SwarmAction, UrsaCommand, UrsaEvent, UrsaService, Wiring,
};

struct Plain;

impl Wiring for Plain {
    type BlockReply = u32;
    type PeersReply = u32;
    type ProvideReply = u32;
    type RequestReply = u32;
    type ResponseReply = u32;
    type Peer = &'static str;
    type Request = String;
    type Response = String;
    type RequestId = u64;
    type ResponseChannel = u32;
    type Topic = String;
    type TopicHash = String;
}

const KNOWN: &str = "bafkreif2opfibjypwkjzzry3jbibcjqcjwnpoqpeiqw75eu3s3u3zbdszq";

fn known_cid() -> cid::Cid {
    cid::Cid::from_str(KNOWN).unwrap()
}

fn known() -> ContentId {
    ContentId::from_bytes(known_cid().to_bytes()).unwrap()
}

fn other() -> ContentId {
    let c = cid::Cid::new_v1(0x71, *known_cid().hash());
    ContentId::from_bytes(c.to_bytes()).unwrap()
}

fn message(data: Vec<u8>) -> GossipsubMessage<Plain> {
    GossipsubMessage {
        source: None,
        data,
        sequence_number: Some(1),
        topic: "/ursa/global".to_string(),
    }
}

#[test]
fn get_block_without_peers_fails_at_once() {
    let mut service = UrsaService::<Plain>::new(false);
    let action = service.get_block(known(), BitswapType::Get, 1, Vec::new());
    match action {
        CommandAction::ReplyBlock { sender, reply } => {
            assert_eq!(sender, 1);
            match reply {
                Err(e) => assert_eq!(
                    e.message(),
                    "There were no peers provided and the block does not exist in local store"
                ),
                Ok(()) => panic!("no peers must fail"),
            }
        }
        _ => panic!("no query may start without peers"),
    }
    assert_eq!(service.waiter_count(&known()), 0);
}

#[test]
fn get_block_with_peers_registers_and_queries() {
    let mut service = UrsaService::<Plain>::new(false);
    let action = service.get_block(known(), BitswapType::Sync, 4, vec!["a", "b"]);
    match action {
        CommandAction::QueryBlock { cid, query, peers } => {
            assert!(cid == known());
            assert_eq!(query, BitswapType::Sync);
            assert_eq!(peers, vec!["a", "b"]);
        }
        _ => panic!("a query must start"),
    }
    assert_eq!(service.waiter_count(&known()), 1);
    assert_eq!(service.waiter_count(&other()), 0);
}

#[test]
fn not_found_reaches_every_waiter() {
    let mut service = UrsaService::<Plain>::new(false);
    for w in [10u32, 11, 12] {
        service.get_block(known(), BitswapType::Get, w, vec!["a"]);
    }
    service.get_block(other(), BitswapType::Get, 20, vec!["a"]);
    let replies = service.settle(&known(), false);
    let expected = format!(
        "The requested block with cid {:?} is not found with any peers",
        known_cid()
    );
    assert_eq!(replies.len(), 3);
    for (i, (sender, reply)) in replies.iter().enumerate() {
        assert_eq!(*sender, 10 + i as u32);
        match reply {
            Err(e) => {
                let text = e.message();
                assert_eq!(text, expected);
                assert!(text.contains(KNOWN));
                assert!(text.contains("not found"));
            }
            Ok(()) => panic!("an absent block must fail"),
        }
    }
    assert_eq!(service.waiter_count(&known()), 0);
    assert_eq!(service.waiter_count(&other()), 1);
}

#[test]
fn present_block_succeeds_for_all_waiters() {
    let mut service = UrsaService::<Plain>::new(false);
    service.get_block(known(), BitswapType::Get, 1, vec!["a"]);
    service.get_block(known(), BitswapType::Get, 2, vec!["b"]);
    let replies = service.settle(&known(), true);
    assert_eq!(replies.len(), 2);
    assert_eq!(replies[0].0, 1);
    assert_eq!(replies[1].0, 2);
    assert!(replies.iter().all(|(_, r)| r.is_ok()));
    assert!(service.settle(&known(), true).is_empty());
}

#[test]
fn settle_without_waiters_hands_out_nothing() {
    let mut service = UrsaService::<Plain>::new(false);
    assert!(service.settle(&known(), true).is_empty());
    assert!(service.settle(&known(), false).is_empty());
}

#[test]
fn completion_without_waiter_only_cancels() {
    let mut service = UrsaService::<Plain>::new(false);
    let event = BehaviourEvent::Bitswap(BitswapInfo {
        cid: known(),
        query_id: 7,
        block_found: true,
    });
    match service.handle_swarm_event(event, false) {
        SwarmAction::CancelQuery { query_id } => assert_eq!(query_id, 7),
        _ => panic!("with no waiter the outcome is dropped"),
    }
    assert_eq!(service.waiter_count(&known()), 0);
}

#[test]
fn completion_with_waiter_settles() {
    let mut service = UrsaService::<Plain>::new(false);
    service.get_block(known(), BitswapType::Get, 1, vec!["a"]);
    let found = BehaviourEvent::Bitswap(BitswapInfo {
        cid: known(),
        query_id: 3,
        block_found: true,
    });
    match service.handle_swarm_event(found, false) {
        SwarmAction::Settle { query_id, cid, wait_for_block } => {
            assert_eq!(query_id, 3);
            assert!(cid == known());
            assert!(wait_for_block);
        }
        _ => panic!("the waiter must be settled"),
    }
    let missing = BehaviourEvent::Bitswap(BitswapInfo {
        cid: known(),
        query_id: 4,
        block_found: false,
    });
    match service.handle_swarm_event(missing, false) {
        SwarmAction::Settle { wait_for_block, .. } => assert!(!wait_for_block),
        _ => panic!("the waiter must be settled"),
    }
    assert_eq!(service.waiter_count(&known()), 1);
}

#[test]
fn gossip_from_connected_peer_is_forwarded() {
    let mut service = UrsaService::<Plain>::new(false);
    let event = BehaviourEvent::GossipMessage {
        peer: "n1",
        topic: "/ursa/global".to_string(),
        message: message(vec![1]),
    };
    match service.handle_swarm_event(event, true) {
        SwarmAction::Emit(UrsaEvent::GossipsubMessage(m)) => assert_eq!(m.data, vec![1]),
        _ => panic!("the message must be forwarded"),
    }
}

#[test]
fn gossip_from_departed_peer_is_dropped() {
    let mut service = UrsaService::<Plain>::new(false);
    let event = BehaviourEvent::GossipMessage {
        peer: "n1",
        topic: "/ursa/global".to_string(),
        message: message(vec![1]),
    };
    assert!(matches!(service.handle_swarm_event(event, false), SwarmAction::Nothing));
}

#[test]
fn requests_and_peer_changes_are_forwarded() {
    let mut service = UrsaService::<Plain>::new(false);
    let request = BehaviourEvent::RequestMessage {
        peer: "n2",
        request: "Qm".to_string(),
        channel: 5,
    };
    match service.handle_swarm_event(request, false) {
        SwarmAction::Emit(UrsaEvent::RequestMessage { request, channel }) => {
            assert_eq!(request, "Qm");
            assert_eq!(channel, 5);
        }
        _ => panic!("the request must be forwarded"),
    }
    assert!(matches!(
        service.handle_swarm_event(BehaviourEvent::PeerConnected("n3"), false),
        SwarmAction::Emit(UrsaEvent::PeerConnected("n3"))
    ));
    assert!(matches!(
        service.handle_swarm_event(BehaviourEvent::PeerDisconnected("n3"), false),
        SwarmAction::Emit(UrsaEvent::PeerDisconnected("n3"))
    ));
    assert!(matches!(
        service.handle_swarm_event(BehaviourEvent::RelayCircuitOpened, false),
        SwarmAction::Nothing
    ));
    assert!(matches!(
        service.handle_swarm_event(BehaviourEvent::RelayReservationOpened { peer_id: "r" }, false),
        SwarmAction::Nothing
    ));
}

#[test]
fn private_nat_adopts_relay_when_enabled() {
    let mut service = UrsaService::<Plain>::new(true);
    let event = BehaviourEvent::NatStatusChanged {
        before: NatStatus::Unknown,
        after: NatStatus::Private,
    };
    assert!(matches!(service.handle_swarm_event(event, false), SwarmAction::AdoptRelay));
}

#[test]
fn private_nat_without_relay_client_does_nothing() {
    let mut service = UrsaService::<Plain>::new(false);
    let event = BehaviourEvent::NatStatusChanged {
        before: NatStatus::Unknown,
        after: NatStatus::Private,
    };
    assert!(matches!(service.handle_swarm_event(event, false), SwarmAction::Nothing));
}

#[test]
fn public_nat_reports_address() {
    let mut service = UrsaService::<Plain>::new(true);
    let public = BehaviourEvent::NatStatusChanged {
        before: NatStatus::Unknown,
        after: NatStatus::Public("/ip4/1.2.3.4/tcp/6009".to_string()),
    };
    match service.handle_swarm_event(public, false) {
        SwarmAction::PublicAddress(addr) => assert_eq!(addr, "/ip4/1.2.3.4/tcp/6009"),
        _ => panic!("the public address must be reported"),
    }
}

#[test]
fn other_nat_transitions_do_nothing() {
    let mut service = UrsaService::<Plain>::new(true);
    let back = BehaviourEvent::NatStatusChanged {
        before: NatStatus::Private,
        after: NatStatus::Private,
    };
    assert!(matches!(service.handle_swarm_event(back, false), SwarmAction::Nothing));
    let lost = BehaviourEvent::NatStatusChanged {
        before: NatStatus::Private,
        after: NatStatus::Unknown,
    };
    assert!(matches!(service.handle_swarm_event(lost, false), SwarmAction::Nothing));
}

#[test]
fn advertisement_request_is_passed_on() {
    let mut service = UrsaService::<Plain>::new(false);
    let event = BehaviourEvent::PublishAd {
        root_cid: known(),
        context_id: vec![9, 9],
        is_rm: true,
    };
    match service.handle_swarm_event(event, false) {
        SwarmAction::PublishAd { root_cid, context_id, is_rm } => {
            assert!(root_cid == known());
            assert_eq!(context_id, vec![9, 9]);
            assert!(is_rm);
        }
        _ => panic!("the advertisement must be published"),
    }
}

#[test]
fn commands_are_routed() {
    let mut service = UrsaService::<Plain>::new(false);
    let get = UrsaCommand::GetBitswap { cid: known(), query: BitswapType::Get, sender: 1 };
    assert!(matches!(
        service.handle_command(get, Vec::new()),
        CommandAction::ReplyBlock { sender: 1, reply: Err(BlockError::NoPeers) }
    ));
    let get = UrsaCommand::GetBitswap { cid: known(), query: BitswapType::Get, sender: 2 };
    assert!(matches!(
        service.handle_command(get, vec!["a"]),
        CommandAction::QueryBlock { query: BitswapType::Get, .. }
    ));
    assert_eq!(service.waiter_count(&known()), 1);
    match service.handle_command(UrsaCommand::GetPeers { sender: 3 }, vec!["a", "b"]) {
        CommandAction::ReplyPeers { sender, peers } => {
            assert_eq!(sender, 3);
            assert_eq!(peers, vec!["a", "b"]);
        }
        _ => panic!("the peers must be reported"),
    }
    match service.handle_command(
        UrsaCommand::StartProviding { cids: vec![known(), other()], sender: 4 },
        Vec::new(),
    ) {
        CommandAction::Provide { cids, sender } => {
            assert_eq!(sender, 4);
            assert_eq!(cids.len(), 2);
            assert!(cids[0] == known() && cids[1] == other());
        }
        _ => panic!("providing must be started"),
    }
    let send = UrsaCommand::SendRequest {
        peer_id: "n2",
        request: "Qm".to_string(),
        channel: 5,
    };
    assert!(matches!(
        service.handle_command(send, Vec::new()),
        CommandAction::SendRequest { peer_id: "n2", channel: 5, .. }
    ));
    let respond = UrsaCommand::SendResponse {
        request_id: 1,
        response: "ok".to_string(),
        channel: 6,
    };
    assert!(matches!(
        service.handle_command(respond, Vec::new()),
        CommandAction::RefuseResponse { channel: 6 }
    ));
    let publish = UrsaCommand::GossipsubMessage {
        topic: "/ursa/global".to_string(),
        message: message(vec![1]),
    };
    match service.handle_command(publish, Vec::new()) {
        CommandAction::Publish { topic, message } => {
            assert_eq!(topic, "/ursa/global");
            assert_eq!(message.data, vec![1]);
        }
        _ => panic!("the message must be published"),
    }
    assert_eq!(service.waiter_count(&known()), 1);
}

#[test]
fn relay_setting_is_kept() {
    assert!(UrsaService::<Plain>::new(true).is_relay_client_enabled());
    assert!(!UrsaService::<Plain>::new(false).is_relay_client_enabled());
}

#[test]
fn block_errors_copy() {
    let e = BlockError::NotFound(known());
    assert_eq!(e.duplicate().message(), e.message());
    assert_eq!(BlockError::NoPeers.duplicate().message(), BlockError::NoPeers.message());
}

#[test]
fn repeated_requests_share_outcome() {
    let mut service = UrsaService::<Plain>::new(false);
    let first = service.get_block(known(), BitswapType::Get, 1, vec!["a"]);
    assert!(matches!(first, CommandAction::QueryBlock { .. }));
    let second = service.get_block(known(), BitswapType::Get, 2, vec!["a"]);
    assert!(matches!(second, CommandAction::Joined));
    let third = service.handle_command(
        UrsaCommand::GetBitswap { cid: known(), query: BitswapType::Sync, sender: 3 },
        vec!["b"],
    );
    assert!(matches!(third, CommandAction::Joined));
    assert_eq!(service.waiter_count(&known()), 3);
    let found = BehaviourEvent::Bitswap(BitswapInfo {
        cid: known(),
        query_id: 1,
        block_found: true,
    });
    assert!(matches!(service.handle_swarm_event(found, false), SwarmAction::Settle { .. }));
    let replies = service.settle(&known(), true);
    assert_eq!(replies.len(), 3);
    assert!(replies.iter().all(|(_, r)| r.is_ok()));
    let again = service.get_block(known(), BitswapType::Get, 4, vec!["a"]);
    assert!(matches!(again, CommandAction::QueryBlock { .. }));
}
