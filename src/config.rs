use vstd::prelude::*;
use vstd::string::*;

use crate::behaviour::URSA_GLOBAL;

verus! {

/// The most connections, pending or established, in each direction.
pub const MAX_CONNECTIONS_PER_DIRECTION: u32 = 512;

/// The most established connections to a single peer.
pub const MAX_ESTABLISHED_PER_PEER: u32 = 8;

/// How many addresses of one peer are dialled at once.
pub const DIAL_CONCURRENCY_FACTOR: u8 = 8;

/// The size of the buffers between the swarm and its connection handlers.
pub const EVENT_BUFFER_SIZE: usize = 128;

/// The options of the node that the service reads.
pub struct UrsaConfig {
    /// The address to listen on, in multiaddress text form.
    pub swarm_addr: String,
    /// The addresses of the nodes to dial at start, in multiaddress text form.
    pub bootstrap_nodes: Vec<String>,
    /// Whether to listen through a relay when behind a NAT.
    pub relay_client: bool,
    /// Whether to probe the node's reachability.
    pub autonat: bool,
    /// Whether to discover peers on the local network.
    pub mdns: bool,
}

/// One step of bringing the swarm up.
#[derive(Debug)]
pub enum StartupStep {
    /// Listen on this address; a failure aborts the start.
    Listen(String),
    /// Dial this bootstrap node; a failure aborts the start.
    Dial(String),
    /// Subscribe to this gossip topic; a failure is only worth a warning.
    Subscribe(String),
    /// Start the discovery bootstrap; a failure is only worth a warning.
    Bootstrap,
}

/// The steps that bring the swarm up, in order: listen on the configured
/// address, dial every bootstrap node, subscribe to the global topic, then
/// start the discovery bootstrap.
pub open spec fn startup_plan(swarm_addr: Seq<char>, bootstrap: Seq<Seq<char>>) -> Seq<
    (int, Seq<char>),
> {
    seq![(0int, swarm_addr)] + bootstrap.map_values(|b: Seq<char>| (1int, b)) + seq![
        (2int, URSA_GLOBAL@),
        (3int, Seq::<char>::empty()),
    ]
}

/// The kind and the argument of a step, as `startup_plan` lists them.
pub open spec fn step_view(s: StartupStep) -> (int, Seq<char>) {
    match s {
        StartupStep::Listen(a) => (0, a@),
        StartupStep::Dial(a) => (1, a@),
        StartupStep::Subscribe(t) => (2, t@),
        StartupStep::Bootstrap => (3, Seq::<char>::empty()),
    }
}

/// Whether a failed step aborts bringing the swarm up: listening and dialling
/// a bootstrap node must succeed, while a failed subscription or discovery
/// bootstrap is only worth a warning.
pub fn step_failure_is_fatal(step: &StartupStep) -> (r: bool)
    ensures
        r == (step is Listen || step is Dial),
{
    match step {
        StartupStep::Listen(_) => true,
        StartupStep::Dial(_) => true,
        StartupStep::Subscribe(_) => false,
        StartupStep::Bootstrap => false,
    }
}

/// The relay client learns that the node is behind a NAT only from the
/// reachability probe: without it the relay client is worth an error report.
pub fn relay_without_autonat(config: &UrsaConfig) -> (r: bool)
    ensures
        r == (config.relay_client && !config.autonat),
{
    config.relay_client && !config.autonat
}

/// The steps that bring the swarm up for this configuration.
pub fn startup_steps(config: &UrsaConfig) -> (r: Vec<StartupStep>)
    ensures
        r@.map_values(|s: StartupStep| step_view(s)) == startup_plan(
            config.swarm_addr@,
            config.bootstrap_nodes@.map_values(|b: String| b@),
        ),
{
    let mut steps: Vec<StartupStep> = Vec::new();
    steps.push(StartupStep::Listen(config.swarm_addr.clone()));
    let ghost boot = config.bootstrap_nodes@.map_values(|b: String| b@);
    let mut i: usize = 0;
    while i < config.bootstrap_nodes.len()
        invariant
            0 <= i <= config.bootstrap_nodes@.len(),
            boot == config.bootstrap_nodes@.map_values(|b: String| b@),
            steps@.map_values(|s: StartupStep| step_view(s)) == seq![(0int, config.swarm_addr@)]
                + boot.subrange(0, i as int).map_values(|b: Seq<char>| (1int, b)),
        decreases config.bootstrap_nodes@.len() - i,
    {
        let ghost before = steps@;
        let d = config.bootstrap_nodes[i].clone();
        assert(d@ == boot[i as int]);
        steps.push(StartupStep::Dial(d));
        i = i + 1;
        proof {
            let f = |s: StartupStep| step_view(s);
            let g = |b: Seq<char>| (1int, b);
            assert(steps@ == before.push(StartupStep::Dial(d)));
            assert(steps@.map_values(f) =~= before.map_values(f).push((1int, boot[i - 1])));
            assert(boot.subrange(0, i as int) =~= boot.subrange(0, i - 1).push(boot[i - 1]));
            assert(boot.subrange(0, i as int).map_values(g) =~= boot.subrange(0, i - 1).map_values(
                g,
            ).push((1int, boot[i - 1])));
            assert(steps@.map_values(f) =~= seq![(0int, config.swarm_addr@)] + boot.subrange(
                0,
                i as int,
            ).map_values(g));
        }
    }
    assert(boot.subrange(0, i as int) =~= boot);
    steps.push(StartupStep::Subscribe(String::from_str(URSA_GLOBAL)));
    steps.push(StartupStep::Bootstrap);
    assert(steps@.map_values(|s: StartupStep| step_view(s)) =~= startup_plan(
        config.swarm_addr@,
        boot,
    ));
    steps
}

} // verus!
