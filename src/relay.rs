use vstd::prelude::*;
use vstd::string::*;

verus! {

/// The address segment that names the relay's peer.
pub const P2P_SEGMENT: &'static str = "/p2p/";

/// The address segment that asks for a circuit through the relay.
pub const CIRCUIT_SEGMENT: &'static str = "/p2p-circuit";

/// The listen address, in text form, that reaches this node through the relay
/// at `addr` whose peer identity is `peer`:
/// `<relay_addr>/p2p/<relay_peer>/p2p-circuit`.
pub open spec fn circuit_address(addr: Seq<char>, peer: Seq<char>) -> Seq<char> {
    addr + P2P_SEGMENT@ + peer + CIRCUIT_SEGMENT@
}

/// A bootstrap node that may serve as a relay: its peer identity and its
/// address, both in text form.
pub struct RelayCandidate {
    pub peer: String,
    pub addr: String,
}

/// Relies on `rand::thread_rng` and `rand::Rng::gen_range`: a number below
/// `n`, drawn uniformly; `gen_range` panics on an empty range, which `n > 0`
/// rules out.
#[verifier::external_body]
fn random_below(n: usize) -> (r: usize)
    requires
        n > 0,
    ensures
        r < n,
{
    rand::Rng::gen_range(&mut rand::thread_rng(), 0..n)
}

/// The listen address through the candidate at `index`.
pub fn relay_address_at(candidates: &Vec<RelayCandidate>, index: usize) -> (r: String)
    requires
        index < candidates@.len(),
    ensures
        r@ == circuit_address(candidates@[index as int].addr@, candidates@[index as int].peer@),
{
    let c = &candidates[index];
    let mut s = c.addr.clone();
    s.append(P2P_SEGMENT);
    s.append(c.peer.as_str());
    s.append(CIRCUIT_SEGMENT);
    s
}

/// The listen address through one of the candidates, picked uniformly at
/// random; `None` where there is no candidate.
pub fn relay_listen_address(candidates: &Vec<RelayCandidate>) -> (r: Option<String>)
    ensures
        r is None <==> candidates@.len() == 0,
        r is Some ==> exists|i: int|
            0 <= i < candidates@.len() && r->0@ == circuit_address(
                #[trigger] candidates@[i].addr@,
                candidates@[i].peer@,
            ),
{
    if candidates.len() == 0 {
        None
    } else {
        let i = random_below(candidates.len());
        let a = relay_address_at(candidates, i);
        assert(a@ == circuit_address(candidates@[i as int].addr@, candidates@[i as int].peer@));
        Some(a)
    }
}

} // verus!
