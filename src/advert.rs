use vstd::prelude::*;
use vstd::string::*;

use crate::content::ContentId;

verus! {

broadcast use vstd::seq_lib::group_seq_properties;

/// The contents of each chunk, in order.
pub open spec fn chunk_views<T>(chunks: Seq<Vec<T>>) -> Seq<Seq<T>> {
    chunks.map_values(|c: Vec<T>| c@)
}

/// `chunks` cut `entries` into pieces of `max` entries each, in order, with
/// only the last piece shorter, and none empty.
pub open spec fn is_chunking<T>(chunks: Seq<Vec<T>>, entries: Seq<T>, max: nat) -> bool {
    &&& chunk_views(chunks).flatten() == entries
    &&& forall|i: int| 0 <= i < chunks.len() ==> 0 < (#[trigger] chunks[i])@.len() <= max
    &&& forall|i: int| 0 <= i < chunks.len() - 1 ==> (#[trigger] chunks[i])@.len() == max
}

/// Cuts the entries of an advertisement into the chunks that the index
/// provider takes one at a time: at most `max` entries each, in order.
pub fn chunk_entries<T>(entries: Vec<T>, max: usize) -> (r: Vec<Vec<T>>)
    requires
        max > 0,
    ensures
        is_chunking(r@, entries@, max as nat),
{
    let ghost all = entries@;
    let mut out: Vec<Vec<T>> = Vec::new();
    let mut cur: Vec<T> = Vec::new();
    let mut rest = entries;
    while rest.len() > 0
        invariant
            max > 0,
            chunk_views(out@).flatten() + cur@ + rest@ == all,
            cur@.len() < max,
            forall|i: int| 0 <= i < out@.len() ==> (#[trigger] out@[i])@.len() == max,
        decreases rest@.len(),
    {
        let ghost rest0 = rest@;
        let ghost out0 = out@;
        let x = rest.remove(0);
        cur.push(x);
        assert(rest0 == seq![x] + rest@);
        if cur.len() == max {
            let full = cur;
            let ghost fv = full@;
            cur = Vec::new();
            out.push(full);
            assert(chunk_views(out@) =~= chunk_views(out0).push(fv));
            proof {
                chunk_views(out0).lemma_flatten_push(fv);
            }
        }
    }
    let ghost out0 = out@;
    if cur.len() > 0 {
        let last = cur;
        let ghost lv = last@;
        out.push(last);
        assert(chunk_views(out@) =~= chunk_views(out0).push(lv));
        proof {
            chunk_views(out0).lemma_flatten_push(lv);
        }
    } else {
        assert(cur@ =~= Seq::<T>::empty());
    }
    assert(chunk_views(out@).flatten() =~= all);
    out
}

/// The gossip topic on which advertisements are announced to the indexers.
pub const INDEXER_INGEST_TOPIC: &'static str = "indexer/ingest/mainnet";

/// One step of publishing an advertisement through the index provider.
pub enum AdvertStep {
    /// Create the advertisement for the DAG under `root_cid`, naming this node
    /// and its listen addresses.
    Create { root_cid: ContentId, context_id: Vec<u8>, addresses: Vec<String>, is_rm: bool },
    /// Append one chunk of entries to the advertisement.
    AddChunk(Vec<Vec<u8>>),
    /// Publish the advertisement.
    Publish,
    /// Gossip the provider's announcement on this topic.
    Announce(String),
}

/// The entries that an `AddChunk` step carries.
pub open spec fn step_chunk(s: AdvertStep) -> Vec<Vec<u8>> {
    s->AddChunk_0
}

/// The steps that publish an advertisement: create it, add the entries in
/// chunks of at most `max_entries`, in order, publish it, then announce it
/// on the indexers' topic.
pub fn advertisement_steps(
    root_cid: ContentId,
    context_id: Vec<u8>,
    addresses: Vec<String>,
    is_rm: bool,
    entries: Vec<Vec<u8>>,
    max_entries: usize,
) -> (r: Vec<AdvertStep>)
    requires
        max_entries > 0,
    ensures
        r@.len() >= 3,
        r@[0] == (AdvertStep::Create { root_cid, context_id, addresses, is_rm }),
        forall|i: int| 1 <= i < r@.len() - 2 ==> (#[trigger] r@[i]) is AddChunk,
        is_chunking(
            r@.subrange(1, r@.len() - 2).map_values(|s: AdvertStep| step_chunk(s)),
            entries@,
            max_entries as nat,
        ),
        r@[r@.len() - 2] is Publish,
        r@[r@.len() - 1] matches AdvertStep::Announce(t) && t@ == INDEXER_INGEST_TOPIC@,
{
    let mut chunks = chunk_entries(entries, max_entries);
    let n = chunks.len();
    let ghost all = chunks@;
    let mut steps: Vec<AdvertStep> = Vec::new();
    steps.push(AdvertStep::Create { root_cid, context_id, addresses, is_rm });
    let ghost first = steps@[0];
    let mut done: usize = 0;
    while chunks.len() > 0
        invariant
            steps@.len() == done + 1,
            steps@[0] == first,
            done + chunks@.len() == all.len(),
            all.len() == n,
            chunks@ == all.subrange(done as int, all.len() as int),
            forall|i: int| 1 <= i < steps@.len() ==> (#[trigger] steps@[i]) is AddChunk
                && step_chunk(steps@[i]) == all[i - 1],
        decreases chunks@.len(),
    {
        let ghost c0 = chunks@;
        let c = chunks.remove(0);
        assert(c == all[done as int]);
        steps.push(AdvertStep::AddChunk(c));
        done = done + 1;
        assert(chunks@ =~= all.subrange(done as int, all.len() as int));
    }
    let ghost body = steps@;
    steps.push(AdvertStep::Publish);
    steps.push(AdvertStep::Announce(String::from_str(INDEXER_INGEST_TOPIC)));
    assert(steps@.subrange(1, steps@.len() - 2).map_values(|s: AdvertStep| step_chunk(s)) =~= all)
        by {
        assert forall|i: int| 0 <= i < all.len() implies steps@.subrange(
            1,
            steps@.len() - 2,
        ).map_values(|s: AdvertStep| step_chunk(s))[i] == all[i] by {
            assert(steps@[i + 1] == body[i + 1]);
        }
    }
    steps
}

} // verus!
