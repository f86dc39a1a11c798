use vstd::prelude::*;

verus! {

use crate::envelope::Envelope;
use crate::error::UpstreamError;

/// The reply owed to one envelope of a processed batch: either that
/// envelope's slice of the upstream response, or the batch's shared failure.
/// The caller of the library writes `outcome` to the reply handle named by
/// `reply`, and nothing else is ever written to that handle.
#[derive(Debug)]
pub struct Delivery<E> {
    /// Identifier of the envelope's one-shot reply handle.
    pub reply: u64,
    /// What that handle receives.
    pub outcome: Result<Vec<E>, UpstreamError>,
}

/// The total number of inputs the envelopes of `batch` contributed, by their
/// counts recorded at enqueue time.
pub open spec fn sum_counts(batch: Seq<Envelope>) -> int
    decreases batch.len(),
{
    if batch.len() == 0 {
        0
    } else {
        sum_counts(batch.drop_last()) + batch.last().inputs_count
    }
}

/// The slice of `response` owed to envelope `i` of `batch`: the window that
/// starts after the inputs of all earlier envelopes and spans exactly this
/// envelope's input count.
pub open spec fn slice_for<E>(batch: Seq<Envelope>, response: Seq<E>, i: int) -> Seq<E> {
    response.subrange(
        sum_counts(batch.subrange(0, i)),
        sum_counts(batch.subrange(0, i + 1)),
    )
}

pub proof fn lemma_sum_counts_push(batch: Seq<Envelope>, e: Envelope)
    ensures
        sum_counts(batch.push(e)) == sum_counts(batch) + e.inputs_count,
{
    assert(batch.push(e).drop_last() =~= batch);
}

pub proof fn lemma_sum_counts_nonneg(batch: Seq<Envelope>)
    ensures
        sum_counts(batch) >= 0,
    decreases batch.len(),
{
    if batch.len() > 0 {
        lemma_sum_counts_nonneg(batch.drop_last());
    }
}

/// A prefix of a batch never accounts for more inputs than the whole batch.
pub proof fn lemma_sum_counts_prefix_le(batch: Seq<Envelope>, k: int)
    requires
        0 <= k <= batch.len(),
    ensures
        sum_counts(batch.subrange(0, k)) <= sum_counts(batch),
    decreases batch.len() - k,
{
    if k == batch.len() {
        assert(batch.subrange(0, k) =~= batch);
    } else {
        assert(batch.subrange(0, k + 1) =~= batch.subrange(0, k).push(batch[k]));
        lemma_sum_counts_push(batch.subrange(0, k), batch[k]);
        lemma_sum_counts_prefix_le(batch, k + 1);
    }
}

/// Drain every envelope's inputs, in batch order, into one combined input
/// list for a single upstream call. Returns the drained envelopes (counts,
/// timestamps and reply handles intact) together with the concatenation of
/// their input lists in insertion order.
#[verifier::loop_isolation(false)]
pub fn assemble_inputs(batch: Vec<Envelope>) -> (r: (Vec<Envelope>, Vec<String>))
    requires
        forall|i: int| 0 <= i < batch@.len() ==> (#[trigger] batch@[i]).undrained(),
    ensures
        r.0@.len() == batch@.len(),
        forall|i: int| 0 <= i < batch@.len() ==> batch@[i].drained_to(#[trigger] r.0@[i]),
        r.1@ == batch@.map_values(|e: Envelope| e.inputs_seq()).flatten(),
        r.1@.len() == sum_counts(batch@),
{
    broadcast use Seq::lemma_flatten_push;

    let ghost orig = batch@;
    let mut rest = batch;
    let mut drained: Vec<Envelope> = Vec::new();
    let mut inputs: Vec<String> = Vec::new();
    while rest.len() > 0
        invariant
            drained@.len() + rest@.len() == orig.len(),
            rest@ == orig.subrange(drained@.len() as int, orig.len() as int),
            forall|i: int| 0 <= i < drained@.len() ==> orig[i].drained_to(#[trigger] drained@[i]),
            inputs@ == orig.subrange(0, drained@.len() as int).map_values(
                |e: Envelope| e.inputs_seq(),
            ).flatten(),
            inputs@.len() == sum_counts(orig.subrange(0, drained@.len() as int)),
        decreases rest@.len(),
    {
        let ghost k = drained@.len() as int;
        let e = rest.remove(0);
        proof {
            assert(e == orig[k]);
            assert(orig.subrange(0, k + 1) =~= orig.subrange(0, k).push(orig[k]));
            assert(orig.subrange(0, k + 1).map_values(|e: Envelope| e.inputs_seq()) =~= orig
                .subrange(0, k).map_values(|e: Envelope| e.inputs_seq()).push(
                orig[k].inputs_seq(),
            ));
            lemma_sum_counts_push(orig.subrange(0, k), orig[k]);
        }
        let Envelope { sent_at, inputs: taken, inputs_count, reply } = e;
        match taken {
            Some(mut v) => {
                inputs.append(&mut v);
            },
            None => {
                proof {
                    assert(inputs@ + orig[k].inputs_seq() =~= inputs@);
                }
            },
        }
        drained.push(Envelope { sent_at, inputs: None, inputs_count, reply });
        proof {
            assert(rest@ =~= orig.subrange(drained@.len() as int, orig.len() as int));
        }
    }
    proof {
        assert(orig.subrange(0, orig.len() as int) =~= orig);
    }
    (drained, inputs)
}

/// Deliver one shared failure to every envelope of the batch: each reply
/// handle receives the same error, and none receives a success.
#[verifier::loop_isolation(false)]
pub fn broadcast_error<E>(err: UpstreamError, batch: &Vec<Envelope>) -> (deliveries: Vec<
    Delivery<E>,
>)
    ensures
        deliveries@.len() == batch@.len(),
        forall|i: int| 0 <= i < batch@.len() ==> (#[trigger] deliveries@[i]).reply
            == batch@[i].reply,
        forall|i: int| 0 <= i < batch@.len() ==> (#[trigger] deliveries@[i]).outcome == Err::<
            Vec<E>,
            UpstreamError,
        >(err),
{
    let mut deliveries: Vec<Delivery<E>> = Vec::new();
    let mut i: usize = 0;
    while i < batch.len()
        invariant
            i <= batch@.len(),
            deliveries@.len() == i,
            forall|j: int| 0 <= j < i ==> (#[trigger] deliveries@[j]).reply == batch@[j].reply,
            forall|j: int| 0 <= j < i ==> (#[trigger] deliveries@[j]).outcome == Err::<
                Vec<E>,
                UpstreamError,
            >(err),
        decreases batch@.len() - i,
    {
        deliveries.push(Delivery { reply: batch[i].reply, outcome: Err(err) });
        i += 1;
    }
    deliveries
}

/// Split one upstream result back across the envelopes of the batch.
///
/// On success with a response of exactly `sum_counts(batch)` embeddings,
/// every envelope is owed the window of the response that its recorded input
/// count spans, in batch order. A response of any other length is treated as
/// a decode failure of the whole batch, and an upstream failure is fanned
/// out unchanged to every envelope: all members see the same failure, none a
/// success.
#[verifier::loop_isolation(false)]
pub fn process_response<E>(
    batch: &Vec<Envelope>,
    response: Result<Vec<E>, UpstreamError>,
) -> (deliveries: Vec<Delivery<E>>)
    ensures
        deliveries@.len() == batch@.len(),
        forall|i: int| 0 <= i < batch@.len() ==> (#[trigger] deliveries@[i]).reply
            == batch@[i].reply,
        response matches Err(e) ==> forall|i: int| 0 <= i < batch@.len() ==> (
        #[trigger] deliveries@[i]).outcome == Err::<Vec<E>, UpstreamError>(e),
        response matches Ok(v) ==> {
            &&& v@.len() == sum_counts(batch@) ==> forall|i: int| 0 <= i < batch@.len() ==> ((
            #[trigger] deliveries@[i]).outcome matches Ok(s) && s@ == slice_for(batch@, v@, i))
            &&& v@.len() != sum_counts(batch@) ==> forall|i: int| 0 <= i < batch@.len() ==> (
            #[trigger] deliveries@[i]).outcome == Err::<Vec<E>, UpstreamError>(
                UpstreamError::Decode,
            )
        },
{
    let resp = match response {
        Err(e) => {
            return broadcast_error(e, batch);
        },
        Ok(v) => v,
    };

    // Establish whether the response length agrees with the batch's total
    // input count; the sum itself may not even fit a usize, in which case it
    // certainly disagrees with the response length.
    let mut total: usize = 0;
    let mut overflow = false;
    let mut i: usize = 0;
    while i < batch.len()
        invariant
            i <= batch@.len(),
            !overflow ==> total == sum_counts(batch@.subrange(0, i as int)),
            overflow ==> sum_counts(batch@) > usize::MAX,
        decreases batch@.len() - i,
    {
        proof {
            assert(batch@.subrange(0, i + 1) =~= batch@.subrange(0, i as int).push(batch@[i as int]));
            lemma_sum_counts_push(batch@.subrange(0, i as int), batch@[i as int]);
        }
        if !overflow {
            let c = batch[i].inputs_count;
            if total > usize::MAX - c {
                proof {
                    lemma_sum_counts_prefix_le(batch@, i + 1);
                }
                overflow = true;
            } else {
                total = total + c;
            }
        }
        i += 1;
    }
    proof {
        assert(batch@.subrange(0, batch@.len() as int) =~= batch@);
    }

    let resp_len = resp.len();
    if overflow || total != resp_len {
        return broadcast_error(UpstreamError::Decode, batch);
    }

    // The lengths agree: walk the batch in order, advancing an offset by each
    // envelope's recorded count, and hand each envelope its window.
    let ghost respv = resp@;
    let mut remaining = resp;
    proof {
        assert(remaining@ =~= respv.subrange(0, respv.len() as int));
    }
    let mut deliveries: Vec<Delivery<E>> = Vec::new();
    let mut i: usize = 0;
    while i < batch.len()
        invariant
            i <= batch@.len(),
            deliveries@.len() == i,
            forall|j: int| 0 <= j < i ==> (#[trigger] deliveries@[j]).reply == batch@[j].reply,
            forall|j: int| 0 <= j < i ==> ((#[trigger] deliveries@[j]).outcome matches Ok(s) && s@
                == slice_for(batch@, respv, j)),
            remaining@ == respv.subrange(
                sum_counts(batch@.subrange(0, i as int)),
                respv.len() as int,
            ),
            respv.len() == sum_counts(batch@),
        decreases batch@.len() - i,
    {
        let ghost off = sum_counts(batch@.subrange(0, i as int));
        proof {
            lemma_sum_counts_nonneg(batch@.subrange(0, i as int));
            assert(batch@.subrange(0, i + 1) =~= batch@.subrange(0, i as int).push(batch@[i as int]));
            lemma_sum_counts_push(batch@.subrange(0, i as int), batch@[i as int]);
            lemma_sum_counts_prefix_le(batch@, i + 1);
        }
        let count = batch[i].inputs_count;
        let mut slice: Vec<E> = Vec::new();
        let mut j: usize = 0;
        while j < count
            invariant
                j <= count,
                slice@ == respv.subrange(off, off + j),
                remaining@ == respv.subrange(off + j, respv.len() as int),
                off + count <= respv.len(),
            decreases count - j,
        {
            let x = remaining.remove(0);
            slice.push(x);
            j += 1;
            proof {
                assert(slice@ =~= respv.subrange(off, off + j));
                assert(remaining@ =~= respv.subrange(off + j, respv.len() as int));
            }
        }
        deliveries.push(Delivery { reply: batch[i].reply, outcome: Ok(slice) });
        i += 1;
    }
    deliveries
}

/// Each envelope's reply handle is written to at most once: when the batch
/// names pairwise distinct reply handles, the deliveries of the processed
/// batch name pairwise distinct reply handles too, so no handle is the
/// target of two writes.
pub proof fn lemma_single_delivery<E>(batch: Seq<Envelope>, deliveries: Seq<Delivery<E>>)
    requires
        deliveries.len() == batch.len(),
        forall|i: int| 0 <= i < batch.len() ==> (#[trigger] deliveries[i]).reply == batch[i].reply,
        forall|i: int, j: int| 0 <= i < j < batch.len() ==> batch[i].reply != batch[j].reply,
    ensures
        forall|i: int, j: int| 0 <= i < j < deliveries.len() ==> deliveries[i].reply
            != deliveries[j].reply,
{
}

} // verus!
