use vstd::prelude::*;

verus! {

use crate::config::Config;
use crate::config::join_url;
use crate::config::url_join_of;
use crate::envelope::Envelope;
use crate::error::ConfigError;
use crate::error::ConfigVar;

/// The slice of the process configuration that the batching dispatcher
/// needs, captured as an immutable record.
#[derive(Debug)]
pub struct ServiceWorkerConfig {
    /// Per-batch latency budget in milliseconds, measured from the oldest
    /// pending envelope's enqueue time.
    pub max_wait_time: u64,
    /// Hard upper bound on envelopes per batch.
    pub max_batch_size: usize,
    /// Base URL of the upstream inference service.
    pub inference_service_url: String,
    /// Optional bearer credential for the upstream service.
    pub inference_service_key: Option<String>,
}

impl From<Config> for ServiceWorkerConfig {
    fn from(value: Config) -> (r: Self) {
        ServiceWorkerConfig {
            max_wait_time: value.max_wait_time,
            max_batch_size: value.max_batch_size,
            inference_service_url: value.inference_service_url,
            inference_service_key: value.inference_service_key,
        }
    }
}

impl vstd::std_specs::convert::FromSpecImpl<Config> for ServiceWorkerConfig {
    open spec fn obeys_from_spec() -> bool {
        true
    }

    open spec fn from_spec(value: Config) -> Self {
        ServiceWorkerConfig {
            max_wait_time: value.max_wait_time,
            max_batch_size: value.max_batch_size,
            inference_service_url: value.inference_service_url,
            inference_service_key: value.inference_service_key,
        }
    }
}

/// The flush timer value armed when `msg` is the first envelope of a new
/// batch: the batching budget minus the time the envelope already waited in
/// the intake queue, clamped at zero on either side. A clock that reads
/// earlier than the envelope's enqueue time counts as no waiting at all.
pub open spec fn spec_timeout_for(sent_at: u64, now: u64, max_wait: u64) -> u64 {
    let elapsed: int = if now >= sent_at {
        now - sent_at
    } else {
        0
    };
    if elapsed >= max_wait {
        0u64
    } else {
        (max_wait - elapsed) as u64
    }
}

/// Compute the flush timer to arm for the oldest envelope of a new batch.
pub fn timeout_for(sent_at: u64, now: u64, max_wait: u64) -> (t: u64)
    ensures
        t == spec_timeout_for(sent_at, now, max_wait),
{
    let elapsed = if now >= sent_at {
        now - sent_at
    } else {
        0
    };
    if elapsed >= max_wait {
        0
    } else {
        max_wait - elapsed
    }
}

/// The pending queue after an envelope arrives: the envelope joins the tail,
/// and if that fills the batch to the bound the whole queue flushes at once.
pub open spec fn queue_after_arrive(q: Seq<Envelope>, msg: Envelope, max: int) -> Seq<Envelope> {
    if q.len() + 1 >= max {
        Seq::empty()
    } else {
        q.push(msg)
    }
}

/// The batch flushed by an arriving envelope: the previous queue with the
/// envelope at its tail when the arrival fills the batch to the bound,
/// nothing otherwise.
pub open spec fn flushed_by_arrive(q: Seq<Envelope>, msg: Envelope, max: int) -> Option<
    Seq<Envelope>,
> {
    if q.len() + 1 >= max {
        Some(q.push(msg))
    } else {
        None
    }
}

/// The batching dispatcher's state: the single consumer of the intake queue,
/// sole owner of the pending batch and of the flush timer. The surrounding
/// task waits on either a new envelope or the armed timer, whichever fires
/// first, and calls `on_message`, `on_timeout` or `on_closed` accordingly;
/// a returned batch is handed to the upstream call and then fanned out.
#[derive(Debug)]
pub struct InferenceServiceWorker {
    /// The dispatcher's configuration.
    pub config: ServiceWorkerConfig,
    /// The resolved URL of the upstream embedding endpoint.
    pub embed_endpoint: String,
    /// The pending batch, ordered by arrival.
    pub queue: Vec<Envelope>,
    /// The armed flush timer in milliseconds; armed exactly when the pending
    /// batch is non-empty.
    pub timeout: Option<u64>,
}

impl InferenceServiceWorker {
    /// The dispatcher's invariant: the batch bound is positive, the pending
    /// queue is strictly below the bound (reaching it flushes at once), the
    /// flush timer is armed exactly when the queue is non-empty, and every
    /// pending envelope still carries its inputs.
    pub open spec fn wf(self) -> bool {
        &&& self.config.max_batch_size >= 1
        &&& self.queue@.len() < self.config.max_batch_size
        &&& (self.timeout is Some <==> self.queue@.len() > 0)
        &&& forall|i: int| 0 <= i < self.queue@.len() ==> (#[trigger] self.queue@[i]).undrained()
    }

    /// Set up a dispatcher with an empty pending batch and no armed timer.
    /// Fails exactly when the batch bound is zero or the embedding endpoint
    /// cannot be resolved against the configured base URL.
    pub fn init(config: ServiceWorkerConfig) -> (r: Result<InferenceServiceWorker, ConfigError>)
        ensures
            r is Ok <==> (config.max_batch_size >= 1 && url_join_of(
                config.inference_service_url@,
                "/embed"@,
            ) is Some),
            r matches Ok(w) ==> {
                &&& w.wf()
                &&& w.config == config
                &&& w.queue@.len() == 0
                &&& w.timeout is None
                &&& url_join_of(config.inference_service_url@, "/embed"@) == Some(
                    w.embed_endpoint@,
                )
            },
            r == Err::<InferenceServiceWorker, ConfigError>(
                ConfigError::Invalid(ConfigVar::MaxBatchSize),
            ) <==> config.max_batch_size == 0,
            r == Err::<InferenceServiceWorker, ConfigError>(
                ConfigError::Invalid(ConfigVar::InferenceServiceUrl),
            ) <==> (config.max_batch_size >= 1 && url_join_of(
                config.inference_service_url@,
                "/embed"@,
            ) is None),
    {
        if config.max_batch_size == 0 {
            return Err(ConfigError::Invalid(ConfigVar::MaxBatchSize));
        }
        let capacity = config.max_batch_size;
        match join_url(config.inference_service_url.as_str(), "/embed") {
            None => Err(ConfigError::Invalid(ConfigVar::InferenceServiceUrl)),
            Some(embed_endpoint) => Ok(
                InferenceServiceWorker {
                    config,
                    embed_endpoint,
                    queue: Vec::with_capacity(capacity),
                    timeout: None,
                },
            ),
        }
    }

    /// Take the whole pending batch, leaving a fresh empty buffer, and
    /// disarm the flush timer.
    fn flush(&mut self) -> (batch: Vec<Envelope>)
        ensures
            batch@ == old(self).queue@,
            final(self).queue@.len() == 0,
            final(self).timeout is None,
            final(self).config == old(self).config,
            final(self).embed_endpoint == old(self).embed_endpoint,
    {
        let batch = self.queue.split_off(0);
        self.timeout = None;
        proof {
            assert(batch@ =~= old(self).queue@);
            assert(self.queue@ =~= Seq::<Envelope>::empty());
        }
        batch
    }

    /// A new envelope arrived on the intake queue. If it opens a new batch,
    /// the flush timer is armed from the envelope's own enqueue time; the
    /// envelope then joins the pending queue, and if that fills the batch to
    /// the bound, the whole batch flushes now (size trigger) and is
    /// returned for the upstream call.
    pub fn on_message(&mut self, msg: Envelope, now: u64) -> (flushed: Option<Vec<Envelope>>)
        requires
            old(self).wf(),
            msg.undrained(),
        ensures
            final(self).wf(),
            final(self).config == old(self).config,
            final(self).embed_endpoint == old(self).embed_endpoint,
            final(self).queue@ == queue_after_arrive(
                old(self).queue@,
                msg,
                old(self).config.max_batch_size as int,
            ),
            match flushed {
                Some(b) => {
                    &&& flushed_by_arrive(
                        old(self).queue@,
                        msg,
                        old(self).config.max_batch_size as int,
                    ) == Some(b@)
                    &&& b@ == old(self).queue@.push(msg)
                    &&& b@.len() == old(self).config.max_batch_size
                    &&& forall|i: int| 0 <= i < b@.len() ==> (#[trigger] b@[i]).undrained()
                    &&& final(self).timeout is None
                },
                None => {
                    &&& flushed_by_arrive(
                        old(self).queue@,
                        msg,
                        old(self).config.max_batch_size as int,
                    ) is None
                    &&& final(self).timeout == (if old(self).queue@.len() == 0 {
                        Some(spec_timeout_for(msg.sent_at, now, old(self).config.max_wait_time))
                    } else {
                        old(self).timeout
                    })
                },
            },
    {
        if self.queue.len() == 0 {
            self.timeout = Some(timeout_for(msg.sent_at, now, self.config.max_wait_time));
        }
        self.queue.push(msg);
        if self.queue.len() < self.config.max_batch_size {
            None
        } else {
            Some(self.flush())
        }
    }

    /// The armed flush timer elapsed: the whole pending batch flushes now
    /// (time trigger) and is returned for the upstream call.
    pub fn on_timeout(&mut self) -> (batch: Vec<Envelope>)
        requires
            old(self).wf(),
            old(self).timeout is Some,
        ensures
            final(self).wf(),
            final(self).config == old(self).config,
            final(self).embed_endpoint == old(self).embed_endpoint,
            batch@ == old(self).queue@,
            batch@.len() > 0,
            batch@.len() <= old(self).config.max_batch_size,
            forall|i: int| 0 <= i < batch@.len() ==> (#[trigger] batch@[i]).undrained(),
            final(self).queue@.len() == 0,
            final(self).timeout is None,
    {
        self.flush()
    }

    /// The intake queue closed: every producer is gone, so whatever is still
    /// pending flushes one last time before the dispatcher exits.
    pub fn on_closed(&mut self) -> (batch: Vec<Envelope>)
        requires
            old(self).wf(),
        ensures
            final(self).wf(),
            final(self).config == old(self).config,
            final(self).embed_endpoint == old(self).embed_endpoint,
            batch@ == old(self).queue@,
            batch@.len() <= old(self).config.max_batch_size,
            forall|i: int| 0 <= i < batch@.len() ==> (#[trigger] batch@[i]).undrained(),
            final(self).queue@.len() == 0,
            final(self).timeout is None,
    {
        self.flush()
    }
}

/// One observation of the dispatcher's cooperative two-way wait.
pub enum WorkerEvent {
    /// An envelope arrived on the intake queue; the second field is the
    /// clock reading at that moment, in milliseconds.
    Arrive(Envelope, u64),
    /// The armed flush timer elapsed.
    TimerFire,
}

/// The envelopes a run of events delivers to the dispatcher, in arrival
/// order.
pub open spec fn arrivals(evs: Seq<WorkerEvent>) -> Seq<Envelope>
    decreases evs.len(),
{
    if evs.len() == 0 {
        Seq::empty()
    } else {
        match evs.last() {
            WorkerEvent::Arrive(e, _) => arrivals(evs.drop_last()).push(e),
            WorkerEvent::TimerFire => arrivals(evs.drop_last()),
        }
    }
}

/// The dispatcher's pending queue and the batches it has flushed, in flush
/// order, after starting from pending queue `q0` and observing the events
/// `evs` in order, with batch bound `max`. Arrivals append and flush on the
/// size trigger, exactly as `on_message` does; a timer fire flushes the
/// whole non-empty queue, exactly as `on_timeout` does.
pub open spec fn run_from(q0: Seq<Envelope>, max: int, evs: Seq<WorkerEvent>) -> (
    Seq<Envelope>,
    Seq<Seq<Envelope>>,
)
    decreases evs.len(),
{
    if evs.len() == 0 {
        (q0, Seq::<Seq<Envelope>>::empty())
    } else {
        let (q, bs) = run_from(q0, max, evs.drop_last());
        match evs.last() {
            WorkerEvent::Arrive(e, _) => {
                match flushed_by_arrive(q, e, max) {
                    Some(b) => (queue_after_arrive(q, e, max), bs.push(b)),
                    None => (queue_after_arrive(q, e, max), bs),
                }
            },
            WorkerEvent::TimerFire => {
                if q.len() > 0 {
                    (Seq::<Envelope>::empty(), bs.push(q))
                } else {
                    (q, bs)
                }
            },
        }
    }
}

/// Intake order is preserved from enqueue to flush. Over any run of the
/// dispatcher, the flushed batches, concatenated in flush order and followed
/// by what is still pending, are exactly the starting queue followed by the
/// arrivals in arrival order. So two envelopes that arrive in some order
/// leave in the same order: in one batch when they flush together, and
/// otherwise the earlier envelope's batch flushes first; and no envelope is
/// ever reordered, dropped or duplicated.
pub proof fn lemma_fifo(q0: Seq<Envelope>, max: int, evs: Seq<WorkerEvent>)
    ensures
        ({
            let (q, bs) = run_from(q0, max, evs);
            bs.flatten() + q
        }) == q0 + arrivals(evs),
    decreases evs.len(),
{
    broadcast use Seq::lemma_flatten_push;

    if evs.len() == 0 {
        assert(Seq::<Seq<Envelope>>::empty().flatten() + q0 =~= q0 + arrivals(evs));
    } else {
        lemma_fifo(q0, max, evs.drop_last());
        let (q, bs) = run_from(q0, max, evs.drop_last());
        let (q2, bs2) = run_from(q0, max, evs);
        match evs.last() {
            WorkerEvent::Arrive(e, _) => {
                assert(bs.flatten() + q.push(e) =~= (bs.flatten() + q).push(e));
                assert((q0 + arrivals(evs.drop_last())).push(e) =~= q0 + arrivals(evs));
                if q.len() + 1 >= max {
                    assert(bs2.flatten() + q2 =~= bs.flatten() + q.push(e));
                }
            },
            WorkerEvent::TimerFire => {
                if q.len() > 0 {
                    assert(bs2.flatten() + q2 =~= bs.flatten() + q);
                }
            },
        }
    }
}

/// The flush timer never grants more than the batching budget. An armed
/// deadline lies at most `max_wait` past the oldest envelope's enqueue time,
/// and an envelope that already waited out the whole budget in the intake
/// queue arms a zero timer: an immediate flush at the next scheduling point.
pub proof fn lemma_latency_budget(sent_at: u64, now: u64, max_wait: u64)
    ensures
        spec_timeout_for(sent_at, now, max_wait) <= max_wait,
        sent_at <= now && now - sent_at <= max_wait ==> now + spec_timeout_for(
            sent_at,
            now,
            max_wait,
        ) <= sent_at + max_wait,
        sent_at <= now && now - sent_at >= max_wait ==> spec_timeout_for(sent_at, now, max_wait)
            == 0,
{
}

} // verus!
