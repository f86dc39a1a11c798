use auto_batching_proxy::{
    Envelope, InferenceServiceWorker, ServiceWorkerConfig, UpstreamError, assemble_inputs,
    broadcast_error, process_response,
};

fn worker(max_wait_time: u64, max_batch_size: usize) -> InferenceServiceWorker {
    InferenceServiceWorker::init(ServiceWorkerConfig {
        max_wait_time,
        max_batch_size,
        inference_service_url: "http://inference.example.com".to_string(),
        inference_service_key: None,
    })
    .expect("worker should initialize")
}

fn strings(items: &[&str]) -> Vec<String> {
    items.iter().map(|s| s.to_string()).collect()
}

#[test]
fn envelope_records_count_at_enqueue() {
    let e = Envelope::new(17, strings(&["a", "b"]), 3);
    assert_eq!(e.sent_at, 17);
    assert_eq!(e.inputs_count, 2);
    assert_eq!(e.reply, 3);
    assert_eq!(e.inputs.as_deref(), Some(&["a".to_string(), "b".to_string()][..]));
}

#[test]
fn empty_submission_contributes_zero_inputs_and_still_replies() {
    let e = Envelope::new(0, Vec::new(), 1);
    assert_eq!(e.inputs_count, 0);
    assert!(e.inputs.is_none());

    let mut w = worker(100, 4);
    assert!(w.on_message(e, 0).is_none());
    let batch = w.on_timeout();
    let (drained, inputs) = assemble_inputs(batch);
    assert!(inputs.is_empty());
    let deliveries = process_response::<Vec<f64>>(&drained, Ok(Vec::new()));
    assert_eq!(deliveries.len(), 1);
    assert_eq!(deliveries[0].reply, 1);
    assert_eq!(deliveries[0].outcome.as_deref().unwrap(), &[] as &[Vec<f64>]);
}

#[test]
fn size_trigger_flushes_and_partitions_response() {
    let mut w = worker(100, 4);
    assert!(w.on_message(Envelope::new(0, strings(&["a"]), 1), 0).is_none());
    assert!(w.on_message(Envelope::new(0, strings(&["b", "c"]), 2), 0).is_none());
    assert!(w.on_message(Envelope::new(0, strings(&["d"]), 3), 0).is_none());
    let batch = w
        .on_message(Envelope::new(0, strings(&["e", "f"]), 4), 0)
        .expect("fourth envelope fills the batch");
    assert!(w.timeout.is_none());

    let (drained, inputs) = assemble_inputs(batch);
    assert_eq!(inputs, strings(&["a", "b", "c", "d", "e", "f"]));

    let embeddings: Vec<Vec<f64>> =
        vec![vec![1.0], vec![2.0], vec![3.0], vec![4.0], vec![5.0], vec![6.0]];
    let deliveries = process_response(&drained, Ok(embeddings));
    assert_eq!(deliveries.len(), 4);
    let expect: Vec<(u64, Vec<Vec<f64>>)> = vec![
        (1, vec![vec![1.0]]),
        (2, vec![vec![2.0], vec![3.0]]),
        (3, vec![vec![4.0]]),
        (4, vec![vec![5.0], vec![6.0]]),
    ];
    for (d, (reply, slice)) in deliveries.iter().zip(expect.iter()) {
        assert_eq!(d.reply, *reply);
        assert_eq!(d.outcome.as_ref().unwrap(), slice);
    }
}

#[test]
fn time_trigger_flushes_single_envelope() {
    let mut w = worker(100, 4);
    assert!(w.on_message(Envelope::new(0, strings(&["x"]), 9), 0).is_none());
    // The batching budget is armed in full for a fresh arrival.
    assert_eq!(w.timeout, Some(100));

    // The timer elapsed: the batch of one flushes by time, not size.
    let batch = w.on_timeout();
    assert_eq!(batch.len(), 1);
    assert!(w.timeout.is_none());

    let (drained, inputs) = assemble_inputs(batch);
    assert_eq!(inputs, strings(&["x"]));
    let deliveries = process_response(&drained, Ok(vec![vec![9.0]]));
    assert_eq!(deliveries.len(), 1);
    assert_eq!(deliveries[0].reply, 9);
    assert_eq!(deliveries[0].outcome.as_ref().unwrap(), &vec![vec![9.0]]);
}

#[test]
fn mixed_trigger_size_wins_before_timer() {
    let mut w = worker(100, 4);
    assert!(w.on_message(Envelope::new(0, strings(&["a"]), 1), 0).is_none());
    assert!(w.on_message(Envelope::new(0, strings(&["b"]), 2), 0).is_none());
    assert!(w.on_message(Envelope::new(0, strings(&["c"]), 3), 0).is_none());
    // The timer was armed by the first envelope and is still pending.
    assert_eq!(w.timeout, Some(100));
    // A fourth envelope at t=50 fills the batch: flush by size, at once.
    let batch = w
        .on_message(Envelope::new(50, strings(&["d"]), 4), 50)
        .expect("batch reaches its bound at the fourth envelope");
    assert_eq!(batch.len(), 4);
    let order: Vec<u64> = batch.iter().map(|e| e.reply).collect();
    assert_eq!(order, vec![1, 2, 3, 4]);
    assert!(w.timeout.is_none());
}

#[test]
fn intake_order_is_kept_within_batch() {
    let mut w = worker(100, 8);
    for reply in 0..5u64 {
        assert!(w.on_message(Envelope::new(reply, strings(&["s"]), reply), reply).is_none());
    }
    let batch = w.on_timeout();
    let order: Vec<u64> = batch.iter().map(|e| e.reply).collect();
    assert_eq!(order, vec![0, 1, 2, 3, 4]);
}

#[test]
fn upstream_failure_fans_out_one_shared_error() {
    let mut w = worker(100, 4);
    for reply in 1..=3u64 {
        assert!(w.on_message(Envelope::new(0, strings(&["q"]), reply), 0).is_none());
    }
    let batch = w
        .on_message(Envelope::new(0, strings(&["q"]), 4), 0)
        .expect("batch reaches its bound");
    let (drained, _) = assemble_inputs(batch);
    let deliveries = process_response::<Vec<f64>>(&drained, Err(UpstreamError::Transport));
    assert_eq!(deliveries.len(), 4);
    for d in &deliveries {
        assert_eq!(d.outcome.as_ref().unwrap_err(), &UpstreamError::Transport);
    }
}

#[test]
fn broadcast_error_reaches_every_envelope() {
    let batch = vec![
        Envelope::new(0, strings(&["a"]), 5),
        Envelope::new(1, Vec::new(), 6),
    ];
    let deliveries = broadcast_error::<Vec<f64>>(UpstreamError::Decode, &batch);
    assert_eq!(deliveries.len(), 2);
    assert_eq!(deliveries[0].reply, 5);
    assert_eq!(deliveries[1].reply, 6);
    for d in &deliveries {
        assert_eq!(d.outcome.as_ref().unwrap_err(), &UpstreamError::Decode);
    }
}

#[test]
fn response_length_mismatch_is_a_decode_failure_for_all() {
    let mut w = worker(100, 2);
    assert!(w.on_message(Envelope::new(0, strings(&["a"]), 1), 0).is_none());
    let batch = w
        .on_message(Envelope::new(0, strings(&["b", "c"]), 2), 0)
        .expect("batch reaches its bound");
    let (drained, inputs) = assemble_inputs(batch);
    assert_eq!(inputs.len(), 3);
    // Two embeddings for three inputs: the whole batch fails to decode.
    let deliveries = process_response(&drained, Ok(vec![vec![1.0], vec![2.0]]));
    assert_eq!(deliveries.len(), 2);
    for d in &deliveries {
        assert_eq!(d.outcome.as_ref().unwrap_err(), &UpstreamError::Decode);
    }
}

#[test]
fn overdue_envelope_arms_zero_timer() {
    let mut w = worker(100, 4);
    // The envelope waited 150 ms in the intake queue before the dispatcher
    // saw it: the whole budget is spent, so the timer arms at zero.
    assert!(w.on_message(Envelope::new(0, strings(&["x"]), 1), 150).is_none());
    assert_eq!(w.timeout, Some(0));
}

#[test]
fn budget_is_measured_from_the_oldest_envelope() {
    let mut w = worker(100, 4);
    // The first envelope arrives having already waited 40 ms.
    assert!(w.on_message(Envelope::new(10, strings(&["x"]), 1), 50).is_none());
    assert_eq!(w.timeout, Some(60));
    // A later envelope never re-arms the timer.
    assert!(w.on_message(Envelope::new(55, strings(&["y"]), 2), 55).is_none());
    assert_eq!(w.timeout, Some(60));
}

#[test]
fn clock_before_enqueue_time_counts_as_no_waiting() {
    let mut w = worker(100, 4);
    assert!(w.on_message(Envelope::new(60, strings(&["x"]), 1), 40).is_none());
    assert_eq!(w.timeout, Some(100));
}

#[test]
fn closed_intake_flushes_the_remainder() {
    let mut w = worker(100, 4);
    assert!(w.on_message(Envelope::new(0, strings(&["a"]), 1), 0).is_none());
    assert!(w.on_message(Envelope::new(0, strings(&["b"]), 2), 0).is_none());
    let batch = w.on_closed();
    assert_eq!(batch.len(), 2);
    assert!(w.timeout.is_none());
    let replies: Vec<u64> = batch.iter().map(|e| e.reply).collect();
    assert_eq!(replies, vec![1, 2]);
}

#[test]
fn closed_intake_with_nothing_pending_flushes_nothing() {
    let mut w = worker(100, 4);
    let batch = w.on_closed();
    assert!(batch.is_empty());
}

#[test]
fn batch_bound_of_one_flushes_every_arrival() {
    let mut w = worker(100, 1);
    let batch = w
        .on_message(Envelope::new(0, strings(&["solo"]), 1), 0)
        .expect("a bound of one flushes at once");
    assert_eq!(batch.len(), 1);
    assert!(w.timeout.is_none());
}

#[test]
fn abandoned_caller_does_not_disturb_the_rest() {
    let mut w = worker(100, 2);
    assert!(w.on_message(Envelope::new(0, strings(&["a"]), 1), 0).is_none());
    let batch = w
        .on_message(Envelope::new(0, strings(&["b"]), 2), 0)
        .expect("batch reaches its bound");
    let (drained, _) = assemble_inputs(batch);
    let deliveries = process_response(&drained, Ok(vec![vec![1.0], vec![2.0]]));
    // The plan still owes every envelope its delivery; a caller that walked
    // away simply never reads its own, and the others are untouched.
    assert_eq!(deliveries.len(), 2);
    let kept: Vec<&auto_batching_proxy::Delivery<Vec<f64>>> =
        deliveries.iter().filter(|d| d.reply != 1).collect();
    assert_eq!(kept.len(), 1);
    assert_eq!(kept[0].reply, 2);
    assert_eq!(kept[0].outcome.as_ref().unwrap(), &vec![vec![2.0]]);
}

#[test]
fn drained_envelopes_keep_counts_and_replies() {
    let batch = vec![
        Envelope::new(3, strings(&["a", "b"]), 11),
        Envelope::new(4, Vec::new(), 12),
    ];
    let (drained, inputs) = assemble_inputs(batch);
    assert_eq!(inputs, strings(&["a", "b"]));
    assert_eq!(drained.len(), 2);
    assert_eq!(drained[0].sent_at, 3);
    assert_eq!(drained[0].inputs_count, 2);
    assert_eq!(drained[0].reply, 11);
    assert!(drained[0].inputs.is_none());
    assert_eq!(drained[1].inputs_count, 0);
    assert_eq!(drained[1].reply, 12);
}
