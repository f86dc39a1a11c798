use vstd::prelude::*;

verus! {

/// One caller's pending submission: the enqueue timestamp, the submitted
/// input strings, the input count recorded at enqueue time, and the
/// identifier of the single-use reply handle that the caller is waiting on.
///
/// `inputs` is moved out (drained) exactly once when the batch is assembled;
/// `inputs_count` survives the drain and is what the fan-out uses to slice
/// the upstream response.
#[derive(Debug)]
pub struct Envelope {
    /// Wall-clock enqueue time, in milliseconds.
    pub sent_at: u64,
    /// The caller's input strings; `None` once drained, and also `None` from
    /// the start when the caller submitted an empty list.
    pub inputs: Option<Vec<String>>,
    /// The length of `inputs` recorded at enqueue time.
    pub inputs_count: usize,
    /// Identifier of the caller's one-shot reply handle.
    pub reply: u64,
}

impl Envelope {
    /// The input strings this envelope still carries.
    pub open spec fn inputs_seq(self) -> Seq<String> {
        match self.inputs {
            Some(v) => v@,
            None => Seq::empty(),
        }
    }

    /// The envelope still carries everything it was created with: the stored
    /// count matches the stored inputs, and an empty submission is stored as
    /// `None` rather than as an empty vector.
    pub open spec fn undrained(self) -> bool {
        match self.inputs {
            Some(v) => v@.len() == self.inputs_count && self.inputs_count > 0,
            None => self.inputs_count == 0,
        }
    }

    /// `other` is this envelope after its inputs were drained: same
    /// timestamp, count and reply handle, but no inputs left.
    pub open spec fn drained_to(self, other: Envelope) -> bool {
        &&& other.sent_at == self.sent_at
        &&& other.inputs_count == self.inputs_count
        &&& other.reply == self.reply
        &&& other.inputs is None
    }

    /// Record a caller's submission. The input count is captured now, so the
    /// response can be sliced even after `inputs` is drained; an empty
    /// submission carries no input vector at all.
    pub fn new(sent_at: u64, inputs: Vec<String>, reply: u64) -> (e: Envelope)
        ensures
            e.sent_at == sent_at,
            e.reply == reply,
            e.inputs_count == inputs@.len(),
            e.inputs_seq() == inputs@,
            e.undrained(),
    {
        let inputs_count = inputs.len();
        let inputs = if inputs_count > 0 {
            Some(inputs)
        } else {
            None
        };
        Envelope { sent_at, inputs, inputs_count, reply }
    }
}

} // verus!
