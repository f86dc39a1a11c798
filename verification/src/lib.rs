//! An auto-batching inference proxy library.
//!
//! Many concurrent callers submit small lists of input strings; the library's
//! batching dispatcher aggregates them into bounded batches, decides when to
//! flush (size trigger or time trigger measured from the oldest pending
//! envelope), and partitions the single upstream response vector back across
//! the waiting callers using per-envelope input counts.
//!
//! The surrounding process (HTTP ingress, the upstream POST, the async select
//! loop, signal handling) lives outside this crate and drives the dispatcher
//! by handing it plain values: envelopes, the current time in milliseconds,
//! and the upstream result.

mod batch;
mod config;
mod envelope;
mod error;
mod worker;

pub use batch::Delivery;
pub use batch::assemble_inputs;
pub use batch::broadcast_error;
pub use batch::process_response;
pub use config::Config;
pub use envelope::Envelope;
pub use error::ConfigError;
pub use error::ConfigVar;
pub use error::Error;
pub use error::UpstreamError;
pub use worker::InferenceServiceWorker;
pub use worker::ServiceWorkerConfig;
pub use worker::WorkerEvent;
