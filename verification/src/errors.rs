//! Error taxonomy of the pipeline.
//!
//! Startup-phase failures are classified into transient causes, which the
//! caller retries with a fixed backoff, and configuration-class causes,
//! which escalate immediately. Steady-state failures identify the stage
//! that failed so the driver can decide whether to skip or abort.

use vstd::prelude::*;

verus! {

/// A failure observed somewhere in the consume-decode-fold-encode-produce
/// cycle or during startup.
#[derive(Clone, Copy, Debug, PartialEq, Eq, Structural)]
pub enum PipelineError {
    /// The broker or the schema registry is temporarily unreachable; the
    /// operation is retried with a fixed backoff.
    TransientConnectivity,
    /// A schema structurally incompatible with the one already registered
    /// under the same subject was offered; never retried.
    SchemaConflict,
    /// A payload was truncated, malformed, or did not describe a record of
    /// the expected shape.
    DecodingError,
    /// A record's runtime shape did not match the schema it was encoded
    /// against.
    EncodingError,
    /// The broker rejected or failed to acknowledge a published snapshot.
    PublishFailure,
    /// The schema registry could not be reached while resolving or
    /// registering a schema; distinguished from pure codec failures so
    /// callers can apply a different retry policy.
    RegistryUnavailable,
    /// Folding one more record would overflow the aggregate's counters;
    /// a machine limit, reported rather than wrapped silently.
    AggregateOverflow,
}

} // verus!
