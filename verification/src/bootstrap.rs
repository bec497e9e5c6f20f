//! Startup-time dependency resilience: the retry discipline for schema
//! registration and for bringing up the broker connections.
//!
//! The caller at the network edge performs one attempt at a time and hands
//! the classified outcome in; the library decides whether the pipeline is
//! ready, waits out a fixed backoff and tries again, or aborts. Transient
//! causes — the topic not yet present, the broker or registry unreachable —
//! are retried without bound; everything else is configuration-class and
//! escalates immediately.

use vstd::prelude::*;
use crate::errors::PipelineError;

verus! {

/// What to do after one startup attempt.
#[derive(Clone, Copy, Debug, PartialEq, Eq, Structural)]
pub enum RetryDecision {
    /// The attempt succeeded; the pipeline may proceed.
    Proceed,
    /// The cause is transient; wait one fixed backoff and try again.
    RetryAfterBackoff,
    /// The cause is not transient; escalate to the caller at once.
    Abort,
}

/// Outcome of one attempt to open the inbound subscription.
#[derive(Clone, Copy, Debug, PartialEq, Eq, Structural)]
pub enum ConsumerAttempt {
    /// The subscription is open.
    Connected,
    /// The input topic or its partition does not exist yet.
    TopicMissing,
    /// No broker host could be reached.
    BrokerUnreachable,
    /// Any other creation error: misconfiguration the process cannot
    /// recover from by waiting.
    Failed,
}

/// Outcome of one attempt to open the outbound connection.
#[derive(Clone, Copy, Debug, PartialEq, Eq, Structural)]
pub enum ProducerAttempt {
    /// The connection is open.
    Connected,
    /// No broker host could be reached.
    HostUnreachable,
    /// Any other creation error.
    Failed,
}

/// Outcome of one attempt to register a schema with the remote registry.
#[derive(Clone, Copy, Debug, PartialEq, Eq, Structural)]
pub enum RegistrationAttempt {
    /// The registry confirmed the schema under the given identifier.
    Confirmed(u32),
    /// The registry could not be reached.
    RegistryUnreachable,
    /// The registry holds an incompatible schema under the subject.
    Incompatible,
}

/// The fixed backoff between startup attempts, in seconds.
pub fn retry_backoff_secs() -> (r: u64)
    ensures
        r == 1,
{
    1
}

/// How the outbound connection is configured.
#[derive(Clone, Copy, Debug, PartialEq, Eq, Structural)]
pub struct ProducerSettings {
    /// Acknowledgement is required from this many broker replicas.
    pub required_acks: u32,
    /// How long to wait for that acknowledgement, in seconds.
    pub ack_timeout_secs: u64,
}

/// The pipeline's outbound durability: acknowledge after one broker
/// replica, within a bounded timeout.
pub fn producer_settings() -> (s: ProducerSettings)
    ensures
        s.required_acks == 1,
        s.ack_timeout_secs == 1,
{
    ProducerSettings { required_acks: 1, ack_timeout_secs: 1 }
}

/// How the inbound subscription is configured.
#[derive(Clone, Copy, Debug, PartialEq, Eq, Structural)]
pub struct ConsumerSettings {
    /// With no committed offset for the group, start from the earliest
    /// retained one, so no retained record is missed.
    pub start_from_earliest: bool,
    /// Longest wait for one poll to fill, in seconds.
    pub fetch_max_wait_secs: u64,
    /// Fewest bytes a poll waits for before returning.
    pub fetch_min_bytes: u32,
    /// Most bytes fetched from one partition per poll.
    pub fetch_max_bytes_per_partition: u32,
    /// Upper bound when retrying an oversized fetch.
    pub retry_max_bytes: u32,
}

/// The pipeline's inbound subscription settings.
pub fn consumer_settings() -> (s: ConsumerSettings)
    ensures
        s.start_from_earliest,
        s.fetch_max_wait_secs == 1,
        s.fetch_min_bytes == 1000,
        s.fetch_max_bytes_per_partition == 100000,
        s.retry_max_bytes == 1000000,
{
    ConsumerSettings {
        start_from_earliest: true,
        fetch_max_wait_secs: 1,
        fetch_min_bytes: 1000,
        fetch_max_bytes_per_partition: 100000,
        retry_max_bytes: 1000000,
    }
}

/// Classifies one consumer bootstrap outcome: a missing topic and an
/// unreachable broker are transient, anything else is fatal.
pub fn classify_consumer_attempt(a: &ConsumerAttempt) -> (d: RetryDecision)
    ensures
        d == match a {
            ConsumerAttempt::Connected => RetryDecision::Proceed,
            ConsumerAttempt::TopicMissing => RetryDecision::RetryAfterBackoff,
            ConsumerAttempt::BrokerUnreachable => RetryDecision::RetryAfterBackoff,
            ConsumerAttempt::Failed => RetryDecision::Abort,
        },
{
    match a {
        ConsumerAttempt::Connected => RetryDecision::Proceed,
        ConsumerAttempt::TopicMissing => RetryDecision::RetryAfterBackoff,
        ConsumerAttempt::BrokerUnreachable => RetryDecision::RetryAfterBackoff,
        ConsumerAttempt::Failed => RetryDecision::Abort,
    }
}

/// Classifies one producer bootstrap outcome: only an unreachable host is
/// transient.
pub fn classify_producer_attempt(a: &ProducerAttempt) -> (d: RetryDecision)
    ensures
        d == match a {
            ProducerAttempt::Connected => RetryDecision::Proceed,
            ProducerAttempt::HostUnreachable => RetryDecision::RetryAfterBackoff,
            ProducerAttempt::Failed => RetryDecision::Abort,
        },
{
    match a {
        ProducerAttempt::Connected => RetryDecision::Proceed,
        ProducerAttempt::HostUnreachable => RetryDecision::RetryAfterBackoff,
        ProducerAttempt::Failed => RetryDecision::Abort,
    }
}

/// Classifies one registration outcome: an unreachable registry is
/// transient, an incompatible stored schema is a conflict and is never
/// retried.
pub fn classify_registration_attempt(a: &RegistrationAttempt) -> (d: RetryDecision)
    ensures
        d == match a {
            RegistrationAttempt::Confirmed(_) => RetryDecision::Proceed,
            RegistrationAttempt::RegistryUnreachable => RetryDecision::RetryAfterBackoff,
            RegistrationAttempt::Incompatible => RetryDecision::Abort,
        },
{
    match a {
        RegistrationAttempt::Confirmed(_) => RetryDecision::Proceed,
        RegistrationAttempt::RegistryUnreachable => RetryDecision::RetryAfterBackoff,
        RegistrationAttempt::Incompatible => RetryDecision::Abort,
    }
}

/// How a bootstrap run over a sequence of attempt outcomes ends.
#[derive(Clone, Copy, Debug, PartialEq, Eq, Structural)]
pub enum BootstrapRun {
    /// The attempt at the given position succeeded; every earlier one was
    /// transient and was retried.
    Established { retries: usize },
    /// The attempt at the given position failed fatally.
    Aborted { retries: usize },
    /// Every recorded attempt was transient; the run is still retrying.
    StillRetrying,
}

/// The end of the consumer bootstrap run over the attempt outcomes from
/// position `i` on.
pub open spec fn consumer_run_from(attempts: Seq<ConsumerAttempt>, i: int) -> BootstrapRun
    decreases attempts.len() - i,
{
    if !(0 <= i < attempts.len()) {
        BootstrapRun::StillRetrying
    } else {
        match attempts[i] {
            ConsumerAttempt::Connected => BootstrapRun::Established { retries: i as usize },
            ConsumerAttempt::Failed => BootstrapRun::Aborted { retries: i as usize },
            ConsumerAttempt::TopicMissing => consumer_run_from(attempts, i + 1),
            ConsumerAttempt::BrokerUnreachable => consumer_run_from(attempts, i + 1),
        }
    }
}

/// Replays the consumer bootstrap loop over a recorded sequence of attempt
/// outcomes: retry past every transient outcome, stop at the first decisive
/// one.
pub fn drive_consumer_bootstrap(attempts: &Vec<ConsumerAttempt>) -> (r: BootstrapRun)
    ensures
        r == consumer_run_from(attempts@, 0),
{
    let mut i: usize = 0;
    while i < attempts.len()
        invariant
            i <= attempts.len(),
            consumer_run_from(attempts@, 0) == consumer_run_from(attempts@, i as int),
        decreases attempts.len() - i,
    {
        match classify_consumer_attempt(&attempts[i]) {
            RetryDecision::Proceed => {
                return BootstrapRun::Established { retries: i };
            },
            RetryDecision::Abort => {
                return BootstrapRun::Aborted { retries: i };
            },
            RetryDecision::RetryAfterBackoff => {
                i = i + 1;
            },
        }
    }
    BootstrapRun::StillRetrying
}

/// Outcome of one attempt to publish a snapshot to the output topic.
#[derive(Clone, Copy, Debug, PartialEq, Eq, Structural)]
pub enum PublishAttempt {
    /// The broker acknowledged the record.
    Acknowledged,
    /// The broker rejected the record or failed to acknowledge it.
    Refused,
}

/// Whether to try publishing again: unlike startup retries, publish retries
/// are bounded — once `max_attempts` have failed, the failure escalates.
pub fn publish_decision(failed_attempts: u64, max_attempts: u64) -> (d: RetryDecision)
    ensures
        d == if failed_attempts < max_attempts {
            RetryDecision::RetryAfterBackoff
        } else {
            RetryDecision::Abort
        },
{
    if failed_attempts < max_attempts {
        RetryDecision::RetryAfterBackoff
    } else {
        RetryDecision::Abort
    }
}

/// The end of a bounded publish run over the attempt outcomes from position
/// `i` on, with `remaining` attempts left: the first acknowledgement within
/// the bound succeeds; a run that spends the whole bound on refusals is a
/// publish failure; one whose record of outcomes ends first is still only
/// transiently failing.
pub open spec fn publish_run_from(outcomes: Seq<PublishAttempt>, i: int, remaining: nat) -> Result<
    int,
    PipelineError,
>
    decreases remaining,
{
    if remaining == 0 {
        Err(PipelineError::PublishFailure)
    } else if !(0 <= i < outcomes.len()) {
        Err(PipelineError::TransientConnectivity)
    } else {
        match outcomes[i] {
            PublishAttempt::Acknowledged => Ok(i),
            PublishAttempt::Refused => publish_run_from(outcomes, i + 1, (remaining - 1) as nat),
        }
    }
}

/// Replays the bounded publish retry over a recorded sequence of attempt
/// outcomes; on success, returns how many failed attempts preceded it.
pub fn drive_publish(outcomes: &Vec<PublishAttempt>, max_attempts: usize) -> (r: Result<
    usize,
    PipelineError,
>)
    ensures
        match publish_run_from(outcomes@, 0, max_attempts as nat) {
            Ok(i) => r == Ok::<usize, PipelineError>(i as usize),
            Err(e) => r == Err::<usize, PipelineError>(e),
        },
{
    let mut i: usize = 0;
    while i < max_attempts && i < outcomes.len()
        invariant
            i <= max_attempts,
            i <= outcomes.len(),
            publish_run_from(outcomes@, 0, max_attempts as nat) == publish_run_from(
                outcomes@,
                i as int,
                (max_attempts - i) as nat,
            ),
        decreases max_attempts - i,
    {
        match outcomes[i] {
            PublishAttempt::Acknowledged => {
                return Ok(i);
            },
            PublishAttempt::Refused => {
                i = i + 1;
            },
        }
    }
    if i == max_attempts {
        Err(PipelineError::PublishFailure)
    } else {
        Err(PipelineError::TransientConnectivity)
    }
}

/// A consumer bootstrap against a broker that answers with transient
/// failures until attempt `k` succeeds retries exactly until that success
/// and propagates no transient error: the run establishes the connection.
pub proof fn lemma_bootstrap_retries_until_success(attempts: Seq<ConsumerAttempt>, k: int)
    requires
        0 <= k < attempts.len(),
        attempts[k] == ConsumerAttempt::Connected,
        forall|j: int|
            0 <= j < k ==> (#[trigger] attempts[j]) == ConsumerAttempt::TopicMissing || attempts[j]
                == ConsumerAttempt::BrokerUnreachable,
    ensures
        consumer_run_from(attempts, 0) == (BootstrapRun::Established { retries: k as usize }),
{
    lemma_bootstrap_run_skips_transients(attempts, 0, k);
}

proof fn lemma_bootstrap_run_skips_transients(attempts: Seq<ConsumerAttempt>, i: int, k: int)
    requires
        0 <= i <= k < attempts.len(),
        attempts[k] == ConsumerAttempt::Connected,
        forall|j: int|
            i <= j < k ==> (#[trigger] attempts[j]) == ConsumerAttempt::TopicMissing || attempts[j]
                == ConsumerAttempt::BrokerUnreachable,
    ensures
        consumer_run_from(attempts, i) == (BootstrapRun::Established { retries: k as usize }),
    decreases k - i,
{
    if i < k {
        lemma_bootstrap_run_skips_transients(attempts, i + 1, k);
    }
}

} // verus!
