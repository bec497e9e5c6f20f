use purchases_aggregator::bootstrap::{
    classify_consumer_attempt, classify_producer_attempt, classify_registration_attempt,
    consumer_settings, drive_consumer_bootstrap, drive_publish, producer_settings,
    publish_decision, retry_backoff_secs, BootstrapRun, ConsumerAttempt, ProducerAttempt,
    PublishAttempt, RegistrationAttempt, RetryDecision,
};
use purchases_aggregator::errors::PipelineError;
use purchases_aggregator::pipeline::{advance_phase, DriverEvent, DriverPhase};

#[test]
fn three_transient_failures_then_success_retries_until_success() {
    let attempts = vec![
        ConsumerAttempt::TopicMissing,
        ConsumerAttempt::TopicMissing,
        ConsumerAttempt::TopicMissing,
        ConsumerAttempt::Connected,
    ];
    assert_eq!(drive_consumer_bootstrap(&attempts), BootstrapRun::Established { retries: 3 });
}

#[test]
fn a_fatal_outcome_aborts_the_bootstrap() {
    let attempts = vec![
        ConsumerAttempt::BrokerUnreachable,
        ConsumerAttempt::Failed,
        ConsumerAttempt::Connected,
    ];
    assert_eq!(drive_consumer_bootstrap(&attempts), BootstrapRun::Aborted { retries: 1 });
}

#[test]
fn all_transient_outcomes_keep_retrying() {
    let attempts = vec![ConsumerAttempt::TopicMissing, ConsumerAttempt::BrokerUnreachable];
    assert_eq!(drive_consumer_bootstrap(&attempts), BootstrapRun::StillRetrying);
}

#[test]
fn consumer_outcomes_classify_as_specified() {
    assert_eq!(classify_consumer_attempt(&ConsumerAttempt::Connected), RetryDecision::Proceed);
    assert_eq!(
        classify_consumer_attempt(&ConsumerAttempt::TopicMissing),
        RetryDecision::RetryAfterBackoff
    );
    assert_eq!(
        classify_consumer_attempt(&ConsumerAttempt::BrokerUnreachable),
        RetryDecision::RetryAfterBackoff
    );
    assert_eq!(classify_consumer_attempt(&ConsumerAttempt::Failed), RetryDecision::Abort);
}

#[test]
fn producer_outcomes_classify_as_specified() {
    assert_eq!(classify_producer_attempt(&ProducerAttempt::Connected), RetryDecision::Proceed);
    assert_eq!(
        classify_producer_attempt(&ProducerAttempt::HostUnreachable),
        RetryDecision::RetryAfterBackoff
    );
    assert_eq!(classify_producer_attempt(&ProducerAttempt::Failed), RetryDecision::Abort);
}

#[test]
fn registration_outcomes_classify_as_specified() {
    assert_eq!(
        classify_registration_attempt(&RegistrationAttempt::Confirmed(7)),
        RetryDecision::Proceed
    );
    assert_eq!(
        classify_registration_attempt(&RegistrationAttempt::RegistryUnreachable),
        RetryDecision::RetryAfterBackoff
    );
    assert_eq!(
        classify_registration_attempt(&RegistrationAttempt::Incompatible),
        RetryDecision::Abort
    );
}

#[test]
fn connection_settings_have_the_documented_values() {
    assert_eq!(retry_backoff_secs(), 1);
    let p = producer_settings();
    assert_eq!(p.required_acks, 1);
    assert_eq!(p.ack_timeout_secs, 1);
    let c = consumer_settings();
    assert!(c.start_from_earliest);
    assert_eq!(c.fetch_max_wait_secs, 1);
    assert_eq!(c.fetch_min_bytes, 1000);
    assert_eq!(c.fetch_max_bytes_per_partition, 100_000);
    assert_eq!(c.retry_max_bytes, 1_000_000);
}

#[test]
fn the_driver_walks_its_phases_in_order() {
    let p = DriverPhase::Starting;
    let p = advance_phase(p, DriverEvent::Started);
    assert_eq!(p, DriverPhase::RegisteringSchema);
    let p = advance_phase(p, DriverEvent::SchemaRegistered);
    assert_eq!(p, DriverPhase::BootstrappingConnections);
    let p = advance_phase(p, DriverEvent::ConnectionsEstablished);
    assert_eq!(p, DriverPhase::Running);
    assert_eq!(advance_phase(p, DriverEvent::ShutdownRequested), DriverPhase::Shutdown);
    assert_eq!(advance_phase(p, DriverEvent::Fault), DriverPhase::FatalError);
    // An event out of order changes nothing.
    assert_eq!(
        advance_phase(DriverPhase::Starting, DriverEvent::ConnectionsEstablished),
        DriverPhase::Starting
    );
}

#[test]
fn publishing_retries_within_its_bound() {
    // Acknowledged on the second try, within three attempts.
    let outcomes = vec![PublishAttempt::Refused, PublishAttempt::Acknowledged];
    assert_eq!(drive_publish(&outcomes, 3), Ok(1));

    // Three refusals spend the whole bound: the failure escalates.
    let refused = vec![PublishAttempt::Refused, PublishAttempt::Refused, PublishAttempt::Refused];
    assert_eq!(drive_publish(&refused, 3), Err(PipelineError::PublishFailure));

    // The recording ends while attempts remain: still only transient.
    let short = vec![PublishAttempt::Refused];
    assert_eq!(drive_publish(&short, 3), Err(PipelineError::TransientConnectivity));

    assert_eq!(publish_decision(0, 3), RetryDecision::RetryAfterBackoff);
    assert_eq!(publish_decision(2, 3), RetryDecision::RetryAfterBackoff);
    assert_eq!(publish_decision(3, 3), RetryDecision::Abort);
}
