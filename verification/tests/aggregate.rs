use purchases_aggregator::aggregate::{checked_fold, fold, fold_records};
use purchases_aggregator::codec::{decode_snapshot, encode_purchase};
use purchases_aggregator::errors::PipelineError;
use purchases_aggregator::pipeline::PipelineState;
use purchases_aggregator::records::{AggregateSnapshot, PurchaseRecord};

#[test]
fn folding_in_order_counts_and_sums() {
    let records = vec![
        PurchaseRecord { bike_id: 1, cost_hundredths: 10000 },
        PurchaseRecord { bike_id: 2, cost_hundredths: 25050 },
        PurchaseRecord { bike_id: 3, cost_hundredths: -5000 },
        PurchaseRecord { bike_id: 4, cost_hundredths: 1 },
    ];
    let snapshots = fold_records(&records).unwrap();
    let last = snapshots[snapshots.len() - 1];
    assert_eq!(last.bike_count, 4);
    assert_eq!(last.total_cost_hundredths, 10000 + 25050 - 5000 + 1);
}

#[test]
fn two_record_stream_yields_the_two_expected_snapshots() {
    // A fresh process fed {bike 1 at 100.00} then {bike 2 at 250.50}
    // publishes {1, 100.00} then {2, 350.50}.
    let records = vec![
        PurchaseRecord { bike_id: 1, cost_hundredths: 10000 },
        PurchaseRecord { bike_id: 2, cost_hundredths: 25050 },
    ];
    let snapshots = fold_records(&records).unwrap();
    assert_eq!(
        snapshots,
        vec![
            AggregateSnapshot { bike_count: 1, total_cost_hundredths: 10000 },
            AggregateSnapshot { bike_count: 2, total_cost_hundredths: 35050 },
        ]
    );
}

#[test]
fn the_pipeline_publishes_the_same_two_snapshots() {
    let mut state = PipelineState::new();
    let first = encode_purchase(&PurchaseRecord { bike_id: 1, cost_hundredths: 10000 });
    let second = encode_purchase(&PurchaseRecord { bike_id: 2, cost_hundredths: 25050 });

    let published = state.process_message(&first).unwrap();
    assert_eq!(
        decode_snapshot(&published),
        Ok(AggregateSnapshot { bike_count: 1, total_cost_hundredths: 10000 })
    );

    let published = state.process_message(&second).unwrap();
    assert_eq!(
        decode_snapshot(&published),
        Ok(AggregateSnapshot { bike_count: 2, total_cost_hundredths: 35050 })
    );
    assert_eq!(state.aggregate.bike_count, 2);
    assert_eq!(state.aggregate.total_cost_hundredths, 35050);
}

#[test]
fn a_redelivered_record_is_folded_twice() {
    // At-least-once delivery with no deduplication key: a duplicate
    // double-counts, by accepted design.
    let record = PurchaseRecord { bike_id: 9, cost_hundredths: 100 };
    let once = fold(&AggregateSnapshot::initial(), &record);
    let twice = fold(&once, &record);
    assert_eq!(twice.bike_count, 2);
    assert_eq!(twice.total_cost_hundredths, 200);
}

#[test]
fn a_poison_message_leaves_the_aggregate_alone() {
    let mut state = PipelineState::new();
    let good = encode_purchase(&PurchaseRecord { bike_id: 1, cost_hundredths: 500 });
    state.process_message(&good).unwrap();
    let poison = vec![0xFFu8, 0x00, 0x13];
    assert_eq!(state.process_message(&poison), Err(PipelineError::DecodingError));
    assert_eq!(state.aggregate.bike_count, 1);
    assert_eq!(state.aggregate.total_cost_hundredths, 500);
}

#[test]
fn folding_past_the_counters_is_refused() {
    let full = AggregateSnapshot { bike_count: u32::MAX, total_cost_hundredths: 0 };
    let record = PurchaseRecord { bike_id: 1, cost_hundredths: 1 };
    assert_eq!(checked_fold(&full, &record), Err(PipelineError::AggregateOverflow));

    let rich = AggregateSnapshot { bike_count: 1, total_cost_hundredths: i64::MAX };
    assert_eq!(checked_fold(&rich, &record), Err(PipelineError::AggregateOverflow));
    let poor = AggregateSnapshot { bike_count: 1, total_cost_hundredths: i64::MIN };
    let refund = PurchaseRecord { bike_id: 1, cost_hundredths: -1 };
    assert_eq!(checked_fold(&poor, &refund), Err(PipelineError::AggregateOverflow));

    // In range, the checked fold is the fold.
    assert_eq!(
        checked_fold(&rich, &refund),
        Ok(AggregateSnapshot { bike_count: 2, total_cost_hundredths: i64::MAX - 1 })
    );
}

#[test]
fn batch_completion_counts_batches_only() {
    let mut state = PipelineState::new();
    let raw = encode_purchase(&PurchaseRecord { bike_id: 1, cost_hundredths: 7 });
    state.process_message(&raw).unwrap();
    assert_eq!(state.batches_completed, 0);
    state.complete_batch();
    state.complete_batch();
    assert_eq!(state.batches_completed, 2);
    assert_eq!(state.aggregate.bike_count, 1);
}

#[test]
fn a_batch_publishes_one_snapshot_per_message_in_order() {
    let mut state = PipelineState::new();
    let batch = vec![
        encode_purchase(&PurchaseRecord { bike_id: 1, cost_hundredths: 10000 }),
        encode_purchase(&PurchaseRecord { bike_id: 2, cost_hundredths: 25050 }),
    ];
    let published = state.process_batch(&batch).unwrap();
    assert_eq!(published.len(), 2);
    assert_eq!(
        decode_snapshot(&published[0]),
        Ok(AggregateSnapshot { bike_count: 1, total_cost_hundredths: 10000 })
    );
    assert_eq!(
        decode_snapshot(&published[1]),
        Ok(AggregateSnapshot { bike_count: 2, total_cost_hundredths: 35050 })
    );

    // A failing message stops the batch, keeping the earlier folds.
    let poisoned = vec![
        encode_purchase(&PurchaseRecord { bike_id: 3, cost_hundredths: 1 }),
        vec![0xFFu8],
        encode_purchase(&PurchaseRecord { bike_id: 4, cost_hundredths: 1 }),
    ];
    assert_eq!(state.process_batch(&poisoned), Err(PipelineError::DecodingError));
    assert_eq!(state.aggregate.bike_count, 3);
    assert_eq!(state.aggregate.total_cost_hundredths, 35051);
}
