//! The aggregation engine: the stateful fold that turns a stream of
//! purchase records into a stream of aggregate snapshots.
//!
//! The fold is a pure function over an explicit state parameter; the
//! pipeline driver owns the one live snapshot and replaces it on every
//! successfully decoded record. Folding a record a second time counts it a
//! second time: the broker delivers at least once, and no deduplication key
//! exists in the record, so a redelivered purchase double-counts by design.

use vstd::prelude::*;
use crate::errors::PipelineError;
use crate::records::{AggregateSnapshot, PurchaseRecord};

verus! {

/// The aggregate, unbounded: what the snapshot's machine integers stand
/// for.
pub struct AggregateModel {
    pub bike_count: int,
    pub total_cost_hundredths: int,
}

/// What an in-memory snapshot stands for.
pub open spec fn snapshot_model(s: AggregateSnapshot) -> AggregateModel {
    AggregateModel {
        bike_count: s.bike_count as int,
        total_cost_hundredths: s.total_cost_hundredths as int,
    }
}

/// The aggregate before anything was folded.
pub open spec fn initial_model() -> AggregateModel {
    AggregateModel { bike_count: 0, total_cost_hundredths: 0 }
}

/// One fold step: one more bike, its cost added to the total.
pub open spec fn fold_model(m: AggregateModel, r: PurchaseRecord) -> AggregateModel {
    AggregateModel {
        bike_count: m.bike_count + 1,
        total_cost_hundredths: m.total_cost_hundredths + r.cost_hundredths,
    }
}

/// Folding a whole sequence of records, in order.
pub open spec fn fold_all_model(m: AggregateModel, rs: Seq<PurchaseRecord>) -> AggregateModel
    decreases rs.len(),
{
    if rs.len() == 0 {
        m
    } else {
        fold_all_model(fold_model(m, rs[0]), rs.drop_first())
    }
}

/// The exact sum of the costs of a sequence of records.
pub open spec fn sum_costs(rs: Seq<PurchaseRecord>) -> int
    decreases rs.len(),
{
    if rs.len() == 0 {
        0
    } else {
        rs[0].cost_hundredths + sum_costs(rs.drop_first())
    }
}

/// Folding a sequence of records advances the count by their number and the
/// total by the exact sum of their costs.
pub proof fn lemma_fold_all_counts_and_sums(m: AggregateModel, rs: Seq<PurchaseRecord>)
    ensures
        fold_all_model(m, rs).bike_count == m.bike_count + rs.len(),
        fold_all_model(m, rs).total_cost_hundredths == m.total_cost_hundredths + sum_costs(rs),
    decreases rs.len(),
{
    if rs.len() > 0 {
        lemma_fold_all_counts_and_sums(fold_model(m, rs[0]), rs.drop_first());
    }
}

/// Folding `n` records into a fresh aggregate yields a count of `n` and a
/// total equal to the exact sum of their costs.
pub proof fn lemma_fold_from_start(rs: Seq<PurchaseRecord>)
    ensures
        fold_all_model(initial_model(), rs).bike_count == rs.len(),
        fold_all_model(initial_model(), rs).total_cost_hundredths == sum_costs(rs),
{
    lemma_fold_all_counts_and_sums(initial_model(), rs);
}

/// One fold step on machine integers. The caller keeps the counters in
/// range; [`checked_fold`] does that test.
pub fn fold(prev: &AggregateSnapshot, record: &PurchaseRecord) -> (r: AggregateSnapshot)
    requires
        prev.bike_count < u32::MAX,
        i64::MIN <= prev.total_cost_hundredths + record.cost_hundredths <= i64::MAX,
    ensures
        snapshot_model(r) == fold_model(snapshot_model(*prev), *record),
{
    AggregateSnapshot {
        bike_count: prev.bike_count + 1,
        total_cost_hundredths: prev.total_cost_hundredths + record.cost_hundredths,
    }
}

/// One fold step, refused exactly when a counter would leave its machine
/// range.
pub fn checked_fold(prev: &AggregateSnapshot, record: &PurchaseRecord) -> (r: Result<
    AggregateSnapshot,
    PipelineError,
>)
    ensures
        if prev.bike_count < u32::MAX && i64::MIN <= prev.total_cost_hundredths
            + record.cost_hundredths <= i64::MAX {
            r is Ok && snapshot_model(r->Ok_0) == fold_model(snapshot_model(*prev), *record)
        } else {
            r == Err::<AggregateSnapshot, PipelineError>(PipelineError::AggregateOverflow)
        },
{
    if prev.bike_count == u32::MAX {
        return Err(PipelineError::AggregateOverflow);
    }
    match prev.total_cost_hundredths.checked_add(record.cost_hundredths) {
        Some(total) => Ok(AggregateSnapshot { bike_count: prev.bike_count + 1, total_cost_hundredths: total }),
        None => Err(PipelineError::AggregateOverflow),
    }
}

/// Whether an aggregate still fits the snapshot's machine integers.
pub open spec fn model_fits(m: AggregateModel) -> bool {
    &&& 0 <= m.bike_count <= u32::MAX
    &&& i64::MIN <= m.total_cost_hundredths <= i64::MAX
}

/// Folds a stream of records from a fresh aggregate and returns every
/// intermediate snapshot, in order: the successive aggregates a pipeline
/// publishes for that input stream. Succeeds exactly when every
/// intermediate aggregate fits the counters' machine ranges.
pub fn fold_records(records: &Vec<PurchaseRecord>) -> (r: Result<
    Vec<AggregateSnapshot>,
    PipelineError,
>)
    ensures
        r is Ok <==> (forall|i: int|
            0 <= i < records.len() ==> model_fits(
                fold_all_model(initial_model(), #[trigger] records@.subrange(0, i + 1)),
            )),
        r is Ok ==> r->Ok_0.len() == records.len(),
        r is Ok ==> forall|i: int|
            0 <= i < records.len() ==> snapshot_model(#[trigger] r->Ok_0[i]) == fold_all_model(
                initial_model(),
                records@.subrange(0, i + 1),
            ),
        r is Err ==> r->Err_0 == PipelineError::AggregateOverflow,
{
    let mut out: Vec<AggregateSnapshot> = Vec::new();
    let mut state = AggregateSnapshot::initial();
    let mut i: usize = 0;
    while i < records.len()
        invariant
            i <= records.len(),
            out.len() == i,
            snapshot_model(state) == fold_all_model(initial_model(), records@.subrange(0, i as int)),
            forall|j: int|
                0 <= j < i ==> model_fits(
                    fold_all_model(initial_model(), #[trigger] records@.subrange(0, j + 1)),
                ),
            forall|j: int|
                0 <= j < i ==> snapshot_model(#[trigger] out[j]) == fold_all_model(
                    initial_model(),
                    records@.subrange(0, j + 1),
                ),
        decreases records.len() - i,
    {
        proof {
            lemma_fold_all_snoc(initial_model(), records@.subrange(0, i as int), records@[i as int]);
            assert(records@.subrange(0, i as int).push(records@[i as int]) =~= records@.subrange(
                0,
                i + 1 as int,
            ));
        }
        let next = match checked_fold(&state, &records[i]) {
            Ok(s) => s,
            Err(e) => {
                proof {
                    assert(!model_fits(
                        fold_all_model(initial_model(), records@.subrange(0, i + 1 as int)),
                    ));
                }
                return Err(e);
            },
        };
        state = next;
        out.push(next);
        i = i + 1;
    }
    Ok(out)
}

/// Folding one more record at the end continues from the fold of the
/// prefix.
pub proof fn lemma_fold_all_snoc(m: AggregateModel, rs: Seq<PurchaseRecord>, r: PurchaseRecord)
    ensures
        fold_all_model(m, rs.push(r)) == fold_model(fold_all_model(m, rs), r),
    decreases rs.len(),
{
    assert(rs.push(r).len() == rs.len() + 1);
    if rs.len() == 0 {
        assert(rs.push(r)[0] == r);
        assert(rs.push(r).drop_first() =~= rs);
        assert(fold_all_model(fold_model(m, r), rs) == fold_model(m, r));
    } else {
        assert(rs.push(r)[0] == rs[0]);
        assert(rs.push(r).drop_first() =~= rs.drop_first().push(r));
        lemma_fold_all_snoc(fold_model(m, rs[0]), rs.drop_first(), r);
    }
}

} // verus!
