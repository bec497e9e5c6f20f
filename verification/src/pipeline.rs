//! The pipeline driver's core: its phases, and the per-message
//! decode-fold-encode step that the outer consume loop repeats.
//!
//! The driver owns the one mutable aggregate; no other component reads or
//! writes it. The outer loop — polling the consumer, publishing what this
//! module hands back, sleeping out backoffs — runs at the network edge and
//! feeds one raw message at a time into [`PipelineState::process_message`].

use vstd::prelude::*;
use crate::aggregate::{checked_fold, fold_model, initial_model, model_fits, snapshot_model, AggregateModel};
use crate::codec::{
    decode_purchase, encode_snapshot, frame_parse, purchase_parse, snapshot_bytes, unframe_payload,
};
use crate::errors::PipelineError;
use crate::records::{AggregateSnapshot, PurchaseRecord};
use crate::registry::{resolve_spec, BindingView, SchemaRegistry};
use crate::schema::{compatible, schema_compatible, SchemaDescriptor, SchemaView};

verus! {

/// Where the driver stands in its lifecycle.
#[derive(Clone, Copy, Debug, PartialEq, Eq, Structural)]
pub enum DriverPhase {
    /// The process is up, nothing attempted yet.
    Starting,
    /// Ensuring the output schema is registered, before anything is
    /// consumed.
    RegisteringSchema,
    /// Opening the consumer and producer connections.
    BootstrappingConnections,
    /// The consume-decode-fold-encode-produce loop.
    Running,
    /// An unrecoverable failure; the process exits.
    FatalError,
    /// An orderly stop was requested.
    Shutdown,
}

/// What moves the driver from one phase to the next.
#[derive(Clone, Copy, Debug, PartialEq, Eq, Structural)]
pub enum DriverEvent {
    /// Startup work begins.
    Started,
    /// The output schema is registered.
    SchemaRegistered,
    /// Both broker connections are open.
    ConnectionsEstablished,
    /// An unrecoverable failure anywhere.
    Fault,
    /// An orderly stop was requested.
    ShutdownRequested,
}

/// The driver's transition relation: the startup phases advance in order, a
/// fault is fatal from anywhere, a shutdown request ends a running loop,
/// and an event that does not apply to the current phase changes nothing.
pub open spec fn phase_after(p: DriverPhase, e: DriverEvent) -> DriverPhase {
    match (p, e) {
        (_, DriverEvent::Fault) => DriverPhase::FatalError,
        (DriverPhase::Starting, DriverEvent::Started) => DriverPhase::RegisteringSchema,
        (DriverPhase::RegisteringSchema, DriverEvent::SchemaRegistered) => DriverPhase::BootstrappingConnections,
        (DriverPhase::BootstrappingConnections, DriverEvent::ConnectionsEstablished) => DriverPhase::Running,
        (DriverPhase::Running, DriverEvent::ShutdownRequested) => DriverPhase::Shutdown,
        _ => p,
    }
}

/// Advances the driver one phase.
pub fn advance_phase(p: DriverPhase, e: DriverEvent) -> (next: DriverPhase)
    ensures
        next == phase_after(p, e),
{
    match (p, e) {
        (_, DriverEvent::Fault) => DriverPhase::FatalError,
        (DriverPhase::Starting, DriverEvent::Started) => DriverPhase::RegisteringSchema,
        (DriverPhase::RegisteringSchema, DriverEvent::SchemaRegistered) => DriverPhase::BootstrappingConnections,
        (DriverPhase::BootstrappingConnections, DriverEvent::ConnectionsEstablished) => DriverPhase::Running,
        (DriverPhase::Running, DriverEvent::ShutdownRequested) => DriverPhase::Shutdown,
        (other, _) => other,
    }
}

/// Whether one more record folds into `s` within the counters' machine
/// ranges.
pub open spec fn fold_fits(s: AggregateSnapshot, rec: PurchaseRecord) -> bool {
    &&& s.bike_count < u32::MAX
    &&& i64::MIN <= s.total_cost_hundredths + rec.cost_hundredths <= i64::MAX
}

/// The byte views of a batch of raw messages.
pub open spec fn views_of(raws: Seq<Vec<u8>>) -> Seq<Seq<u8>> {
    raws.map_values(|v: Vec<u8>| v@)
}

/// What running the decode-fold-encode cycle over one batch of raw
/// messages, in order, does to an aggregate: the aggregate it ends at, the
/// encoded snapshots published on the way, and the failure that stopped it,
/// if one did. A message that fails leaves the folds of its predecessors in
/// place and publishes nothing further.
pub open spec fn batch_run(agg: AggregateModel, raws: Seq<Seq<u8>>) -> (
    AggregateModel,
    Seq<Seq<u8>>,
    Option<PipelineError>,
)
    decreases raws.len(),
{
    if raws.len() == 0 {
        (agg, Seq::<Seq<u8>>::empty(), None::<PipelineError>)
    } else {
        match purchase_parse(raws[0]) {
            None => (agg, Seq::<Seq<u8>>::empty(), Some(PipelineError::DecodingError)),
            Some(rec) => {
                let next = fold_model(agg, rec);
                if !model_fits(next) {
                    (agg, Seq::<Seq<u8>>::empty(), Some(PipelineError::AggregateOverflow))
                } else {
                    let stepped = AggregateSnapshot {
                        bike_count: next.bike_count as u32,
                        total_cost_hundredths: next.total_cost_hundredths as i64,
                    };
                    let (fin, outs, err) = batch_run(next, raws.drop_first());
                    (fin, seq![snapshot_bytes(stepped)] + outs, err)
                }
            },
        }
    }
}

/// The state the pipeline driver owns exclusively: the running aggregate
/// and how many polled batches it has completed.
pub struct PipelineState {
    pub aggregate: AggregateSnapshot,
    pub batches_completed: u64,
}

impl PipelineState {
    /// A fresh pipeline: nothing folded, nothing polled. Aggregation starts
    /// from zero on every process start; no prior total is recovered.
    pub fn new() -> (r: PipelineState)
        ensures
            snapshot_model(r.aggregate) == initial_model(),
            r.batches_completed == 0,
    {
        PipelineState { aggregate: AggregateSnapshot::initial(), batches_completed: 0 }
    }

    /// One step of the running loop: decode a raw message, fold it into the
    /// aggregate, and hand back the encoded snapshot to publish. A message
    /// that is not a purchase record's image is refused unchanged, so one
    /// poison message never corrupts the aggregate.
    pub fn process_message(&mut self, raw: &Vec<u8>) -> (r: Result<Vec<u8>, PipelineError>)
        ensures
            final(self).batches_completed == old(self).batches_completed,
            match purchase_parse(raw@) {
                Some(rec) => if fold_fits(old(self).aggregate, rec) {
                    &&& r is Ok
                    &&& snapshot_model(final(self).aggregate) == fold_model(
                        snapshot_model(old(self).aggregate),
                        rec,
                    )
                    &&& r->Ok_0@ == snapshot_bytes(final(self).aggregate)
                } else {
                    &&& r == Err::<Vec<u8>, PipelineError>(PipelineError::AggregateOverflow)
                    &&& final(self).aggregate == old(self).aggregate
                },
                None => {
                    &&& r == Err::<Vec<u8>, PipelineError>(PipelineError::DecodingError)
                    &&& final(self).aggregate == old(self).aggregate
                },
            },
    {
        let rec = match decode_purchase(raw) {
            Ok(rec) => rec,
            Err(e) => {
                return Err(e);
            },
        };
        let next = match checked_fold(&self.aggregate, &rec) {
            Ok(s) => s,
            Err(e) => {
                return Err(e);
            },
        };
        self.aggregate = next;
        Ok(encode_snapshot(&next))
    }

    /// Processes one polled batch of raw messages in order and hands back
    /// the encoded snapshots to publish, one per message. Stops at the
    /// first message that fails, keeping what the earlier messages folded:
    /// record `i + 1` is never folded before record `i`'s fold completed.
    #[verifier::loop_isolation(false)]
    pub fn process_batch(&mut self, raws: &Vec<Vec<u8>>) -> (r: Result<Vec<Vec<u8>>, PipelineError>)
        ensures
            final(self).batches_completed == old(self).batches_completed,
            ({
                let (fin, outs, err) = batch_run(
                    snapshot_model(old(self).aggregate),
                    views_of(raws@),
                );
                &&& snapshot_model(final(self).aggregate) == fin
                &&& match err {
                    None => r is Ok && views_of(r->Ok_0@) == outs,
                    Some(e) => r == Err::<Vec<Vec<u8>>, PipelineError>(e),
                }
            }),
    {
        let ghost m0 = snapshot_model(self.aggregate);
        let ghost all = views_of(raws@);
        let mut published: Vec<Vec<u8>> = Vec::new();
        let mut i: usize = 0;
        proof {
            assert(all.skip(0) =~= all);
            assert(views_of(published@) =~= Seq::<Seq<u8>>::empty());
            let (fin, outs, err) = batch_run(m0, all);
            assert(Seq::<Seq<u8>>::empty() + outs =~= outs);
        }
        while i < raws.len()
            invariant
                i <= raws.len(),
                all == views_of(raws@),
                self.batches_completed == old(self).batches_completed,
                batch_run(m0, all) == ({
                    let (fin, outs, err) = batch_run(
                        snapshot_model(self.aggregate),
                        all.skip(i as int),
                    );
                    (fin, views_of(published@) + outs, err)
                }),
            decreases raws.len() - i,
        {
            let ghost m_i = snapshot_model(self.aggregate);
            let ghost prefix = views_of(published@);
            proof {
                assert(all.skip(i as int)[0] == all[i as int]);
                assert(all.skip(i as int).drop_first() =~= all.skip(i + 1 as int));
                assert(all[i as int] == raws@[i as int]@);
            }
            let out = match self.process_message(&raws[i]) {
                Ok(out) => out,
                Err(e) => {
                    proof {
                        let tail = all.skip(i as int);
                        assert(tail.len() == all.len() - i);
                        if let Some(rec) = purchase_parse(all[i as int]) {
                            assert(!fold_fits(self.aggregate, rec));
                            assert(!model_fits(fold_model(m_i, rec)));
                        }
                        assert(prefix + Seq::<Seq<u8>>::empty() =~= prefix);
                    }
                    return Err(e);
                },
            };
            proof {
                let rec = purchase_parse(all[i as int]).unwrap();
                let next = fold_model(m_i, rec);
                let stepped = AggregateSnapshot {
                    bike_count: next.bike_count as u32,
                    total_cost_hundredths: next.total_cost_hundredths as i64,
                };
                assert(self.aggregate == stepped);
                assert(out@ == snapshot_bytes(stepped));
            }
            published.push(out);
            proof {
                let (fin, outs, err) = batch_run(snapshot_model(self.aggregate), all.skip(
                    i + 1 as int,
                ));
                assert(views_of(published@) =~= prefix + seq![out@]);
                assert((prefix + seq![out@]) + outs =~= prefix + (seq![out@] + outs));
            }
            i = i + 1;
        }
        proof {
            assert(all.skip(raws@.len() as int) =~= Seq::<Seq<u8>>::empty());
            assert(views_of(published@) + Seq::<Seq<u8>>::empty() =~= views_of(published@));
        }
        Ok(published)
    }

    /// Marks one polled batch of messages as fully processed.
    pub fn complete_batch(&mut self)
        requires
            old(self).batches_completed < u64::MAX,
        ensures
            final(self).batches_completed == old(self).batches_completed + 1,
            final(self).aggregate == old(self).aggregate,
    {
        self.batches_completed = self.batches_completed + 1;
    }
}

/// What decoding a registry-wrapped message must yield: take the envelope
/// apart, resolve the schema identifier against the cache, insist the
/// writer's schema is compatible with the target, then decode the payload.
/// An unresolved identifier is the registry's failure, not the codec's, so
/// callers can fetch the schema and retry; everything malformed is a
/// decoding error.
pub open spec fn wrapped_purchase_outcome(
    reg: Seq<BindingView>,
    target: SchemaView,
    bytes: Seq<u8>,
) -> Result<PurchaseRecord, PipelineError> {
    match frame_parse(bytes) {
        None => Err(PipelineError::DecodingError),
        Some((id, payload)) => match resolve_spec(reg, id) {
            None => Err(PipelineError::RegistryUnavailable),
            Some(writer) => if !schema_compatible(writer, target) {
                Err(PipelineError::DecodingError)
            } else {
                match purchase_parse(payload) {
                    Some(rec) => Ok(rec),
                    None => Err(PipelineError::DecodingError),
                }
            },
        },
    }
}

/// Decodes a registry-wrapped purchase record against the schemas cached in
/// `cache`, with `target` the schema the caller reads under.
pub fn decode_wrapped_purchase(
    cache: &SchemaRegistry,
    target: &SchemaDescriptor,
    raw: &Vec<u8>,
) -> (r: Result<PurchaseRecord, PipelineError>)
    ensures
        r == wrapped_purchase_outcome(cache@, target@, raw@),
{
    let (id, payload) = match unframe_payload(raw) {
        Ok(x) => x,
        Err(e) => {
            return Err(e);
        },
    };
    let writer = match cache.resolve(id) {
        Some(s) => s,
        None => {
            return Err(PipelineError::RegistryUnavailable);
        },
    };
    if !compatible(writer, target) {
        return Err(PipelineError::DecodingError);
    }
    decode_purchase(&payload)
}

} // verus!
