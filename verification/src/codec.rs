//! The wire codec: binary images of the domain records, and the envelope
//! that carries a schema identifier in front of a payload when a schema
//! registry is in use.
//!
//! A record's image is the concatenation of its fields' zig-zag varints, in
//! declaration order. Decoding accepts exactly the canonical images and
//! rejects everything else — truncated input, trailing bytes, out-of-range
//! field values — so a decoded record is always the one that was encoded.

use vstd::prelude::*;
use crate::errors::PipelineError;
use crate::records::{AggregateSnapshot, PurchaseRecord};
use crate::schema::{
    compatible, purchase_schema, schema_compatible, snapshot_schema, purchase_schema_view,
    snapshot_schema_view, SchemaDescriptor,
};
use crate::wire::{
    lemma_unzigzag_zigzag, lemma_varint_parse_of_encoding, lemma_varint_parse_sound,
    lemma_zigzag_in_u64, lemma_zigzag_unzigzag, unzigzag, varint_bytes, varint_parse, varint_read,
    varint_write, zigzag, zigzag_decode, zigzag_encode,
};

verus! {

/// Image of two unsigned wire values in sequence.
pub open spec fn pair_bytes(a: nat, b: nat) -> Seq<u8> {
    varint_bytes(a) + varint_bytes(b)
}

/// Reads exactly two varints spanning the whole of `bytes`.
pub open spec fn pair_parse(bytes: Seq<u8>) -> Option<(nat, nat)> {
    match varint_parse(bytes, 0) {
        Some((a, p1)) => match varint_parse(bytes, p1) {
            Some((b, p2)) => if p2 == bytes.len() {
                Some((a, b))
            } else {
                None
            },
            None => None,
        },
        None => None,
    }
}

/// The two values written in sequence read back unchanged.
pub proof fn lemma_pair_roundtrip(a: nat, b: nat)
    ensures
        pair_parse(pair_bytes(a, b)) == Some((a, b)),
{
    let b1 = varint_bytes(a);
    let b2 = varint_bytes(b);
    let bytes = pair_bytes(a, b);
    assert(bytes.subrange(0, b1.len() as int) =~= b1);
    lemma_varint_parse_of_encoding(bytes, 0, a);
    assert(bytes.subrange(b1.len() as int, bytes.len() as int) =~= b2);
    lemma_varint_parse_of_encoding(bytes, b1.len() as int, b);
}

/// A successful two-varint parse read exactly the image of its result.
pub proof fn lemma_pair_parse_sound(bytes: Seq<u8>, a: nat, b: nat)
    requires
        pair_parse(bytes) == Some((a, b)),
    ensures
        bytes == pair_bytes(a, b),
{
    let (a0, p1) = varint_parse(bytes, 0).unwrap();
    lemma_varint_parse_sound(bytes, 0, a0, p1);
    let (b0, p2) = varint_parse(bytes, p1).unwrap();
    lemma_varint_parse_sound(bytes, p1, b0, p2);
    assert(bytes =~= bytes.subrange(0, p1) + bytes.subrange(p1, bytes.len() as int));
}

/// Reads a whole message holding exactly two wire values that fit in u64.
fn read_pair(bytes: &Vec<u8>) -> (r: Result<(u64, u64), PipelineError>)
    ensures
        match pair_parse(bytes@) {
            Some((a, b)) => if a <= u64::MAX && b <= u64::MAX {
                r == Ok::<(u64, u64), PipelineError>((a as u64, b as u64))
            } else {
                r == Err::<(u64, u64), PipelineError>(PipelineError::DecodingError)
            },
            None => r == Err::<(u64, u64), PipelineError>(PipelineError::DecodingError),
        },
{
    let (a, p1) = match varint_read(bytes, 0) {
        Ok(x) => x,
        Err(e) => {
            return Err(e);
        },
    };
    let (b, p2) = match varint_read(bytes, p1) {
        Ok(x) => x,
        Err(e) => {
            return Err(e);
        },
    };
    if p2 != bytes.len() {
        return Err(PipelineError::DecodingError);
    }
    proof {
        let (va, e1) = varint_parse(bytes@, 0).unwrap();
        lemma_varint_parse_sound(bytes@, 0, va, e1);
        assert(va <= u64::MAX && a == va as u64 && p1 == e1 as usize);
        let (vb, e2) = varint_parse(bytes@, e1).unwrap();
        lemma_varint_parse_sound(bytes@, e1, vb, e2);
        assert(vb <= u64::MAX && b == vb as u64 && p2 == e2 as usize);
        assert(e2 == bytes@.len());
        assert(pair_parse(bytes@) == Some((va, vb)));
    }
    Ok((a, b))
}

/// Binary image of a purchase record: its bike identifier, then its cost.
pub open spec fn purchase_bytes(r: PurchaseRecord) -> Seq<u8> {
    pair_bytes(zigzag(r.bike_id as int), zigzag(r.cost_hundredths as int))
}

/// The purchase record a byte sequence is the image of, if any.
pub open spec fn purchase_parse(bytes: Seq<u8>) -> Option<PurchaseRecord> {
    match pair_parse(bytes) {
        Some((a, b)) => if a <= u64::MAX && b <= u64::MAX && 0 <= unzigzag(a) <= u32::MAX {
            Some(
                PurchaseRecord {
                    bike_id: unzigzag(a) as u32,
                    cost_hundredths: unzigzag(b) as i64,
                },
            )
        } else {
            None
        },
        None => None,
    }
}

/// Binary image of an aggregate snapshot: its count, then its total cost.
pub open spec fn snapshot_bytes(s: AggregateSnapshot) -> Seq<u8> {
    pair_bytes(zigzag(s.bike_count as int), zigzag(s.total_cost_hundredths as int))
}

/// The aggregate snapshot a byte sequence is the image of, if any.
pub open spec fn snapshot_parse(bytes: Seq<u8>) -> Option<AggregateSnapshot> {
    match pair_parse(bytes) {
        Some((a, b)) => if a <= u64::MAX && b <= u64::MAX && 0 <= unzigzag(a) <= u32::MAX {
            Some(
                AggregateSnapshot {
                    bike_count: unzigzag(a) as u32,
                    total_cost_hundredths: unzigzag(b) as i64,
                },
            )
        } else {
            None
        },
        None => None,
    }
}

/// Serializes a purchase record into its binary image.
pub fn encode_purchase(r: &PurchaseRecord) -> (out: Vec<u8>)
    ensures
        out@ == purchase_bytes(*r),
{
    let mut out: Vec<u8> = Vec::new();
    varint_write(&mut out, zigzag_encode(r.bike_id as i64));
    varint_write(&mut out, zigzag_encode(r.cost_hundredths));
    proof {
        assert(out@ =~= purchase_bytes(*r));
    }
    out
}

/// Serializes an aggregate snapshot into its binary image.
pub fn encode_snapshot(s: &AggregateSnapshot) -> (out: Vec<u8>)
    ensures
        out@ == snapshot_bytes(*s),
{
    let mut out: Vec<u8> = Vec::new();
    varint_write(&mut out, zigzag_encode(s.bike_count as i64));
    varint_write(&mut out, zigzag_encode(s.total_cost_hundredths));
    proof {
        assert(out@ =~= snapshot_bytes(*s));
    }
    out
}

/// Deserializes a purchase record, failing on anything that is not the
/// canonical image of one.
pub fn decode_purchase(bytes: &Vec<u8>) -> (r: Result<PurchaseRecord, PipelineError>)
    ensures
        match purchase_parse(bytes@) {
            Some(rec) => r == Ok::<PurchaseRecord, PipelineError>(rec),
            None => r == Err::<PurchaseRecord, PipelineError>(PipelineError::DecodingError),
        },
{
    let (a, b) = match read_pair(bytes) {
        Ok(x) => x,
        Err(e) => {
            return Err(e);
        },
    };
    let id = zigzag_decode(a);
    if id < 0 || id > u32::MAX as i64 {
        return Err(PipelineError::DecodingError);
    }
    Ok(PurchaseRecord { bike_id: id as u32, cost_hundredths: zigzag_decode(b) })
}

/// Deserializes an aggregate snapshot, failing on anything that is not the
/// canonical image of one.
pub fn decode_snapshot(bytes: &Vec<u8>) -> (r: Result<AggregateSnapshot, PipelineError>)
    ensures
        match snapshot_parse(bytes@) {
            Some(s) => r == Ok::<AggregateSnapshot, PipelineError>(s),
            None => r == Err::<AggregateSnapshot, PipelineError>(PipelineError::DecodingError),
        },
{
    let (a, b) = match read_pair(bytes) {
        Ok(x) => x,
        Err(e) => {
            return Err(e);
        },
    };
    let count = zigzag_decode(a);
    if count < 0 || count > u32::MAX as i64 {
        return Err(PipelineError::DecodingError);
    }
    Ok(AggregateSnapshot { bike_count: count as u32, total_cost_hundredths: zigzag_decode(b) })
}

/// Encode-then-decode of any purchase record returns it unchanged.
pub proof fn lemma_purchase_roundtrip(r: PurchaseRecord)
    ensures
        purchase_parse(purchase_bytes(r)) == Some(r),
{
    lemma_zigzag_in_u64(r.bike_id as int);
    lemma_zigzag_in_u64(r.cost_hundredths as int);
    lemma_pair_roundtrip(zigzag(r.bike_id as int), zigzag(r.cost_hundredths as int));
    lemma_zigzag_unzigzag(r.bike_id as int);
    lemma_zigzag_unzigzag(r.cost_hundredths as int);
}

/// Encode-then-decode of any aggregate snapshot returns it unchanged.
pub proof fn lemma_snapshot_roundtrip(s: AggregateSnapshot)
    ensures
        snapshot_parse(snapshot_bytes(s)) == Some(s),
{
    lemma_zigzag_in_u64(s.bike_count as int);
    lemma_zigzag_in_u64(s.total_cost_hundredths as int);
    lemma_pair_roundtrip(zigzag(s.bike_count as int), zigzag(s.total_cost_hundredths as int));
    lemma_zigzag_unzigzag(s.bike_count as int);
    lemma_zigzag_unzigzag(s.total_cost_hundredths as int);
}

/// A byte sequence that decodes to a purchase record is exactly that
/// record's image: decoding never accepts a second spelling of a record,
/// and never returns a silently wrong one.
pub proof fn lemma_purchase_decode_exact(bytes: Seq<u8>, rec: PurchaseRecord)
    requires
        purchase_parse(bytes) == Some(rec),
    ensures
        bytes == purchase_bytes(rec),
{
    let (a, b) = pair_parse(bytes).unwrap();
    lemma_pair_parse_sound(bytes, a, b);
    lemma_unzigzag_zigzag(a);
    lemma_unzigzag_zigzag(b);
}

/// The snapshot analogue of [`lemma_purchase_decode_exact`].
pub proof fn lemma_snapshot_decode_exact(bytes: Seq<u8>, s: AggregateSnapshot)
    requires
        snapshot_parse(bytes) == Some(s),
    ensures
        bytes == snapshot_bytes(s),
{
    let (a, b) = pair_parse(bytes).unwrap();
    lemma_pair_parse_sound(bytes, a, b);
    lemma_unzigzag_zigzag(a);
    lemma_unzigzag_zigzag(b);
}

/// Serializes a purchase record against a writer's schema descriptor,
/// validating first that the record's shape — what [`purchase_schema_view`]
/// declares — can be read under that schema; a shape mismatch is an
/// encoding error and nothing is produced.
pub fn encode_purchase_against(writer: &SchemaDescriptor, r: &PurchaseRecord) -> (out: Result<
    Vec<u8>,
    PipelineError,
>)
    ensures
        if schema_compatible(purchase_schema_view(), writer@) {
            out is Ok && out->Ok_0@ == purchase_bytes(*r)
        } else {
            out == Err::<Vec<u8>, PipelineError>(PipelineError::EncodingError)
        },
{
    let shape = purchase_schema();
    if !compatible(&shape, writer) {
        return Err(PipelineError::EncodingError);
    }
    Ok(encode_purchase(r))
}

/// The snapshot analogue of [`encode_purchase_against`].
pub fn encode_snapshot_against(writer: &SchemaDescriptor, s: &AggregateSnapshot) -> (out: Result<
    Vec<u8>,
    PipelineError,
>)
    ensures
        if schema_compatible(snapshot_schema_view(), writer@) {
            out is Ok && out->Ok_0@ == snapshot_bytes(*s)
        } else {
            out == Err::<Vec<u8>, PipelineError>(PipelineError::EncodingError)
        },
{
    let shape = snapshot_schema();
    if !compatible(&shape, writer) {
        return Err(PipelineError::EncodingError);
    }
    Ok(encode_snapshot(s))
}

/// The registry envelope: a zero marker byte, the schema identifier in four
/// big-endian bytes, then the payload.
pub open spec fn framed_bytes(id: u32, payload: Seq<u8>) -> Seq<u8> {
    seq![
        0u8,
        (id / 0x1000000) as u8,
        ((id / 0x10000) % 256) as u8,
        ((id / 0x100) % 256) as u8,
        (id % 256) as u8,
    ] + payload
}

/// The schema identifier and payload a byte sequence envelopes, if any.
pub open spec fn frame_parse(bytes: Seq<u8>) -> Option<(u32, Seq<u8>)> {
    if bytes.len() >= 5 && bytes[0] == 0 {
        Some(
            (
                (0x1000000 * bytes[1] + 0x10000 * bytes[2] + 0x100 * bytes[3] + bytes[4]) as u32,
                bytes.subrange(5, bytes.len() as int),
            ),
        )
    } else {
        None
    }
}

/// Unwrapping inverts enveloping.
pub proof fn lemma_frame_roundtrip(id: u32, payload: Seq<u8>)
    ensures
        frame_parse(framed_bytes(id, payload)) == Some((id, payload)),
{
    let bytes = framed_bytes(id, payload);
    assert(0x1000000 * (id / 0x1000000) + 0x10000 * ((id / 0x10000) % 256) + 0x100 * ((id
        / 0x100) % 256) + id % 256 == id) by (bit_vector);
    assert(bytes.subrange(5, bytes.len() as int) =~= payload);
}

/// A successfully unwrapped byte sequence is exactly the envelope of its
/// result.
pub proof fn lemma_frame_parse_sound(bytes: Seq<u8>, id: u32, payload: Seq<u8>)
    requires
        frame_parse(bytes) == Some((id, payload)),
    ensures
        bytes == framed_bytes(id, payload),
{
    let b1 = bytes[1];
    let b2 = bytes[2];
    let b3 = bytes[3];
    let b4 = bytes[4];
    assert((0x1000000 * b1 + 0x10000 * b2 + 0x100 * b3 + b4) as u32 / 0x1000000 == b1
        && ((0x1000000 * b1 + 0x10000 * b2 + 0x100 * b3 + b4) as u32 / 0x10000) % 256 == b2
        && ((0x1000000 * b1 + 0x10000 * b2 + 0x100 * b3 + b4) as u32 / 0x100) % 256 == b3 && (
    0x1000000 * b1 + 0x10000 * b2 + 0x100 * b3 + b4) as u32 % 256 == b4) by (bit_vector);
    assert(bytes =~= framed_bytes(id, payload));
}

/// Wraps a payload in the registry envelope for `schema_id`.
pub fn frame_payload(schema_id: u32, payload: &Vec<u8>) -> (out: Vec<u8>)
    ensures
        out@ == framed_bytes(schema_id, payload@),
{
    let mut out: Vec<u8> = Vec::new();
    out.push(0u8);
    out.push((schema_id / 0x1000000) as u8);
    out.push(((schema_id / 0x10000) % 256) as u8);
    out.push(((schema_id / 0x100) % 256) as u8);
    out.push((schema_id % 256) as u8);
    let mut i: usize = 0;
    while i < payload.len()
        invariant
            i <= payload.len(),
            out@ == framed_bytes(schema_id, payload@.subrange(0, i as int)),
        decreases payload.len() - i,
    {
        out.push(payload[i]);
        proof {
            assert(out@ =~= framed_bytes(schema_id, payload@.subrange(0, i + 1 as int)));
        }
        i = i + 1;
    }
    proof {
        assert(payload@.subrange(0, payload@.len() as int) =~= payload@);
    }
    out
}

/// Takes a registry envelope apart, failing on anything that does not start
/// with the marker byte and a full four-byte schema identifier.
pub fn unframe_payload(bytes: &Vec<u8>) -> (r: Result<(u32, Vec<u8>), PipelineError>)
    ensures
        r is Ok <==> frame_parse(bytes@) is Some,
        r is Ok ==> r->Ok_0.0 == frame_parse(bytes@)->Some_0.0 && r->Ok_0.1@ == frame_parse(
            bytes@,
        )->Some_0.1,
        r is Err ==> r->Err_0 == PipelineError::DecodingError,
{
    if bytes.len() < 5 || bytes[0] != 0 {
        return Err(PipelineError::DecodingError);
    }
    let id: u32 = 0x1000000 * (bytes[1] as u32) + 0x10000 * (bytes[2] as u32) + 0x100 * (
    bytes[3] as u32) + (bytes[4] as u32);
    let mut payload: Vec<u8> = Vec::new();
    let mut i: usize = 5;
    while i < bytes.len()
        invariant
            5 <= i <= bytes.len(),
            payload@ == bytes@.subrange(5, i as int),
        decreases bytes.len() - i,
    {
        payload.push(bytes[i]);
        proof {
            assert(payload@ =~= bytes@.subrange(5, i + 1 as int));
        }
        i = i + 1;
    }
    Ok((id, payload))
}

} // verus!
