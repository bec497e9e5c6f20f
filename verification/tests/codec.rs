use purchases_aggregator::codec::{
    decode_purchase, decode_snapshot, encode_purchase, encode_purchase_against, encode_snapshot,
    encode_snapshot_against, frame_payload, unframe_payload,
};
use purchases_aggregator::schema::{purchase_schema, snapshot_schema};
use purchases_aggregator::errors::PipelineError;
use purchases_aggregator::records::{AggregateSnapshot, PurchaseRecord};
use purchases_aggregator::wire::{varint_read, varint_write, zigzag_decode, zigzag_encode};

#[test]
fn zigzag_maps_small_values_like_avro() {
    assert_eq!(zigzag_encode(0), 0);
    assert_eq!(zigzag_encode(-1), 1);
    assert_eq!(zigzag_encode(1), 2);
    assert_eq!(zigzag_encode(-2), 3);
    assert_eq!(zigzag_encode(2147483647), 4294967294);
    assert_eq!(zigzag_encode(i64::MIN), u64::MAX);
    assert_eq!(zigzag_encode(i64::MAX), u64::MAX - 1);
}

#[test]
fn zigzag_roundtrips_extremes() {
    for v in [0i64, 1, -1, 42, -42, i64::MAX, i64::MIN] {
        assert_eq!(zigzag_decode(zigzag_encode(v)), v);
    }
}

#[test]
fn varint_writes_canonical_groups() {
    let mut out: Vec<u8> = Vec::new();
    varint_write(&mut out, 0);
    assert_eq!(out, vec![0]);
    let mut out: Vec<u8> = Vec::new();
    varint_write(&mut out, 127);
    assert_eq!(out, vec![127]);
    let mut out: Vec<u8> = Vec::new();
    varint_write(&mut out, 128);
    assert_eq!(out, vec![0x80, 0x01]);
    let mut out: Vec<u8> = Vec::new();
    varint_write(&mut out, 20000);
    assert_eq!(out, vec![0xA0, 0x9C, 0x01]);
}

#[test]
fn varint_reads_back_what_it_wrote() {
    for v in [0u64, 1, 127, 128, 300, 20000, u64::MAX] {
        let mut out: Vec<u8> = Vec::new();
        varint_write(&mut out, v);
        assert_eq!(varint_read(&out, 0), Ok((v, out.len())));
    }
}

#[test]
fn varint_rejects_truncation_and_padding() {
    // Truncated: the continuation bit promises another byte.
    assert_eq!(varint_read(&vec![0x80], 0), Err(PipelineError::DecodingError));
    // Empty input.
    assert_eq!(varint_read(&Vec::new(), 0), Err(PipelineError::DecodingError));
    // Non-canonical: a zero last group padding a one-byte value.
    assert_eq!(varint_read(&vec![0x80, 0x00], 0), Err(PipelineError::DecodingError));
    // Eleven continuation groups can only spell a value beyond 64 bits.
    let wide = vec![0xFFu8, 0xFF, 0xFF, 0xFF, 0xFF, 0xFF, 0xFF, 0xFF, 0xFF, 0xFF, 0x01];
    assert_eq!(varint_read(&wide, 0), Err(PipelineError::DecodingError));
}

#[test]
fn purchase_encoding_is_the_avro_datum_layout() {
    // bike_id 1 zig-zags to 2; cost 10000 zig-zags to 20000 = three groups.
    let r = PurchaseRecord { bike_id: 1, cost_hundredths: 10000 };
    assert_eq!(encode_purchase(&r), vec![0x02, 0xA0, 0x9C, 0x01]);
}

#[test]
fn purchase_encoding_matches_reference_avro_library() {
    let schema = apache_avro::Schema::parse_str(
        r#"{"type":"record","name":"Purchase","fields":[
            {"name":"bike_id","type":"int"},{"name":"cost","type":"long"}]}"#,
    )
    .unwrap();
    for (bike_id, cost) in [(1u32, 10000i64), (0, 0), (2, -25050), (77, i64::MAX), (7, i64::MIN)] {
        let value = apache_avro::types::Value::Record(vec![
            ("bike_id".to_string(), apache_avro::types::Value::Int(bike_id as i32)),
            ("cost".to_string(), apache_avro::types::Value::Long(cost)),
        ]);
        let reference = apache_avro::to_avro_datum(&schema, value).unwrap();
        let ours = encode_purchase(&PurchaseRecord { bike_id, cost_hundredths: cost });
        assert_eq!(ours, reference);
    }
}

#[test]
fn snapshot_encoding_matches_reference_avro_library() {
    let schema = apache_avro::Schema::parse_str(
        r#"{"type":"record","name":"PurchaseAggregate","fields":[
            {"name":"bike_count","type":"int"},{"name":"total_cost","type":"long"}]}"#,
    )
    .unwrap();
    for (count, total) in [(1u32, 10000i64), (2, 35050), (0, 0), (4000000, -1)] {
        let value = apache_avro::types::Value::Record(vec![
            ("bike_count".to_string(), apache_avro::types::Value::Int(count as i32)),
            ("total_cost".to_string(), apache_avro::types::Value::Long(total)),
        ]);
        let reference = apache_avro::to_avro_datum(&schema, value).unwrap();
        let ours = encode_snapshot(&AggregateSnapshot { bike_count: count, total_cost_hundredths: total });
        assert_eq!(ours, reference);
    }
}

#[test]
fn purchase_roundtrips_through_the_codec() {
    for (bike_id, cost) in
        [(0u32, 0i64), (1, 10000), (u32::MAX, i64::MAX), (42, i64::MIN), (7, -1)]
    {
        let r = PurchaseRecord { bike_id, cost_hundredths: cost };
        assert_eq!(decode_purchase(&encode_purchase(&r)), Ok(r));
    }
}

#[test]
fn snapshot_roundtrips_through_the_codec() {
    for (count, total) in [(0u32, 0i64), (1, 10000), (2, 35050), (u32::MAX, i64::MIN)] {
        let s = AggregateSnapshot { bike_count: count, total_cost_hundredths: total };
        assert_eq!(decode_snapshot(&encode_snapshot(&s)), Ok(s));
    }
}

#[test]
fn malformed_bytes_decode_to_an_error_never_a_record() {
    let cases: Vec<Vec<u8>> = vec![
        Vec::new(),                      // empty
        vec![0x02],                      // one field only
        vec![0x02, 0x80],                // second field truncated
        vec![0x02, 0x80, 0x00],          // second field non-canonical
        vec![0x02, 0x01, 0x01],          // trailing byte after two fields
        vec![0x01, 0x02],                // bike identifier zig-zags negative
        vec![0x80, 0x80, 0x80, 0x80, 0x20, 0x02], // bike identifier beyond 32 bits
    ];
    for bytes in cases {
        assert_eq!(decode_purchase(&bytes), Err(PipelineError::DecodingError), "{bytes:?}");
    }
}

#[test]
fn envelope_roundtrips_and_checks_its_header() {
    let payload = encode_purchase(&PurchaseRecord { bike_id: 1, cost_hundredths: 10000 });
    let framed = frame_payload(305419896, &payload);
    assert_eq!(&framed[..5], &[0x00, 0x12, 0x34, 0x56, 0x78]);
    assert_eq!(unframe_payload(&framed), Ok((305419896, payload.clone())));
    // Wrong marker byte.
    let mut bad = framed.clone();
    bad[0] = 1;
    assert_eq!(unframe_payload(&bad), Err(PipelineError::DecodingError));
    // Too short for a header.
    assert_eq!(unframe_payload(&vec![0, 0, 0]), Err(PipelineError::DecodingError));
    // An empty payload is legal.
    assert_eq!(unframe_payload(&vec![0, 0, 0, 0, 5]), Ok((5, Vec::new())));
}

#[test]
fn encoding_validates_the_writer_schema_first() {
    let record = PurchaseRecord { bike_id: 1, cost_hundredths: 10000 };
    assert_eq!(
        encode_purchase_against(&purchase_schema(), &record),
        Ok(encode_purchase(&record))
    );
    // A snapshot schema cannot carry a purchase record.
    assert_eq!(
        encode_purchase_against(&snapshot_schema(), &record),
        Err(PipelineError::EncodingError)
    );

    let snapshot = AggregateSnapshot { bike_count: 1, total_cost_hundredths: 10000 };
    assert_eq!(
        encode_snapshot_against(&snapshot_schema(), &snapshot),
        Ok(encode_snapshot(&snapshot))
    );
    assert_eq!(
        encode_snapshot_against(&purchase_schema(), &snapshot),
        Err(PipelineError::EncodingError)
    );
}
