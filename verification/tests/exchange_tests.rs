use columnar_exchange::batch::{Batch, Column};
use columnar_exchange::error::BridgeError;
use columnar_exchange::exchange::{
    export_column, import_batch, import_column, import_pairs, ArrayDescriptor, BufferSet,
    DescriptorPair,
};
use columnar_exchange::schema::{
    decode_field, decode_schema, encode_field, encode_schema, ColumnType, Field, FieldDescriptor,
    Schema, SchemaDescriptor, FORMAT_INT64, FORMAT_UTF8,
};

fn int_field(name: &str, nullable: bool) -> Field {
    Field { name: name.as_bytes().to_vec(), dtype: ColumnType::Int64, nullable }
}

fn str_field(name: &str, nullable: bool) -> Field {
    Field { name: name.as_bytes().to_vec(), dtype: ColumnType::Utf8, nullable }
}

fn int_column(values: Vec<i64>) -> Column {
    let validity = vec![true; values.len()];
    Column::Int64 { values, validity }
}

fn str_column(values: Vec<&str>) -> Column {
    let validity = vec![true; values.len()];
    Column::Utf8 { values: values.into_iter().map(|s| s.as_bytes().to_vec()).collect(), validity }
}

fn two_column_batch() -> Batch {
    Batch {
        schema: Schema { fields: vec![int_field("id", false), str_field("name", false)] },
        columns: vec![int_column(vec![0, 1, 2]), str_column(vec!["a", "b", "c"])],
        row_count: 3,
    }
}

#[test]
fn field_codec_round_trip() {
    let f = int_field("id", true);
    let d = encode_field(&f);
    assert_eq!(d.format, vec![FORMAT_INT64]);
    assert_eq!(d.name, b"id".to_vec());
    assert!(d.nullable);
    let back = decode_field(&d).unwrap();
    assert_eq!(back, f);
}

#[test]
fn unsupported_format_is_rejected() {
    let d = FieldDescriptor { format: vec![b'z'], name: b"x".to_vec(), nullable: false };
    assert_eq!(decode_field(&d), Err(BridgeError::UnsupportedType));
    let sd = SchemaDescriptor { fields: vec![d] };
    assert_eq!(decode_schema(&sd), Err(BridgeError::UnsupportedType));
}

#[test]
fn schema_codec_round_trip() {
    let s = Schema { fields: vec![int_field("id", false), str_field("name", true)] };
    let sd = encode_schema(&s);
    assert_eq!(sd.fields.len(), 2);
    assert_eq!(sd.fields[1].format, vec![FORMAT_UTF8]);
    let back = decode_schema(&sd).unwrap();
    assert_eq!(back, s);
}

#[test]
fn export_import_round_trip_all_types() {
    let b = two_column_batch();
    let pairs = export_column(&b.schema.fields[0], &b.columns[0]);
    let c0 = import_column(&pairs, &b.schema.fields[0]).unwrap();
    assert_eq!(c0, b.columns[0]);
    let ad = export_column(&b.schema.fields[1], &b.columns[1]);
    let c1 = import_column(&ad, &b.schema.fields[1]).unwrap();
    assert_eq!(c1, b.columns[1]);
}

#[test]
fn export_import_round_trip_batch_with_nulls() {
    let b = Batch {
        schema: Schema { fields: vec![int_field("id", true), str_field("name", true)] },
        columns: vec![
            Column::Int64 { values: vec![7, 0, 9], validity: vec![true, false, true] },
            Column::Utf8 {
                values: vec![b"x".to_vec(), b"".to_vec(), b"zzz".to_vec()],
                validity: vec![true, true, false],
            },
        ],
        row_count: 3,
    };
    let pairs = columnar_exchange::exchange::export_batch(&b);
    assert_eq!(pairs.len(), 2);
    let back = import_pairs(&pairs).unwrap();
    assert_eq!(back, b);
}

#[test]
fn export_counts_nulls() {
    let f = int_field("id", true);
    let c = Column::Int64 { values: vec![1, 2, 3, 4], validity: vec![false, true, false, true] };
    let d = export_column(&f, &c);
    assert_eq!(d.length, 4);
    assert_eq!(d.null_count, 2);
    assert!(d.validity.is_some());
}

#[test]
fn export_utf8_builds_offsets() {
    let f = str_field("name", false);
    let c = str_column(vec!["ab", "", "cde"]);
    let d = export_column(&f, &c);
    assert!(d.validity.is_none());
    match &d.buffers {
        BufferSet::Utf8 { offsets, data } => {
            assert_eq!(offsets, &vec![0usize, 2, 2, 5]);
            assert_eq!(data, &b"abcde".to_vec());
        },
        _ => panic!("expected string buffers"),
    }
}

#[test]
fn bitmap_on_non_nullable_field_is_malformed() {
    let f = int_field("id", false);
    let d = ArrayDescriptor {
        length: 1,
        null_count: 0,
        validity: Some(vec![true]),
        buffers: BufferSet::Int64 { data: vec![1] },
    };
    assert_eq!(import_column(&d, &f), Err(BridgeError::MalformedDescriptor));
}

#[test]
fn short_bitmap_is_malformed() {
    let f = int_field("id", true);
    let d = ArrayDescriptor {
        length: 2,
        null_count: 0,
        validity: Some(vec![true]),
        buffers: BufferSet::Int64 { data: vec![1, 2] },
    };
    assert_eq!(import_column(&d, &f), Err(BridgeError::MalformedDescriptor));
}

#[test]
fn export_zero_column_batch_yields_zero_pairs() {
    let b = Batch { schema: Schema { fields: vec![] }, columns: vec![], row_count: 0 };
    let pairs = columnar_exchange::exchange::export_batch(&b);
    assert_eq!(pairs.len(), 0);
    let back = import_pairs(&pairs).unwrap();
    assert_eq!(back.row_count, 0);
    assert_eq!(back.columns.len(), 0);
}

#[test]
fn wrong_buffer_kind_is_malformed() {
    let f = str_field("name", false);
    let d = ArrayDescriptor {
        length: 1,
        null_count: 0,
        validity: None,
        buffers: BufferSet::Int64 { data: vec![5] },
    };
    assert_eq!(import_column(&d, &f), Err(BridgeError::MalformedDescriptor));
}

#[test]
fn short_data_buffer_is_malformed() {
    let f = int_field("id", false);
    let d = ArrayDescriptor {
        length: 3,
        null_count: 0,
        validity: None,
        buffers: BufferSet::Int64 { data: vec![5] },
    };
    assert_eq!(import_column(&d, &f), Err(BridgeError::MalformedDescriptor));
}

#[test]
fn bad_offsets_are_malformed() {
    let f = str_field("name", false);
    let decreasing = ArrayDescriptor {
        length: 2,
        null_count: 0,
        validity: None,
        buffers: BufferSet::Utf8 { offsets: vec![0, 3, 2], data: b"abc".to_vec() },
    };
    assert_eq!(import_column(&decreasing, &f), Err(BridgeError::MalformedDescriptor));
    let wrong_end = ArrayDescriptor {
        length: 2,
        null_count: 0,
        validity: None,
        buffers: BufferSet::Utf8 { offsets: vec![0, 1, 2], data: b"abc".to_vec() },
    };
    assert_eq!(import_column(&wrong_end, &f), Err(BridgeError::MalformedDescriptor));
}

#[test]
fn nullable_field_requires_bitmap() {
    let f = int_field("id", true);
    let d = ArrayDescriptor {
        length: 2,
        null_count: 0,
        validity: None,
        buffers: BufferSet::Int64 { data: vec![1, 2] },
    };
    assert_eq!(import_column(&d, &f), Err(BridgeError::NullBitmapRequired));
}

#[test]
fn import_batch_checks_column_count_and_row_counts() {
    let sd = encode_schema(&Schema { fields: vec![int_field("id", false)] });
    let arrays: Vec<ArrayDescriptor> = vec![];
    assert_eq!(import_batch(&sd, &arrays), Err(BridgeError::MalformedDescriptor));

    let sd2 = encode_schema(
        &Schema { fields: vec![int_field("a", false), int_field("b", false)] },
    );
    let arrays2 = vec![
        ArrayDescriptor {
            length: 2,
            null_count: 0,
            validity: None,
            buffers: BufferSet::Int64 { data: vec![1, 2] },
        },
        ArrayDescriptor {
            length: 3,
            null_count: 0,
            validity: None,
            buffers: BufferSet::Int64 { data: vec![1, 2, 3] },
        },
    ];
    assert_eq!(import_batch(&sd2, &arrays2), Err(BridgeError::MalformedDescriptor));
}

#[test]
fn unequal_pair_row_counts_are_malformed() {
    let b = two_column_batch();
    let mut pairs = columnar_exchange::exchange::export_batch(&b);
    let short = Batch {
        schema: Schema { fields: vec![int_field("id", false)] },
        columns: vec![int_column(vec![9])],
        row_count: 1,
    };
    let extra = columnar_exchange::exchange::export_batch(&short);
    pairs.push(DescriptorPair {
        schema: extra[0].schema.clone(),
        array: extra[0].array.clone(),
    });
    assert_eq!(import_pairs(&pairs), Err(BridgeError::MalformedDescriptor));
}
