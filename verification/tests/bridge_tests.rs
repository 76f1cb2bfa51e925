use columnar_exchange::batch::{Batch, Column};
use columnar_exchange::bridge::{
    read_indices_bridge, read_range_bridge, stream_finish, stream_open, stream_step,
    stream_write_all, write_bridge,
};
use columnar_exchange::error::BridgeError;
use columnar_exchange::exchange::{
    export_batch, import_pairs, ArrayDescriptor, BufferSet, DescriptorPair,
};
use columnar_exchange::schema::{encode_schema, ColumnType, Field, Schema, SchemaDescriptor};

fn int_field(name: &str, nullable: bool) -> Field {
    Field { name: name.as_bytes().to_vec(), dtype: ColumnType::Int64, nullable }
}

fn str_field(name: &str, nullable: bool) -> Field {
    Field { name: name.as_bytes().to_vec(), dtype: ColumnType::Utf8, nullable }
}

fn id_name_schema() -> Schema {
    Schema { fields: vec![int_field("id", false), str_field("name", false)] }
}

fn id_name_batch(ids: Vec<i64>, names: Vec<&str>) -> Batch {
    let n = ids.len();
    Batch {
        schema: id_name_schema(),
        columns: vec![
            Column::Int64 { values: ids, validity: vec![true; n] },
            Column::Utf8 {
                values: names.into_iter().map(|s| s.as_bytes().to_vec()).collect(),
                validity: vec![true; n],
            },
        ],
        row_count: n,
    }
}

fn id_name_arrays(ids: Vec<i64>, names: Vec<&str>) -> Vec<ArrayDescriptor> {
    let n = ids.len();
    let mut data: Vec<u8> = Vec::new();
    let mut offsets: Vec<usize> = vec![0];
    for s in &names {
        data.extend_from_slice(s.as_bytes());
        offsets.push(data.len());
    }
    vec![
        ArrayDescriptor {
            length: n,
            null_count: 0,
            validity: None,
            buffers: BufferSet::Int64 { data: ids },
        },
        ArrayDescriptor {
            length: n,
            null_count: 0,
            validity: None,
            buffers: BufferSet::Utf8 { offsets, data },
        },
    ]
}

fn ids_of(b: &Batch) -> Vec<i64> {
    match &b.columns[0] {
        Column::Int64 { values, .. } => values.clone(),
        _ => panic!("expected integer column"),
    }
}

fn names_of(b: &Batch) -> Vec<String> {
    match &b.columns[1] {
        Column::Utf8 { values, .. } => {
            values.iter().map(|v| String::from_utf8(v.clone()).unwrap()).collect()
        },
        _ => panic!("expected string column"),
    }
}

fn id_name_descriptor() -> SchemaDescriptor {
    encode_schema(&id_name_schema())
}

#[test]
fn write_then_range_read_then_random_read() {
    let sd = id_name_descriptor();
    let arrays = id_name_arrays(vec![0, 1, 2], vec!["a", "b", "c"]);
    let dataset = write_bridge(&sd, &arrays).unwrap();
    assert_eq!(dataset.row_count, 3);

    let pairs = read_range_bridge(Some(&dataset), &sd, 1, 3).unwrap();
    assert_eq!(pairs.len(), 2);
    let got = import_pairs(&pairs).unwrap();
    assert_eq!(ids_of(&got), vec![1, 2]);
    assert_eq!(names_of(&got), vec!["b".to_string(), "c".to_string()]);

    let taken = read_indices_bridge(Some(&dataset), &sd, &vec![2, 0, 2]).unwrap();
    let got = import_pairs(&taken).unwrap();
    assert_eq!(ids_of(&got), vec![2, 0, 2]);
    assert_eq!(names_of(&got), vec!["c".to_string(), "a".to_string(), "c".to_string()]);
}

#[test]
fn range_read_returns_exactly_the_span() {
    let sd = id_name_descriptor();
    let dataset = id_name_batch(vec![10, 11, 12, 13, 14], vec!["p", "q", "r", "s", "t"]);
    for start in 0..=5usize {
        for end in start..=5usize {
            let pairs = read_range_bridge(Some(&dataset), &sd, start, end).unwrap();
            let got = import_pairs(&pairs).unwrap();
            assert_eq!(got.row_count, end - start);
            let expect: Vec<i64> = (start..end).map(|i| 10 + i as i64).collect();
            assert_eq!(ids_of(&got), expect);
        }
    }
}

#[test]
fn random_read_keeps_supplied_order_and_duplicates() {
    let sd = id_name_descriptor();
    let dataset = id_name_batch(vec![5, 6, 7, 8], vec!["e", "f", "g", "h"]);
    let idx: Vec<u32> = vec![3, 3, 0, 2, 0];
    let pairs = read_indices_bridge(Some(&dataset), &sd, &idx).unwrap();
    let got = import_pairs(&pairs).unwrap();
    assert_eq!(got.row_count, 5);
    assert_eq!(ids_of(&got), vec![8, 8, 5, 7, 5]);
    assert_eq!(
        names_of(&got),
        vec!["h".to_string(), "h".to_string(), "e".to_string(), "g".to_string(), "e".to_string()]
    );
}

#[test]
fn out_of_range_index_is_rejected() {
    let sd = id_name_descriptor();
    let dataset = id_name_batch(vec![1, 2, 3], vec!["a", "b", "c"]);
    assert_eq!(
        read_indices_bridge(Some(&dataset), &sd, &vec![0, 3]),
        Err(BridgeError::OutOfRangeAccess)
    );
    assert_eq!(
        read_range_bridge(Some(&dataset), &sd, 2, 4),
        Err(BridgeError::OutOfRangeAccess)
    );
}

#[test]
fn inverted_range_is_rejected_before_the_engine() {
    let sd = id_name_descriptor();
    let dataset = id_name_batch(vec![1, 2, 3], vec!["a", "b", "c"]);
    assert_eq!(read_range_bridge(Some(&dataset), &sd, 2, 1), Err(BridgeError::InvalidRange));
    // An inverted range is rejected even where its end would also be out
    // of range.
    assert_eq!(read_range_bridge(Some(&dataset), &sd, 9, 5), Err(BridgeError::InvalidRange));
}

#[test]
fn unresolved_path_and_schema_mismatch_fail_open() {
    let sd = id_name_descriptor();
    assert_eq!(read_range_bridge(None, &sd, 0, 0), Err(BridgeError::DatasetOpenError));
    let other = Schema { fields: vec![int_field("id", false)] };
    let dataset = Batch {
        schema: other.clone(),
        columns: vec![Column::Int64 { values: vec![1], validity: vec![true] }],
        row_count: 1,
    };
    assert_eq!(
        read_range_bridge(Some(&dataset), &sd, 0, 1),
        Err(BridgeError::DatasetOpenError)
    );
    assert_eq!(
        read_indices_bridge(None, &sd, &vec![0]),
        Err(BridgeError::DatasetOpenError)
    );
}

#[test]
fn streaming_write_sums_row_counts() {
    let batches = vec![
        export_batch(&id_name_batch(vec![0, 1], vec!["a", "b"])),
        export_batch(&id_name_batch(vec![2], vec!["c"])),
        export_batch(&id_name_batch(vec![3, 4, 5], vec!["d", "e", "f"])),
    ];
    let dataset = stream_write_all(&batches).unwrap();
    assert_eq!(dataset.row_count, 6);
    assert_eq!(ids_of(&dataset), vec![0, 1, 2, 3, 4, 5]);

    let sd = id_name_descriptor();
    let pairs = read_range_bridge(Some(&dataset), &sd, 0, 6).unwrap();
    let got = import_pairs(&pairs).unwrap();
    assert_eq!(got.row_count, 6);
    assert_eq!(
        names_of(&got),
        vec!["a", "b", "c", "d", "e", "f"].into_iter().map(String::from).collect::<Vec<_>>()
    );
}

#[test]
fn streaming_write_of_one_batch() {
    let batches = vec![export_batch(&id_name_batch(vec![42], vec!["x"]))];
    let dataset = stream_write_all(&batches).unwrap();
    assert_eq!(dataset.row_count, 1);
    assert_eq!(ids_of(&dataset), vec![42]);
}

#[test]
fn stream_rejects_schema_change() {
    let first = export_batch(&id_name_batch(vec![0], vec!["a"]));
    let w = stream_open(&first).unwrap();
    let other = Batch {
        schema: Schema { fields: vec![int_field("id", false)] },
        columns: vec![Column::Int64 { values: vec![1], validity: vec![true] }],
        row_count: 1,
    };
    let next = export_batch(&other);
    assert!(matches!(stream_step(w, &next), Err(BridgeError::HostCallbackError)));
}

#[test]
fn stream_rejects_malformed_producer_output() {
    let bad = vec![DescriptorPair {
        schema: columnar_exchange::schema::FieldDescriptor {
            format: vec![b'z'],
            name: b"id".to_vec(),
            nullable: false,
        },
        array: ArrayDescriptor {
            length: 1,
            null_count: 0,
            validity: None,
            buffers: BufferSet::Int64 { data: vec![1] },
        },
    }];
    assert!(matches!(stream_open(&bad), Err(BridgeError::HostCallbackError)));

    let first = export_batch(&id_name_batch(vec![0], vec!["a"]));
    let w = stream_open(&first).unwrap();
    assert!(matches!(stream_step(w, &bad), Err(BridgeError::HostCallbackError)));
}

#[test]
fn stream_finish_returns_written_rows() {
    let first = export_batch(&id_name_batch(vec![0, 1], vec!["a", "b"]));
    let w = stream_open(&first).unwrap();
    let next = export_batch(&id_name_batch(vec![2], vec!["c"]));
    let w = stream_step(w, &next).unwrap();
    let dataset = stream_finish(w);
    assert_eq!(dataset.row_count, 3);
    assert_eq!(ids_of(&dataset), vec![0, 1, 2]);
}

#[test]
fn write_bridge_rejects_undecodable_schema() {
    let sd = SchemaDescriptor {
        fields: vec![columnar_exchange::schema::FieldDescriptor {
            format: vec![b'q'],
            name: b"id".to_vec(),
            nullable: false,
        }],
    };
    let arrays = vec![ArrayDescriptor {
        length: 1,
        null_count: 0,
        validity: None,
        buffers: BufferSet::Int64 { data: vec![1] },
    }];
    assert_eq!(write_bridge(&sd, &arrays), Err(BridgeError::UnsupportedType));
}
