use vstd::prelude::*;

use crate::batch::{
    concat_batch, lemma_slice_wf, lemma_take_wf, slice_column, take_column, Batch, BatchModel,
    Column,
};
use crate::error::BridgeError;
use crate::exchange::{
    export_batch, import_batch, import_pairs, lemma_export_import_round_trip, spec_import_column,
    spec_pairs_batch, spec_pairs_prefix_ok, spec_pairs_row_count, spec_views, ArrayDescriptor,
    DescriptorPair, DescriptorPairModel,
};
use crate::schema::{
    copy_schema, decode_schema, schema_eq, spec_decode_field, FieldDescriptorModel, FieldModel,
    SchemaDescriptor,
};

verus! {

/// Every field of a boundary schema descriptor names a representable
/// logical type.
pub open spec fn spec_schema_decodes(sd: Seq<FieldDescriptorModel>) -> bool {
    forall|i: int| 0 <= i < sd.len() ==> spec_decode_field(#[trigger] sd[i]) is Some
}

/// The native schema a fully decodable boundary descriptor denotes.
pub open spec fn spec_decoded_schema(sd: Seq<FieldDescriptorModel>) -> Seq<FieldModel> {
    Seq::new(sd.len(), |i: int| spec_decode_field(sd[i])->Some_0)
}

/// The rows the engine's open call resolved for a path, when it resolved
/// any.
pub open spec fn spec_dataset_model(ds: Option<&Batch>) -> Option<BatchModel> {
    match ds {
        Some(d) => Some(d@),
        None => None,
    }
}

/// The outcome of a range read: decode the caller's schema, require an
/// opened dataset carrying that schema, reject an inverted range before
/// anything is read, reject a range end past the row count, and otherwise
/// return rows `start` to `end` in original order.
pub open spec fn spec_read_range(
    ds: Option<BatchModel>,
    sd: Seq<FieldDescriptorModel>,
    start: int,
    end: int,
) -> Result<BatchModel, BridgeError> {
    if !spec_schema_decodes(sd) {
        Err(BridgeError::UnsupportedType)
    } else {
        match ds {
            None => Err(BridgeError::DatasetOpenError),
            Some(d) => if d.schema != spec_decoded_schema(sd) {
                Err(BridgeError::DatasetOpenError)
            } else if start > end {
                Err(BridgeError::InvalidRange)
            } else if end > d.row_count {
                Err(BridgeError::OutOfRangeAccess)
            } else {
                Ok(d.slice_rows(start, end))
            },
        }
    }
}

/// The outcome of a random read: as the range read, but any index at or
/// past the row count is rejected, and otherwise one row is returned per
/// requested index, in the order the indices were supplied, duplicates
/// included.
pub open spec fn spec_read_indices(
    ds: Option<BatchModel>,
    sd: Seq<FieldDescriptorModel>,
    idx: Seq<u32>,
) -> Result<BatchModel, BridgeError> {
    if !spec_schema_decodes(sd) {
        Err(BridgeError::UnsupportedType)
    } else {
        match ds {
            None => Err(BridgeError::DatasetOpenError),
            Some(d) => if d.schema != spec_decoded_schema(sd) {
                Err(BridgeError::DatasetOpenError)
            } else if exists|i: int| 0 <= i < idx.len() && (#[trigger] idx[i]) as int >= d.row_count {
                Err(BridgeError::OutOfRangeAccess)
            } else {
                Ok(d.take_rows(idx))
            },
        }
    }
}

/// Range read entry point: reads rows `start` to `end` of the opened
/// dataset against the caller-supplied schema and exports the resulting
/// batch as descriptor pairs, one per column.
#[verifier::loop_isolation(false)]
#[verifier::rlimit(50)]
pub fn read_range_bridge(
    dataset: Option<&Batch>,
    sd: &SchemaDescriptor,
    start: usize,
    end: usize,
) -> (r: Result<Vec<DescriptorPair>, BridgeError>)
    requires
        dataset matches Some(d) ==> d@.wf(),
    ensures
        ({
            let outcome = spec_read_range(
                spec_dataset_model(dataset),
                sd@,
                start as int,
                end as int,
            );
            match r {
                Ok(pairs) => {
                    &&& outcome is Ok
                    &&& pairs@.len() == outcome->Ok_0.columns.len()
                    &&& spec_pairs_prefix_ok(spec_views(pairs@), pairs@.len() as int)
                    &&& spec_pairs_batch(spec_views(pairs@)) == outcome->Ok_0
                },
                Err(e) => outcome == Err::<BatchModel, BridgeError>(e),
            }
        }),
{
    let schema = match decode_schema(sd) {
        Ok(s) => s,
        Err(e) => {
            return Err(e);
        },
    };
    proof {
        assert forall|j: int| 0 <= j < sd@.len() implies spec_decode_field(
            #[trigger] sd@[j],
        ) is Some by {
            assert(spec_decode_field(sd@[j]) == Some(schema@[j]));
        }
        assert(schema@ =~= spec_decoded_schema(sd@));
    }
    let d = match dataset {
        Some(d) => d,
        None => {
            return Err(BridgeError::DatasetOpenError);
        },
    };
    if !schema_eq(&schema, &d.schema) {
        return Err(BridgeError::DatasetOpenError);
    }
    if start > end {
        return Err(BridgeError::InvalidRange);
    }
    if end > d.row_count {
        return Err(BridgeError::OutOfRangeAccess);
    }
    let mut cols: Vec<Column> = Vec::new();
    let mut i: usize = 0;
    while i < d.columns.len()
        invariant
            i <= d.columns@.len(),
            cols@.len() == i,
            forall|j: int|
                0 <= j < i ==> #[trigger] cols@[j]@ == d@.columns[j].slice_rows(
                    start as int,
                    end as int,
                ),
        decreases d.columns@.len() - i,
    {
        proof {
            assert(d@.columns[i as int] == d.columns@[i as int]@);
        }
        cols.push(slice_column(&d.columns[i], start, end));
        i = i + 1;
    }
    let sliced = Batch { schema: copy_schema(&d.schema), columns: cols, row_count: end - start };
    proof {
        assert(sliced@ =~= d@.slice_rows(start as int, end as int));
        lemma_slice_wf(d@, start as int, end as int);
    }
    let pairs = export_batch(&sliced);
    proof {
        assert forall|j: int| 0 <= j < pairs@.len() implies crate::exchange::spec_import_pair(
            #[trigger] spec_views(pairs@)[j],
        ) == Ok::<(FieldModel, crate::batch::ColumnModel), BridgeError>(
            (sliced@.schema[j], sliced@.columns[j]),
        ) && spec_views(pairs@)[j].array.length == sliced@.row_count by {
            assert(spec_views(pairs@)[j] == pairs@[j]@);
        }
        lemma_export_import_round_trip(sliced@, spec_views(pairs@));
    }
    Ok(pairs)
}

/// Random read entry point: reads one row per supplied index of the
/// opened dataset, in supplied order, and exports the resulting batch as
/// descriptor pairs, one per column.
#[verifier::loop_isolation(false)]
#[verifier::rlimit(50)]
pub fn read_indices_bridge(dataset: Option<&Batch>, sd: &SchemaDescriptor, indices: &Vec<u32>) -> (r:
    Result<Vec<DescriptorPair>, BridgeError>)
    requires
        dataset matches Some(d) ==> d@.wf(),
    ensures
        ({
            let outcome = spec_read_indices(spec_dataset_model(dataset), sd@, indices@);
            match r {
                Ok(pairs) => {
                    &&& outcome is Ok
                    &&& pairs@.len() == outcome->Ok_0.columns.len()
                    &&& spec_pairs_prefix_ok(spec_views(pairs@), pairs@.len() as int)
                    &&& spec_pairs_batch(spec_views(pairs@)) == outcome->Ok_0
                },
                Err(e) => outcome == Err::<BatchModel, BridgeError>(e),
            }
        }),
{
    let schema = match decode_schema(sd) {
        Ok(s) => s,
        Err(e) => {
            return Err(e);
        },
    };
    proof {
        assert forall|j: int| 0 <= j < sd@.len() implies spec_decode_field(
            #[trigger] sd@[j],
        ) is Some by {
            assert(spec_decode_field(sd@[j]) == Some(schema@[j]));
        }
        assert(schema@ =~= spec_decoded_schema(sd@));
    }
    let d = match dataset {
        Some(d) => d,
        None => {
            return Err(BridgeError::DatasetOpenError);
        },
    };
    if !schema_eq(&schema, &d.schema) {
        return Err(BridgeError::DatasetOpenError);
    }
    let mut i: usize = 0;
    while i < indices.len()
        invariant
            i <= indices@.len(),
            forall|j: int| 0 <= j < i ==> (#[trigger] indices@[j]) < d@.row_count,
        decreases indices@.len() - i,
    {
        if indices[i] as usize >= d.row_count {
            return Err(BridgeError::OutOfRangeAccess);
        }
        i = i + 1;
    }
    let mut cols: Vec<Column> = Vec::new();
    let mut i: usize = 0;
    while i < d.columns.len()
        invariant
            i <= d.columns@.len(),
            cols@.len() == i,
            forall|j: int| 0 <= j < i ==> #[trigger] cols@[j]@ == d@.columns[j].take_rows(indices@),
        decreases d.columns@.len() - i,
    {
        proof {
            assert(d@.columns[i as int] == d.columns@[i as int]@);
        }
        cols.push(take_column(&d.columns[i], indices));
        i = i + 1;
    }
    let taken = Batch { schema: copy_schema(&d.schema), columns: cols, row_count: indices.len() };
    proof {
        assert(taken@ =~= d@.take_rows(indices@));
        lemma_take_wf(d@, indices@);
    }
    let pairs = export_batch(&taken);
    proof {
        assert forall|j: int| 0 <= j < pairs@.len() implies crate::exchange::spec_import_pair(
            #[trigger] spec_views(pairs@)[j],
        ) == Ok::<(FieldModel, crate::batch::ColumnModel), BridgeError>(
            (taken@.schema[j], taken@.columns[j]),
        ) && spec_views(pairs@)[j].array.length == taken@.row_count by {
            assert(spec_views(pairs@)[j] == pairs@[j]@);
        }
        lemma_export_import_round_trip(taken@, spec_views(pairs@));
    }
    Ok(pairs)
}

/// Single write entry point: decodes the caller-supplied schema, imports
/// one batch under it, and returns the batch whose rows the finalized
/// dataset holds. Any failure aborts the whole write; the manifest is
/// finalized only after the write succeeds.
pub fn write_bridge(sd: &SchemaDescriptor, arrays: &Vec<ArrayDescriptor>) -> (r: Result<
    Batch,
    BridgeError,
>)
    ensures
        match r {
            Ok(d) => {
                &&& sd@.len() == arrays@.len()
                &&& d@.wf()
                &&& d@.schema == spec_decoded_schema(sd@)
                &&& d@.row_count == (if arrays@.len() == 0 {
                    0int
                } else {
                    arrays@[0]@.length
                })
                &&& forall|i: int|
                    0 <= i < sd@.len() ==> spec_import_column(arrays@[i]@, d@.schema[i]) == Ok::<
                        crate::batch::ColumnModel,
                        BridgeError,
                    >(#[trigger] d@.columns[i])
            },
            Err(e) => {
                ||| (e == BridgeError::UnsupportedType && exists|i: int|
                    0 <= i < sd@.len() && spec_decode_field(#[trigger] sd@[i]) is None)
                ||| ((forall|i: int|
                    0 <= i < sd@.len() ==> spec_decode_field(#[trigger] sd@[i]) is Some) && sd@.len()
                    != arrays@.len() && e == BridgeError::MalformedDescriptor)
                ||| ((forall|i: int|
                    0 <= i < sd@.len() ==> spec_decode_field(#[trigger] sd@[i]) is Some) && sd@.len()
                    == arrays@.len() && exists|i: int|
                    0 <= i < arrays@.len() && (spec_import_column(
                        #[trigger] arrays@[i]@,
                        spec_decode_field(sd@[i])->Some_0,
                    ) == Err::<crate::batch::ColumnModel, BridgeError>(e) || (spec_import_column(
                        arrays@[i]@,
                        spec_decode_field(sd@[i])->Some_0,
                    ) is Ok && e == BridgeError::MalformedDescriptor && arrays@[i]@.length
                        != arrays@[0]@.length)))
            },
        },
{
    let b = match import_batch(sd, arrays) {
        Ok(b) => b,
        Err(e) => {
            return Err(e);
        },
    };
    proof {
        assert(b@.schema =~= spec_decoded_schema(sd@));
    }
    Ok(b)
}

/// The state of one streaming write: the writer was opened on the first
/// produced batch's schema, and `written` holds every row written so far.
pub struct StreamWriter {
    pub written: Batch,
}

/// Opens a streaming write from the first produced batch: the batch's own
/// descriptor pairs determine the schema the writer is opened with. A
/// producer that hands over unusable pairs fails the stream.
pub fn stream_open(first: &Vec<DescriptorPair>) -> (r: Result<StreamWriter, BridgeError>)
    ensures
        match r {
            Ok(w) => {
                &&& spec_pairs_prefix_ok(spec_views(first@), first@.len() as int)
                &&& w.written@.wf()
                &&& w.written@ == spec_pairs_batch(spec_views(first@))
            },
            Err(e) => {
                &&& e == BridgeError::HostCallbackError
                &&& !spec_pairs_prefix_ok(spec_views(first@), first@.len() as int)
            },
        },
{
    match import_pairs(first) {
        Ok(b) => Ok(StreamWriter { written: b }),
        Err(_) => Err(BridgeError::HostCallbackError),
    }
}

/// Writes one more produced batch into the stream. A batch that does not
/// import, or whose schema differs from the first batch's, fails the
/// stream; on success the written rows grow by the batch's rows, in
/// order.
pub fn stream_step(w: StreamWriter, next: &Vec<DescriptorPair>) -> (r: Result<
    StreamWriter,
    BridgeError,
>)
    requires
        w.written@.wf(),
    ensures
        match r {
            Ok(w2) => {
                &&& spec_pairs_prefix_ok(spec_views(next@), next@.len() as int)
                &&& spec_pairs_batch(spec_views(next@)).schema == w.written@.schema
                &&& w2.written@.wf()
                &&& w2.written@.schema == w.written@.schema
                &&& w2.written@.row_count == w.written@.row_count + spec_pairs_row_count(
                    spec_views(next@),
                )
                &&& w2.written@.columns.len() == w.written@.columns.len()
                &&& forall|i: int|
                    0 <= i < w.written@.columns.len() ==> #[trigger] w2.written@.columns[i]
                        == w.written@.columns[i].concat_rows(
                        spec_pairs_batch(spec_views(next@)).columns[i],
                    )
            },
            Err(e) => {
                &&& e == BridgeError::HostCallbackError
                &&& !(spec_pairs_prefix_ok(spec_views(next@), next@.len() as int)
                    && spec_pairs_batch(spec_views(next@)).schema == w.written@.schema)
            },
        },
{
    let b = match import_pairs(next) {
        Ok(b) => b,
        Err(_) => {
            return Err(BridgeError::HostCallbackError);
        },
    };
    if !schema_eq(&b.schema, &w.written.schema) {
        return Err(BridgeError::HostCallbackError);
    }
    let merged = concat_batch(w.written, b);
    Ok(StreamWriter { written: merged })
}

/// Finalizes the stream: flushes and returns the batch whose rows the
/// finished dataset holds.
pub fn stream_finish(w: StreamWriter) -> (r: Batch)
    ensures
        r == w.written,
{
    w.written
}

/// The mathematical values of a sequence of produced pair batches.
pub open spec fn spec_stream_views(v: Seq<Vec<DescriptorPair>>) -> Seq<Seq<DescriptorPairModel>> {
    v.map_values(|p: Vec<DescriptorPair>| spec_views(p@))
}

/// Every produced batch before `n` imports and carries the first batch's
/// schema.
pub open spec fn spec_stream_ok(bs: Seq<Seq<DescriptorPairModel>>, n: int) -> bool {
    forall|i: int|
        0 <= i < n ==> spec_pairs_prefix_ok(#[trigger] bs[i], bs[i].len() as int)
            && spec_pairs_batch(bs[i]).schema == spec_pairs_batch(bs[0]).schema
}

/// The rows the first `n` produced batches declare, in sum.
pub open spec fn spec_stream_rows(bs: Seq<Seq<DescriptorPairModel>>, n: int) -> int
    decreases n,
{
    if n <= 0 {
        0
    } else {
        spec_stream_rows(bs, n - 1) + spec_pairs_row_count(bs[n - 1])
    }
}

/// Streaming write entry point over a fully produced stream: opens the
/// writer on the first batch, writes every further batch, and finalizes.
/// The finished dataset's row count is the sum of the produced batches'
/// row counts.
#[verifier::loop_isolation(false)]
#[verifier::rlimit(50)]
pub fn stream_write_all(batches: &Vec<Vec<DescriptorPair>>) -> (r: Result<Batch, BridgeError>)
    requires
        batches@.len() >= 1,
    ensures
        ({
            let bs = spec_stream_views(batches@);
            match r {
                Ok(d) => {
                    &&& spec_stream_ok(bs, bs.len() as int)
                    &&& d@.wf()
                    &&& d@.schema == spec_pairs_batch(bs[0]).schema
                    &&& d@.row_count == spec_stream_rows(bs, bs.len() as int)
                },
                Err(e) => {
                    &&& e == BridgeError::HostCallbackError
                    &&& !spec_stream_ok(bs, bs.len() as int)
                },
            }
        }),
{
    let ghost bs = spec_stream_views(batches@);
    proof {
        assert(bs[0] == spec_views(batches@[0]@));
    }
    let mut w = match stream_open(&batches[0]) {
        Ok(w) => w,
        Err(e) => {
            return Err(e);
        },
    };
    proof {
        assert(spec_stream_rows(bs, 0) == 0);
        assert(spec_stream_rows(bs, 1) == spec_pairs_row_count(bs[0]));
    }
    let mut i: usize = 1;
    while i < batches.len()
        invariant
            1 <= i <= batches@.len(),
            spec_stream_ok(bs, i as int),
            w.written@.wf(),
            w.written@.schema == spec_pairs_batch(bs[0]).schema,
            w.written@.row_count == spec_stream_rows(bs, i as int),
        decreases batches@.len() - i,
    {
        proof {
            assert(bs[i as int] == spec_views(batches@[i as int]@));
        }
        w = match stream_step(w, &batches[i]) {
            Ok(w2) => w2,
            Err(e) => {
                return Err(e);
            },
        };
        i = i + 1;
    }
    Ok(stream_finish(w))
}

} // verus!
