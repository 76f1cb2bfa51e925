use vstd::prelude::*;

use crate::batch::{Batch, BatchModel, Column, ColumnModel};
use crate::error::BridgeError;
use crate::schema::{
    spec_decode_field, ColumnType, Field, FieldDescriptor, FieldDescriptorModel, FieldModel,
};
use crate::util::{copy_vec, copy_vec_range};

verus! {

/// The typed buffers of one boundary array descriptor, already copied into
/// owned memory. A fixed-width column carries one data buffer; a
/// variable-length column carries an offsets buffer and a data buffer, with
/// element `i` stored at `data[offsets[i]..offsets[i + 1]]`.
#[derive(Debug, Clone, PartialEq, Eq)]
pub enum BufferSet {
    Int64 { data: Vec<i64> },
    Utf8 { offsets: Vec<usize>, data: Vec<u8> },
}

/// Mathematical value of a [`BufferSet`].
#[verifier::ext_equal]
pub enum BufferSetModel {
    Int64 { data: Seq<i64> },
    Utf8 { offsets: Seq<usize>, data: Seq<u8> },
}

impl View for BufferSet {
    type V = BufferSetModel;

    open spec fn view(&self) -> BufferSetModel {
        match *self {
            BufferSet::Int64 { ref data } => BufferSetModel::Int64 { data: data@ },
            BufferSet::Utf8 { ref offsets, ref data } => BufferSetModel::Utf8 {
                offsets: offsets@,
                data: data@,
            },
        }
    }
}

/// The boundary form of one column of one batch: declared row count, null
/// count, optional validity flags, and the typed buffers.
#[derive(Debug, Clone, PartialEq, Eq)]
pub struct ArrayDescriptor {
    /// Declared number of rows.
    pub length: usize,
    /// Declared number of nulls.
    pub null_count: usize,
    /// Validity flags, one per row, `true` marking a present value; absent
    /// when the producer wrote no validity buffer.
    pub validity: Option<Vec<bool>>,
    /// The typed data buffers.
    pub buffers: BufferSet,
}

/// The validity flags of a descriptor, as a mathematical value.
pub open spec fn spec_opt_flags(v: Option<Vec<bool>>) -> Option<Seq<bool>> {
    match v {
        Some(w) => Some(w@),
        None => None,
    }
}

/// Mathematical value of an [`ArrayDescriptor`].
#[verifier::ext_equal]
pub struct ArrayDescriptorModel {
    pub length: int,
    pub null_count: int,
    pub validity: Option<Seq<bool>>,
    pub buffers: BufferSetModel,
}

impl View for ArrayDescriptor {
    type V = ArrayDescriptorModel;

    open spec fn view(&self) -> ArrayDescriptorModel {
        ArrayDescriptorModel {
            length: self.length as int,
            null_count: self.null_count as int,
            validity: spec_opt_flags(self.validity),
            buffers: self.buffers@,
        }
    }
}

/// The unit exchanged across the boundary per column: the column's schema
/// descriptor beside its array descriptor.
#[derive(Debug, Clone, PartialEq, Eq)]
pub struct DescriptorPair {
    pub schema: FieldDescriptor,
    pub array: ArrayDescriptor,
}

/// Mathematical value of a [`DescriptorPair`].
#[verifier::ext_equal]
pub struct DescriptorPairModel {
    pub schema: FieldDescriptorModel,
    pub array: ArrayDescriptorModel,
}

impl View for DescriptorPair {
    type V = DescriptorPairModel;

    open spec fn view(&self) -> DescriptorPairModel {
        DescriptorPairModel { schema: self.schema@, array: self.array@ }
    }
}

/// The buffer kind agrees with the declared logical type.
pub open spec fn spec_buffers_match(d: ArrayDescriptorModel, t: ColumnType) -> bool {
    match (d.buffers, t) {
        (BufferSetModel::Int64 { .. }, ColumnType::Int64) => true,
        (BufferSetModel::Utf8 { .. }, ColumnType::Utf8) => true,
        _ => false,
    }
}

/// An offsets buffer is consistent with `n` rows over `data_len` bytes of
/// element data: one more offset than rows, starting at zero, monotone
/// nondecreasing, ending at the data buffer's length.
pub open spec fn spec_offsets_ok(offsets: Seq<usize>, n: int, data_len: int) -> bool {
    &&& n >= 0
    &&& offsets.len() == n + 1
    &&& offsets[0] == 0
    &&& forall|k: int| 0 <= k < n ==> (#[trigger] offsets[k]) <= offsets[k + 1]
    &&& offsets[n] == data_len
}

/// The buffer lengths agree with the declared row count.
pub open spec fn spec_lengths_ok(d: ArrayDescriptorModel) -> bool {
    match d.buffers {
        BufferSetModel::Int64 { data } => data.len() == d.length,
        BufferSetModel::Utf8 { offsets, data } => spec_offsets_ok(
            offsets,
            d.length,
            data.len() as int,
        ),
    }
}

/// The validity flags a column is reconstructed with. A nullable field
/// must carry a validity buffer of one flag per row; a non-nullable field
/// must carry none and its rows are all present.
pub open spec fn spec_build_validity(v: Option<Seq<bool>>, length: int, nullable: bool) -> Result<
    Seq<bool>,
    BridgeError,
> {
    if nullable {
        match v {
            None => Err(BridgeError::NullBitmapRequired),
            Some(w) => if w.len() == length {
                Ok(w)
            } else {
                Err(BridgeError::MalformedDescriptor)
            },
        }
    } else {
        match v {
            Some(_) => Err(BridgeError::MalformedDescriptor),
            None => Ok(Seq::new(length as nat, |i: int| true)),
        }
    }
}

/// The column value a well-formed descriptor denotes, given its validity
/// flags.
pub open spec fn spec_column_of(d: ArrayDescriptorModel, flags: Seq<bool>) -> ColumnModel {
    match d.buffers {
        BufferSetModel::Int64 { data } => ColumnModel::Int64 { values: data, validity: flags },
        BufferSetModel::Utf8 { offsets, data } => ColumnModel::Utf8 {
            values: Seq::new(
                d.length as nat,
                |i: int| data.subrange(offsets[i] as int, offsets[i + 1] as int),
            ),
            validity: flags,
        },
    }
}

/// Importing one column from its array descriptor under a decoded field:
/// the checks, in order, and the reconstructed column.
pub open spec fn spec_import_column(d: ArrayDescriptorModel, f: FieldModel) -> Result<
    ColumnModel,
    BridgeError,
> {
    if !(spec_buffers_match(d, f.dtype) && spec_lengths_ok(d)) {
        Err(BridgeError::MalformedDescriptor)
    } else {
        match spec_build_validity(d.validity, d.length, f.nullable) {
            Err(e) => Err(e),
            Ok(flags) => Ok(spec_column_of(d, flags)),
        }
    }
}

/// Importing one descriptor pair: decode the field, then import the column
/// under it.
pub open spec fn spec_import_pair(p: DescriptorPairModel) -> Result<
    (FieldModel, ColumnModel),
    BridgeError,
> {
    match spec_decode_field(p.schema) {
        None => Err(BridgeError::UnsupportedType),
        Some(f) => match spec_import_column(p.array, f) {
            Err(e) => Err(e),
            Ok(c) => Ok((f, c)),
        },
    }
}

/// Number of `false` flags: the nulls a validity buffer records.
pub open spec fn spec_invalid_count(flags: Seq<bool>) -> int
    decreases flags.len(),
{
    if flags.len() == 0 {
        0
    } else {
        spec_invalid_count(flags.drop_last()) + if flags.last() {
            0int
        } else {
            1int
        }
    }
}

/// A column imported successfully is well formed, carries the field's
/// type, and has one row per declared row.
pub proof fn lemma_import_column_wf(d: ArrayDescriptorModel, f: FieldModel)
    requires
        spec_import_column(d, f) is Ok,
    ensures
        spec_import_column(d, f)->Ok_0.wf(),
        spec_import_column(d, f)->Ok_0.dtype() == f.dtype,
        spec_import_column(d, f)->Ok_0.length() == d.length,
        !f.nullable ==> spec_import_column(d, f)->Ok_0.all_valid(),
{
}

/// In a monotone offsets buffer every earlier offset is at most every
/// later one.
pub proof fn lemma_offsets_mono(offsets: Seq<usize>, n: int, i: int, j: int)
    requires
        0 <= i <= j <= n,
        offsets.len() >= n + 1,
        forall|k: int| 0 <= k < n ==> (#[trigger] offsets[k]) <= offsets[k + 1],
    ensures
        offsets[i] <= offsets[j],
    decreases j - i,
{
    if i < j {
        lemma_offsets_mono(offsets, n, i + 1, j);
    }
}

/// Counts the nulls a validity buffer records.
fn count_invalid(flags: &Vec<bool>) -> (r: usize)
    ensures
        r as int == spec_invalid_count(flags@),
{
    let mut count: usize = 0;
    let mut i: usize = 0;
    while i < flags.len()
        invariant
            i <= flags@.len(),
            count <= i,
            count as int == spec_invalid_count(flags@.subrange(0, i as int)),
        decreases flags@.len() - i,
    {
        proof {
            assert(flags@.subrange(0, i + 1).drop_last() =~= flags@.subrange(0, i as int));
            assert(flags@.subrange(0, i + 1).last() == flags@[i as int]);
        }
        if !flags[i] {
            count = count + 1;
        }
        i = i + 1;
    }
    proof {
        assert(flags@.subrange(0, flags@.len() as int) =~= flags@);
    }
    count
}

/// Builds the validity flags of an imported column, enforcing the bitmap
/// rules of [`spec_build_validity`].
fn build_validity(v: &Option<Vec<bool>>, length: usize, nullable: bool) -> (r: Result<
    Vec<bool>,
    BridgeError,
>)
    ensures
        match r {
            Ok(flags) => spec_build_validity(spec_opt_flags(*v), length as int, nullable) == Ok::<
                Seq<bool>,
                BridgeError,
            >(flags@),
            Err(e) => spec_build_validity(spec_opt_flags(*v), length as int, nullable) == Err::<
                Seq<bool>,
                BridgeError,
            >(e),
        },
{
    if nullable {
        match v {
            None => Err(BridgeError::NullBitmapRequired),
            Some(w) => {
                if w.len() == length {
                    Ok(copy_vec(w))
                } else {
                    Err(BridgeError::MalformedDescriptor)
                }
            },
        }
    } else {
        match v {
            Some(_) => Err(BridgeError::MalformedDescriptor),
            None => {
                let mut flags: Vec<bool> = Vec::new();
                let mut i: usize = 0;
                while i < length
                    invariant
                        i <= length,
                        flags@.len() == i,
                        forall|j: int| 0 <= j < i ==> #[trigger] flags@[j] == true,
                    decreases length - i,
                {
                    flags.push(true);
                    i = i + 1;
                }
                proof {
                    assert(flags@ =~= Seq::new(length as nat, |i: int| true));
                }
                Ok(flags)
            },
        }
    }
}

/// Imports one column from its array descriptor under a decoded field,
/// validating buffer kind, buffer lengths and the validity bitmap against
/// the field, and copying the buffer contents into an owned column.
#[verifier::loop_isolation(false)]
#[verifier::rlimit(50)]
pub fn import_column(d: &ArrayDescriptor, f: &Field) -> (r: Result<Column, BridgeError>)
    ensures
        match r {
            Ok(c) => spec_import_column(d@, f@) == Ok::<ColumnModel, BridgeError>(c@),
            Err(e) => spec_import_column(d@, f@) == Err::<ColumnModel, BridgeError>(e),
        },
{
    match (&d.buffers, f.dtype) {
        (BufferSet::Int64 { data }, ColumnType::Int64) => {
            if data.len() != d.length {
                return Err(BridgeError::MalformedDescriptor);
            }
            let flags = match build_validity(&d.validity, d.length, f.nullable) {
                Ok(v) => v,
                Err(e) => {
                    return Err(e);
                },
            };
            let c = Column::Int64 { values: copy_vec(data), validity: flags };
            proof {
                assert(c@ =~= spec_column_of(d@, flags@));
            }
            Ok(c)
        },
        (BufferSet::Utf8 { offsets, data }, ColumnType::Utf8) => {
            if offsets.len() == 0 || offsets.len() - 1 != d.length {
                return Err(BridgeError::MalformedDescriptor);
            }
            if offsets[0] != 0 {
                return Err(BridgeError::MalformedDescriptor);
            }
            if offsets[d.length] != data.len() {
                return Err(BridgeError::MalformedDescriptor);
            }
            let mut i: usize = 0;
            while i < d.length
                invariant
                    i <= d.length,
                    offsets@.len() == d.length + 1,
                    forall|k: int| 0 <= k < i ==> (#[trigger] offsets@[k]) <= offsets@[k + 1],
                decreases d.length - i,
            {
                if offsets[i] > offsets[i + 1] {
                    return Err(BridgeError::MalformedDescriptor);
                }
                i = i + 1;
            }
            assert(spec_lengths_ok(d@));
            let flags = match build_validity(&d.validity, d.length, f.nullable) {
                Ok(v) => v,
                Err(e) => {
                    return Err(e);
                },
            };
            let mut vals: Vec<Vec<u8>> = Vec::new();
            let mut i: usize = 0;
            while i < d.length
                invariant
                    i <= d.length,
                    offsets@.len() == d.length + 1,
                    offsets@[d.length as int] == data@.len(),
                    forall|k: int|
                        0 <= k < d.length ==> (#[trigger] offsets@[k]) <= offsets@[k + 1],
                    vals@.len() == i,
                    forall|j: int|
                        0 <= j < i ==> #[trigger] vals@[j]@ == data@.subrange(
                            offsets@[j] as int,
                            offsets@[j + 1] as int,
                        ),
                decreases d.length - i,
            {
                proof {
                    lemma_offsets_mono(offsets@, d.length as int, i + 1, d.length as int);
                }
                let lo = offsets[i];
                let hi = offsets[i + 1];
                vals.push(copy_vec_range(data, lo, hi));
                i = i + 1;
            }
            let c = Column::Utf8 { values: vals, validity: flags };
            proof {
                assert(c@ =~= spec_column_of(d@, flags@));
            }
            Ok(c)
        },
        _ => Err(BridgeError::MalformedDescriptor),
    }
}

/// Serializes string rows into an offsets buffer and a data buffer, per
/// the interchange layout for variable-length types.
#[verifier::loop_isolation(false)]
#[verifier::rlimit(50)]
fn export_utf8_buffers(values: &Vec<Vec<u8>>) -> (r: (Vec<usize>, Vec<u8>))
    ensures
        spec_offsets_ok(r.0@, values@.len() as int, r.1@.len() as int),
        forall|j: int|
            0 <= j < values@.len() ==> #[trigger] r.1@.subrange(
                r.0@[j] as int,
                r.0@[j + 1] as int,
            ) == values@[j]@,
{
    let mut offsets: Vec<usize> = Vec::new();
    let mut data: Vec<u8> = Vec::new();
    offsets.push(0);
    let mut i: usize = 0;
    while i < values.len()
        invariant
            i <= values@.len(),
            offsets@.len() == i + 1,
            offsets@[0] == 0,
            offsets@[i as int] == data@.len(),
            forall|k: int| 0 <= k < i ==> (#[trigger] offsets@[k]) <= offsets@[k + 1],
            forall|j: int|
                0 <= j < i ==> #[trigger] data@.subrange(
                    offsets@[j] as int,
                    offsets@[j + 1] as int,
                ) == values@[j]@,
        decreases values@.len() - i,
    {
        let ghost data_before = data@;
        crate::util::append_bytes(&mut data, &values[i]);
        offsets.push(data.len());
        proof {
            assert forall|j: int| 0 <= j < i implies #[trigger] data@.subrange(
                offsets@[j] as int,
                offsets@[j + 1] as int,
            ) == values@[j]@ by {
                lemma_offsets_mono(offsets@, i as int, j + 1, i as int);
                assert(data@.subrange(offsets@[j] as int, offsets@[j + 1] as int)
                    =~= data_before.subrange(offsets@[j] as int, offsets@[j + 1] as int));
            }
            assert(data@.subrange(offsets@[i as int] as int, offsets@[i + 1] as int)
                =~= values@[i as int]@);
        }
        i = i + 1;
    }
    (offsets, data)
}

/// Serializes one column into a fresh array descriptor that imports back
/// to exactly the same column under the same field: buffer contents,
/// lengths, null count and validity flags are all carried across.
#[verifier::rlimit(100)]
pub fn export_column(f: &Field, c: &Column) -> (r: ArrayDescriptor)
    requires
        c@.wf(),
        c@.dtype() == f@.dtype,
        !f@.nullable ==> c@.all_valid(),
    ensures
        spec_import_column(r@, f@) == Ok::<ColumnModel, BridgeError>(c@),
        r@.length == c@.length(),
        r@.null_count == spec_invalid_count(c@.valid_flags()),
{
    match c {
        Column::Int64 { values, validity } => {
            let null_count = count_invalid(validity);
            let flags_out: Option<Vec<bool>> = if f.nullable {
                Some(copy_vec(validity))
            } else {
                None
            };
            let r = ArrayDescriptor {
                length: values.len(),
                null_count,
                validity: flags_out,
                buffers: BufferSet::Int64 { data: copy_vec(values) },
            };
            proof {
                let flags = spec_build_validity(r@.validity, r@.length, f@.nullable);
                assert(flags is Ok) by {
                    if !f@.nullable {
                        assert(r@.validity is None);
                    }
                }
                assert(flags->Ok_0 =~= validity@);
                assert(spec_column_of(r@, flags->Ok_0) =~= c@);
            }
            r
        },
        Column::Utf8 { values, validity } => {
            let null_count = count_invalid(validity);
            let flags_out: Option<Vec<bool>> = if f.nullable {
                Some(copy_vec(validity))
            } else {
                None
            };
            let (offsets, data) = export_utf8_buffers(values);
            let r = ArrayDescriptor {
                length: values.len(),
                null_count,
                validity: flags_out,
                buffers: BufferSet::Utf8 { offsets, data },
            };
            proof {
                assert(spec_lengths_ok(r@));
                let flags = spec_build_validity(r@.validity, r@.length, f@.nullable);
                assert(flags is Ok) by {
                    if !f@.nullable {
                        assert(r@.validity is None);
                    }
                }
                assert(flags->Ok_0 =~= validity@);
                assert(spec_column_of(r@, flags->Ok_0) =~= c@);
            }
            r
        },
    }
}

/// The mathematical values of a vector of descriptor pairs.
pub open spec fn spec_views(ps: Seq<DescriptorPair>) -> Seq<DescriptorPairModel> {
    ps.map_values(|p: DescriptorPair| p@)
}

/// Every pair before `n` imports successfully and declares the same row
/// count as pair zero.
pub open spec fn spec_pairs_prefix_ok(ps: Seq<DescriptorPairModel>, n: int) -> bool {
    forall|j: int|
        0 <= j < n ==> spec_import_pair(#[trigger] ps[j]) is Ok && ps[j].array.length
            == ps[0].array.length
}

/// The row count a pair sequence declares: that of its first pair, zero
/// when there is no column.
pub open spec fn spec_pairs_row_count(ps: Seq<DescriptorPairModel>) -> int {
    if ps.len() == 0 {
        0
    } else {
        ps[0].array.length
    }
}

/// The batch a fully importable pair sequence denotes: one schema field
/// and one column per pair, in pair order.
pub open spec fn spec_pairs_batch(ps: Seq<DescriptorPairModel>) -> BatchModel {
    BatchModel {
        schema: Seq::new(ps.len(), |i: int| spec_import_pair(ps[i])->Ok_0.0),
        columns: Seq::new(ps.len(), |i: int| spec_import_pair(ps[i])->Ok_0.1),
        row_count: spec_pairs_row_count(ps),
    }
}

/// Round trip: descriptor pairs that export a well-formed batch — one
/// importable pair per column, each declaring the batch's row count and
/// denoting the batch's field and column at its position — import back to
/// exactly that batch: same schema, same row count, same column order,
/// same element values and null positions.
pub proof fn lemma_export_import_round_trip(b: BatchModel, ps: Seq<DescriptorPairModel>)
    requires
        b.wf(),
        ps.len() == b.columns.len(),
        forall|i: int|
            0 <= i < ps.len() ==> spec_import_pair(#[trigger] ps[i]) == Ok::<
                (FieldModel, ColumnModel),
                BridgeError,
            >((b.schema[i], b.columns[i])),
        forall|i: int| 0 <= i < ps.len() ==> (#[trigger] ps[i]).array.length == b.row_count,
    ensures
        spec_pairs_prefix_ok(ps, ps.len() as int),
        spec_pairs_batch(ps) == b,
{
    assert(spec_pairs_batch(ps) =~= b);
}

/// Serializes a batch into one descriptor pair per column, in column
/// order: exactly the batch's column count, never a column dropped or
/// duplicated, and each pair imports back to the column it was made from.
#[verifier::loop_isolation(false)]
pub fn export_batch(b: &Batch) -> (r: Vec<DescriptorPair>)
    requires
        b@.wf(),
    ensures
        r@.len() == b@.columns.len(),
        forall|i: int|
            0 <= i < r@.len() ==> spec_import_pair(#[trigger] r@[i]@) == Ok::<
                (FieldModel, ColumnModel),
                BridgeError,
            >((b@.schema[i], b@.columns[i])),
        forall|i: int| 0 <= i < r@.len() ==> (#[trigger] r@[i]@).array.length == b@.row_count,
{
    let mut out: Vec<DescriptorPair> = Vec::new();
    let mut i: usize = 0;
    while i < b.columns.len()
        invariant
            i <= b.columns@.len(),
            out@.len() == i,
            forall|j: int|
                0 <= j < i ==> spec_import_pair(#[trigger] out@[j]@) == Ok::<
                    (FieldModel, ColumnModel),
                    BridgeError,
                >((b@.schema[j], b@.columns[j])),
            forall|j: int| 0 <= j < i ==> (#[trigger] out@[j]@).array.length == b@.row_count,
        decreases b.columns@.len() - i,
    {
        proof {
            assert(b@.columns[i as int] == b.columns@[i as int]@);
            assert(b@.schema[i as int] == b.schema.fields@[i as int]@);
        }
        let fd = crate::schema::encode_field(&b.schema.fields[i]);
        let ad = export_column(&b.schema.fields[i], &b.columns[i]);
        out.push(DescriptorPair { schema: fd, array: ad });
        i = i + 1;
    }
    out
}

/// Imports a batch from exported descriptor pairs: decodes each pair's
/// field, imports each column under it, and requires every pair to
/// declare one and the same row count. With no pairs at all the result is
/// the empty batch of zero rows.
#[verifier::loop_isolation(false)]
#[verifier::rlimit(50)]
pub fn import_pairs(pairs: &Vec<DescriptorPair>) -> (r: Result<Batch, BridgeError>)
    ensures
        match r {
            Ok(b) => {
                &&& spec_pairs_prefix_ok(spec_views(pairs@), pairs@.len() as int)
                &&& b@.wf()
                &&& b@ == spec_pairs_batch(spec_views(pairs@))
            },
            Err(e) => {
                &&& !spec_pairs_prefix_ok(spec_views(pairs@), pairs@.len() as int)
                &&& exists|i: int|
                    0 <= i < pairs@.len() && spec_pairs_prefix_ok(spec_views(pairs@), i) && (
                    spec_import_pair(#[trigger] pairs@[i]@) == Err::<
                        (FieldModel, ColumnModel),
                        BridgeError,
                    >(e) || (spec_import_pair(pairs@[i]@) is Ok && e
                        == BridgeError::MalformedDescriptor && pairs@[i]@.array.length
                        != pairs@[0]@.array.length))
            },
        },
{
    let row_count: usize = if pairs.len() == 0 {
        0
    } else {
        pairs[0].array.length
    };
    let mut fields: Vec<Field> = Vec::new();
    let mut cols: Vec<Column> = Vec::new();
    let mut i: usize = 0;
    while i < pairs.len()
        invariant
            i <= pairs@.len(),
            fields@.len() == i,
            cols@.len() == i,
            pairs@.len() > 0 ==> row_count as int == pairs@[0]@.array.length,
            forall|j: int|
                0 <= j < i ==> spec_import_pair(#[trigger] pairs@[j]@) == Ok::<
                    (FieldModel, ColumnModel),
                    BridgeError,
                >((fields@[j]@, cols@[j]@)),
            forall|j: int| 0 <= j < i ==> (#[trigger] pairs@[j]@).array.length == row_count as int,
        decreases pairs@.len() - i,
    {
        proof {
            assert(spec_views(pairs@)[i as int] == pairs@[i as int]@);
            assert(spec_pairs_prefix_ok(spec_views(pairs@), i as int));
        }
        let f = match crate::schema::decode_field(&pairs[i].schema) {
            Ok(f) => f,
            Err(e) => {
                return Err(e);
            },
        };
        let c = match import_column(&pairs[i].array, &f) {
            Ok(c) => c,
            Err(e) => {
                return Err(e);
            },
        };
        if pairs[i].array.length != row_count {
            return Err(BridgeError::MalformedDescriptor);
        }
        fields.push(f);
        cols.push(c);
        i = i + 1;
    }
    let b = Batch { schema: crate::schema::Schema { fields }, columns: cols, row_count };
    proof {
        assert forall|j: int| 0 <= j < b@.columns.len() implies {
            &&& (#[trigger] b@.columns[j]).wf()
            &&& b@.columns[j].length() == b@.row_count
            &&& b@.columns[j].dtype() == b@.schema[j].dtype
            &&& (!b@.schema[j].nullable ==> b@.columns[j].all_valid())
        } by {
            lemma_import_column_wf(pairs@[j]@.array, b@.schema[j]);
        }
        assert(b@.wf());
        assert(b@ =~= spec_pairs_batch(spec_views(pairs@)));
    }
    Ok(b)
}

/// Imports a batch from a caller-supplied schema descriptor and one array
/// descriptor per column, per the single-write entry layout: the whole
/// schema is decoded first, then every column is imported under its field
/// and checked to declare one and the same row count.
#[verifier::loop_isolation(false)]
#[verifier::rlimit(50)]
pub fn import_batch(sd: &crate::schema::SchemaDescriptor, arrays: &Vec<ArrayDescriptor>) -> (r:
    Result<Batch, BridgeError>)
    ensures
        match r {
            Ok(b) => {
                &&& sd@.len() == arrays@.len()
                &&& b@.wf()
                &&& b@.schema.len() == sd@.len()
                &&& b@.row_count == (if arrays@.len() == 0 {
                    0int
                } else {
                    arrays@[0]@.length
                })
                &&& forall|i: int|
                    0 <= i < sd@.len() ==> spec_decode_field(sd@[i]) == Some(#[trigger] b@.schema[i])
                &&& forall|i: int|
                    0 <= i < sd@.len() ==> spec_import_column(arrays@[i]@, b@.schema[i]) == Ok::<
                        ColumnModel,
                        BridgeError,
                    >(#[trigger] b@.columns[i])
            },
            Err(e) => {
                ||| (e == BridgeError::UnsupportedType && exists|i: int|
                    0 <= i < sd@.len() && spec_decode_field(#[trigger] sd@[i]) is None)
                ||| ((forall|i: int| 0 <= i < sd@.len() ==> spec_decode_field(#[trigger] sd@[i]) is Some)
                    && sd@.len() != arrays@.len() && e == BridgeError::MalformedDescriptor)
                ||| ((forall|i: int| 0 <= i < sd@.len() ==> spec_decode_field(#[trigger] sd@[i]) is Some)
                    && sd@.len() == arrays@.len() && exists|i: int|
                    0 <= i < arrays@.len() && (spec_import_column(
                        #[trigger] arrays@[i]@,
                        spec_decode_field(sd@[i])->Some_0,
                    ) == Err::<ColumnModel, BridgeError>(e) || (spec_import_column(
                        arrays@[i]@,
                        spec_decode_field(sd@[i])->Some_0,
                    ) is Ok && e == BridgeError::MalformedDescriptor && arrays@[i]@.length
                        != arrays@[0]@.length)))
            },
        },
{
    let s = match crate::schema::decode_schema(sd) {
        Ok(s) => s,
        Err(e) => {
            return Err(e);
        },
    };
    proof {
        assert forall|j: int| 0 <= j < sd@.len() implies spec_decode_field(
            #[trigger] sd@[j],
        ) is Some by {
            assert(spec_decode_field(sd@[j]) == Some(s@[j]));
        }
    }
    if s.fields.len() != arrays.len() {
        return Err(BridgeError::MalformedDescriptor);
    }
    let row_count: usize = if arrays.len() == 0 {
        0
    } else {
        arrays[0].length
    };
    let mut cols: Vec<Column> = Vec::new();
    let mut i: usize = 0;
    while i < arrays.len()
        invariant
            i <= arrays@.len(),
            cols@.len() == i,
            s.fields@.len() == arrays@.len(),
            s@.len() == sd@.len(),
            forall|j: int|
                0 <= j < sd@.len() ==> spec_decode_field(sd@[j]) == Some(#[trigger] s@[j]),
            arrays@.len() > 0 ==> row_count as int == arrays@[0]@.length,
            forall|j: int|
                0 <= j < i ==> spec_import_column(#[trigger] arrays@[j]@, s@[j]) == Ok::<
                    ColumnModel,
                    BridgeError,
                >(cols@[j]@),
            forall|j: int| 0 <= j < i ==> (#[trigger] arrays@[j]@).length == row_count as int,
        decreases arrays@.len() - i,
    {
        proof {
            assert(s@[i as int] == s.fields@[i as int]@);
            assert(spec_decode_field(sd@[i as int])->Some_0 == s@[i as int]);
        }
        let c = match import_column(&arrays[i], &s.fields[i]) {
            Ok(c) => c,
            Err(e) => {
                return Err(e);
            },
        };
        if arrays[i].length != row_count {
            proof {
                assert(spec_import_column(arrays@[i as int]@, s@[i as int]) is Ok);
            }
            return Err(BridgeError::MalformedDescriptor);
        }
        cols.push(c);
        i = i + 1;
    }
    let b = Batch { schema: s, columns: cols, row_count };
    proof {
        assert forall|j: int| 0 <= j < b@.columns.len() implies {
            &&& (#[trigger] b@.columns[j]).wf()
            &&& b@.columns[j].length() == b@.row_count
            &&& b@.columns[j].dtype() == b@.schema[j].dtype
            &&& (!b@.schema[j].nullable ==> b@.columns[j].all_valid())
        } by {
            lemma_import_column_wf(arrays@[j]@, b@.schema[j]);
        }
        assert(b@.wf());
    }
    Ok(b)
}

} // verus!
