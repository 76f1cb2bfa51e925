use vstd::prelude::*;

use crate::schema::{ColumnType, FieldModel, Schema};
use crate::util::{copy_vec, copy_vec_range};

verus! {

/// One column of a batch: its element values together with a validity flag
/// per row (`true` marks a present value, `false` a null).
#[derive(Debug, Clone, PartialEq, Eq)]
pub enum Column {
    /// 64-bit signed integer column.
    Int64 { values: Vec<i64>, validity: Vec<bool> },
    /// Variable-length string column; each element is the bytes of one
    /// string.
    Utf8 { values: Vec<Vec<u8>>, validity: Vec<bool> },
}

/// Mathematical value of a [`Column`].
#[verifier::ext_equal]
pub enum ColumnModel {
    Int64 { values: Seq<i64>, validity: Seq<bool> },
    Utf8 { values: Seq<Seq<u8>>, validity: Seq<bool> },
}

impl View for Column {
    type V = ColumnModel;

    open spec fn view(&self) -> ColumnModel {
        match *self {
            Column::Int64 { ref values, ref validity } => ColumnModel::Int64 {
                values: values@,
                validity: validity@,
            },
            Column::Utf8 { ref values, ref validity } => ColumnModel::Utf8 {
                values: values@.map_values(|v: Vec<u8>| v@),
                validity: validity@,
            },
        }
    }
}

impl ColumnModel {
    /// Number of rows the column holds.
    pub open spec fn length(self) -> nat {
        match self {
            ColumnModel::Int64 { values, .. } => values.len(),
            ColumnModel::Utf8 { values, .. } => values.len(),
        }
    }

    /// The validity flags, one per row.
    pub open spec fn valid_flags(self) -> Seq<bool> {
        match self {
            ColumnModel::Int64 { validity, .. } => validity,
            ColumnModel::Utf8 { validity, .. } => validity,
        }
    }

    /// The logical type the column carries.
    pub open spec fn dtype(self) -> ColumnType {
        match self {
            ColumnModel::Int64 { .. } => ColumnType::Int64,
            ColumnModel::Utf8 { .. } => ColumnType::Utf8,
        }
    }

    /// The column carries one validity flag per row.
    pub open spec fn wf(self) -> bool {
        self.valid_flags().len() == self.length()
    }

    /// Every row holds a present value.
    pub open spec fn all_valid(self) -> bool {
        forall|i: int| 0 <= i < self.valid_flags().len() ==> self.valid_flags()[i]
    }

    /// The rows between `start` and `end`, in order.
    pub open spec fn slice_rows(self, start: int, end: int) -> ColumnModel {
        match self {
            ColumnModel::Int64 { values, validity } => ColumnModel::Int64 {
                values: values.subrange(start, end),
                validity: validity.subrange(start, end),
            },
            ColumnModel::Utf8 { values, validity } => ColumnModel::Utf8 {
                values: values.subrange(start, end),
                validity: validity.subrange(start, end),
            },
        }
    }

    /// One row per requested index, in the order the indices were supplied.
    pub open spec fn take_rows(self, idx: Seq<u32>) -> ColumnModel {
        match self {
            ColumnModel::Int64 { values, validity } => ColumnModel::Int64 {
                values: Seq::new(idx.len(), |i: int| values[idx[i] as int]),
                validity: Seq::new(idx.len(), |i: int| validity[idx[i] as int]),
            },
            ColumnModel::Utf8 { values, validity } => ColumnModel::Utf8 {
                values: Seq::new(idx.len(), |i: int| values[idx[i] as int]),
                validity: Seq::new(idx.len(), |i: int| validity[idx[i] as int]),
            },
        }
    }

    /// The rows of `self` followed by the rows of `other`.
    pub open spec fn concat_rows(self, other: ColumnModel) -> ColumnModel {
        match (self, other) {
            (
                ColumnModel::Int64 { values: a, validity: av },
                ColumnModel::Int64 { values: b, validity: bv },
            ) => ColumnModel::Int64 { values: a + b, validity: av + bv },
            (
                ColumnModel::Utf8 { values: a, validity: av },
                ColumnModel::Utf8 { values: b, validity: bv },
            ) => ColumnModel::Utf8 { values: a + b, validity: av + bv },
            (a, _) => a,
        }
    }
}

/// An ordered, named set of equal-length columns sharing one schema.
#[derive(Debug, Clone, PartialEq, Eq)]
pub struct Batch {
    /// The schema; field order equals column order.
    pub schema: Schema,
    /// The columns, one per schema field.
    pub columns: Vec<Column>,
    /// The declared number of rows.
    pub row_count: usize,
}

/// Mathematical value of a [`Batch`].
#[verifier::ext_equal]
pub struct BatchModel {
    pub schema: Seq<FieldModel>,
    pub columns: Seq<ColumnModel>,
    pub row_count: int,
}

impl View for Batch {
    type V = BatchModel;

    open spec fn view(&self) -> BatchModel {
        BatchModel {
            schema: self.schema@,
            columns: self.columns@.map_values(|c: Column| c@),
            row_count: self.row_count as int,
        }
    }
}

impl BatchModel {
    /// The batch invariant: one column per schema field, every column's
    /// physical length equals the declared row count, every column's type
    /// matches its field, a non-nullable field holds no nulls, and a batch
    /// with no columns declares zero rows.
    pub open spec fn wf(self) -> bool {
        &&& self.columns.len() == self.schema.len()
        &&& self.row_count >= 0
        &&& (self.schema.len() == 0 ==> self.row_count == 0)
        &&& forall|i: int|
            0 <= i < self.columns.len() ==> {
                &&& (#[trigger] self.columns[i]).wf()
                &&& self.columns[i].length() == self.row_count
                &&& self.columns[i].dtype() == self.schema[i].dtype
                &&& (!self.schema[i].nullable ==> self.columns[i].all_valid())
            }
    }

    /// The batch holding rows `start` to `end` of `self`, all columns
    /// sliced alike.
    pub open spec fn slice_rows(self, start: int, end: int) -> BatchModel {
        BatchModel {
            schema: self.schema,
            columns: self.columns.map_values(|c: ColumnModel| c.slice_rows(start, end)),
            row_count: end - start,
        }
    }

    /// The batch holding one row of `self` per requested index, in the
    /// order the indices were supplied.
    pub open spec fn take_rows(self, idx: Seq<u32>) -> BatchModel {
        BatchModel {
            schema: self.schema,
            columns: self.columns.map_values(|c: ColumnModel| c.take_rows(idx)),
            row_count: idx.len() as int,
        }
    }
}

/// Slicing a well-formed batch to a valid row range keeps it well formed.
pub proof fn lemma_slice_wf(b: BatchModel, start: int, end: int)
    requires
        b.wf(),
        0 <= start <= end <= b.row_count,
    ensures
        b.slice_rows(start, end).wf(),
{
    let s = b.slice_rows(start, end);
    assert forall|i: int| 0 <= i < s.columns.len() implies {
        &&& (#[trigger] s.columns[i]).wf()
        &&& s.columns[i].length() == s.row_count
        &&& s.columns[i].dtype() == s.schema[i].dtype
        &&& (!s.schema[i].nullable ==> s.columns[i].all_valid())
    } by {
        assert(s.columns[i] == b.columns[i].slice_rows(start, end));
        assert(b.columns[i].wf());
        if !s.schema[i].nullable {
            assert forall|k: int|
                0 <= k < s.columns[i].valid_flags().len() implies s.columns[i].valid_flags()[k] by {
                assert(s.columns[i].valid_flags()[k] == b.columns[i].valid_flags()[start + k]);
            }
        }
    }
}

/// Gathering in-range rows of a well-formed batch keeps it well formed.
pub proof fn lemma_take_wf(b: BatchModel, idx: Seq<u32>)
    requires
        b.wf(),
        forall|i: int| 0 <= i < idx.len() ==> (#[trigger] idx[i]) < b.row_count,
    ensures
        b.take_rows(idx).wf(),
{
    let t = b.take_rows(idx);
    if b.schema.len() == 0 && idx.len() > 0 {
        assert(idx[0] < b.row_count);
        assert(false);
    }
    assert forall|i: int| 0 <= i < t.columns.len() implies {
        &&& (#[trigger] t.columns[i]).wf()
        &&& t.columns[i].length() == t.row_count
        &&& t.columns[i].dtype() == t.schema[i].dtype
        &&& (!t.schema[i].nullable ==> t.columns[i].all_valid())
    } by {
        assert(t.columns[i] == b.columns[i].take_rows(idx));
        assert(b.columns[i].wf());
        if !t.schema[i].nullable {
            assert forall|k: int|
                0 <= k < t.columns[i].valid_flags().len() implies t.columns[i].valid_flags()[k] by {
                assert(t.columns[i].valid_flags()[k] == b.columns[i].valid_flags()[idx[k] as int]);
            }
        }
    }
}

/// The number of rows a column holds.
pub fn column_len(c: &Column) -> (r: usize)
    ensures
        r as int == c@.length(),
{
    match c {
        Column::Int64 { values, .. } => values.len(),
        Column::Utf8 { values, .. } => values.len(),
    }
}

/// Copies the rows of one column between `start` and `end` into a fresh
/// column.
pub fn slice_column(c: &Column, start: usize, end: usize) -> (r: Column)
    requires
        c@.wf(),
        start <= end <= c@.length(),
    ensures
        r@ == c@.slice_rows(start as int, end as int),
{
    match c {
        Column::Int64 { values, validity } => {
            let r = Column::Int64 {
                values: copy_vec_range(values, start, end),
                validity: copy_vec_range(validity, start, end),
            };
            proof {
                assert(r@ =~= c@.slice_rows(start as int, end as int));
            }
            r
        },
        Column::Utf8 { values, validity } => {
            let mut out: Vec<Vec<u8>> = Vec::new();
            let mut i: usize = start;
            while i < end
                invariant
                    start <= i <= end <= values@.len(),
                    out@.len() == i - start,
                    forall|j: int| 0 <= j < i - start ==> #[trigger] out@[j]@ == values@[start + j]@,
                decreases end - i,
            {
                out.push(copy_vec(&values[i]));
                i = i + 1;
            }
            let r = Column::Utf8 { values: out, validity: copy_vec_range(validity, start, end) };
            proof {
                assert(r@ =~= c@.slice_rows(start as int, end as int)) by {
                    assert(out@.map_values(|v: Vec<u8>| v@) =~= values@.map_values(
                        |v: Vec<u8>| v@,
                    ).subrange(start as int, end as int));
                }
            }
            r
        },
    }
}

/// Gathers the rows of one column at the supplied indices, in supplied
/// order; indices may repeat.
pub fn take_column(c: &Column, idx: &Vec<u32>) -> (r: Column)
    requires
        c@.wf(),
        forall|i: int| 0 <= i < idx@.len() ==> (#[trigger] idx@[i]) < c@.length(),
    ensures
        r@ == c@.take_rows(idx@),
{
    match c {
        Column::Int64 { values, validity } => {
            let mut vals: Vec<i64> = Vec::new();
            let mut flags: Vec<bool> = Vec::new();
            let mut i: usize = 0;
            while i < idx.len()
                invariant
                    i <= idx@.len(),
                    c@.wf(),
                    c@ == (ColumnModel::Int64 { values: values@, validity: validity@ }),
                    forall|k: int| 0 <= k < idx@.len() ==> (#[trigger] idx@[k]) < values@.len(),
                    vals@.len() == i,
                    flags@.len() == i,
                    forall|j: int| 0 <= j < i ==> #[trigger] vals@[j] == values@[idx@[j] as int],
                    forall|j: int| 0 <= j < i ==> #[trigger] flags@[j] == validity@[idx@[j] as int],
                decreases idx@.len() - i,
            {
                let k = idx[i] as usize;
                vals.push(values[k]);
                flags.push(validity[k]);
                i = i + 1;
            }
            let r = Column::Int64 { values: vals, validity: flags };
            proof {
                assert(r@ =~= c@.take_rows(idx@));
            }
            r
        },
        Column::Utf8 { values, validity } => {
            let mut vals: Vec<Vec<u8>> = Vec::new();
            let mut flags: Vec<bool> = Vec::new();
            let mut i: usize = 0;
            while i < idx.len()
                invariant
                    i <= idx@.len(),
                    c@.wf(),
                    forall|k: int| 0 <= k < idx@.len() ==> (#[trigger] idx@[k]) < values@.len(),
                    validity@.len() == values@.len(),
                    vals@.len() == i,
                    flags@.len() == i,
                    forall|j: int| 0 <= j < i ==> #[trigger] vals@[j]@ == values@[idx@[j] as int]@,
                    forall|j: int| 0 <= j < i ==> #[trigger] flags@[j] == validity@[idx@[j] as int],
                decreases idx@.len() - i,
            {
                let k = idx[i] as usize;
                vals.push(copy_vec(&values[k]));
                flags.push(validity[k]);
                i = i + 1;
            }
            let r = Column::Utf8 { values: vals, validity: flags };
            proof {
                assert(r@ =~= c@.take_rows(idx@)) by {
                    assert(vals@.map_values(|v: Vec<u8>| v@) =~= Seq::new(
                        idx@.len(),
                        |i: int| values@.map_values(|v: Vec<u8>| v@)[idx@[i] as int],
                    ));
                }
            }
            r
        },
    }
}

/// Appends the rows of `next` to `base`, column by column: the batch a
/// writer holds after one more write.
#[verifier::loop_isolation(false)]
#[verifier::rlimit(50)]
pub fn concat_batch(base: Batch, next: Batch) -> (r: Batch)
    requires
        base@.wf(),
        next@.wf(),
        base@.schema == next@.schema,
    ensures
        r@.wf(),
        r@.schema == base@.schema,
        r@.row_count == base@.row_count + next@.row_count,
        r@.columns.len() == base@.columns.len(),
        forall|i: int|
            0 <= i < base@.columns.len() ==> #[trigger] r@.columns[i] == base@.columns[
                i
            ].concat_rows(next@.columns[i]),
{
    let ghost gbase = base@;
    let ghost gnext = next@;
    let Batch { schema, columns: mut bcols, row_count: _ } = base;
    let Batch { schema: _, columns: mut ncols, row_count: _ } = next;
    let mut merged: Vec<Column> = Vec::new();
    while bcols.len() > 0
        invariant
            bcols@.len() == ncols@.len(),
            merged@.len() + bcols@.len() == gbase.columns.len(),
            forall|j: int|
                0 <= j < bcols@.len() ==> #[trigger] bcols@[j]@ == gbase.columns[merged@.len() + j],
            forall|j: int|
                0 <= j < ncols@.len() ==> #[trigger] ncols@[j]@ == gnext.columns[merged@.len() + j],
            forall|j: int|
                0 <= j < merged@.len() ==> #[trigger] merged@[j]@ == gbase.columns[j].concat_rows(
                    gnext.columns[j],
                ),
        decreases bcols@.len(),
    {
        let ghost k = merged@.len() as int;
        let c = bcols.remove(0);
        let n = ncols.remove(0);
        proof {
            assert(c@ == gbase.columns[k]);
            assert(n@ == gnext.columns[k]);
            assert(gbase.schema[k] == gnext.schema[k]);
        }
        let m = concat_column(c, &n);
        merged.push(m);
    }
    let row_count: usize = if merged.len() == 0 {
        0
    } else {
        column_len(&merged[0])
    };
    let r = Batch { schema, columns: merged, row_count };
    proof {
        assert forall|i: int| 0 <= i < r@.columns.len() implies {
            &&& (#[trigger] r@.columns[i]).wf()
            &&& r@.columns[i].length() == r@.row_count
            &&& r@.columns[i].dtype() == r@.schema[i].dtype
            &&& (!r@.schema[i].nullable ==> r@.columns[i].all_valid())
        } by {
            assert(r@.columns[i] == gbase.columns[i].concat_rows(gnext.columns[i]));
        }
        assert(r@.wf());
    }
    r
}

/// The rows of `base` followed by the rows of `next`; both columns must
/// carry the same logical type.
pub fn concat_column(base: Column, next: &Column) -> (r: Column)
    requires
        base@.wf(),
        next@.wf(),
        base@.dtype() == next@.dtype(),
    ensures
        r@ == base@.concat_rows(next@),
{
    let ghost gbase = base@;
    match base {
        Column::Int64 { mut values, mut validity } => {
            match next {
                Column::Int64 { values: nv, validity: nf } => {
                    let ghost bvals = values@;
                    let ghost bflags = validity@;
                    let mut i: usize = 0;
                    while i < nv.len()
                        invariant
                            i <= nv@.len(),
                            nf@.len() == nv@.len(),
                            values@ == bvals + nv@.subrange(0, i as int),
                            validity@ == bflags + nf@.subrange(0, i as int),
                        decreases nv@.len() - i,
                    {
                        values.push(nv[i]);
                        validity.push(nf[i]);
                        proof {
                            assert(values@ =~= bvals + nv@.subrange(0, i + 1));
                            assert(validity@ =~= bflags + nf@.subrange(0, i + 1));
                        }
                        i = i + 1;
                    }
                    proof {
                        assert(nv@.subrange(0, nv@.len() as int) =~= nv@);
                        assert(nf@.subrange(0, nv@.len() as int) =~= nf@);
                    }
                    let r = Column::Int64 { values, validity };
                    proof {
                        assert(r@ =~= gbase.concat_rows(next@));
                    }
                    r
                },
                _ => {
                    proof {
                        assert(false);
                    }
                    Column::Int64 { values, validity }
                },
            }
        },
        Column::Utf8 { mut values, mut validity } => {
            match next {
                Column::Utf8 { values: nv, validity: nf } => {
                    let ghost bvals = values@.map_values(|v: Vec<u8>| v@);
                    let ghost bflags = validity@;
                    let mut i: usize = 0;
                    while i < nv.len()
                        invariant
                            i <= nv@.len(),
                            nf@.len() == nv@.len(),
                            values@.len() == bvals.len() + i,
                            forall|j: int| 0 <= j < bvals.len() ==> #[trigger] values@[j]@ == bvals[j],
                            forall|j: int|
                                bvals.len() <= j < bvals.len() + i ==> #[trigger] values@[j]@
                                    == nv@[j - bvals.len()]@,
                            validity@ == bflags + nf@.subrange(0, i as int),
                        decreases nv@.len() - i,
                    {
                        values.push(copy_vec(&nv[i]));
                        validity.push(nf[i]);
                        proof {
                            assert(validity@ =~= bflags + nf@.subrange(0, i + 1));
                        }
                        i = i + 1;
                    }
                    proof {
                        assert(values@.map_values(|v: Vec<u8>| v@) =~= bvals + nv@.map_values(
                            |v: Vec<u8>| v@,
                        ));
                        assert(nf@.subrange(0, nv@.len() as int) =~= nf@);
                    }
                    let r = Column::Utf8 { values, validity };
                    proof {
                        assert(r@ =~= gbase.concat_rows(next@));
                    }
                    r
                },
                _ => {
                    proof {
                        assert(false);
                    }
                    Column::Utf8 { values, validity }
                },
            }
        },
    }
}

} // verus!


