//! The unit of vectorized processing: a named, equal-length set of
//! columns plus a schema and a shared row count. Blocks are immutable
//! once built; evaluation produces new blocks.

use vstd::prelude::*;

use crate::columns::DataArray;
use crate::columns::DataColumn;
use crate::error::ErrorCode;
use crate::error::ErrorKind;
use crate::schema::field_index;
use crate::schema::lemma_field_index_valid;
use crate::schema::DataSchema;
use crate::values::dv_eq;
use crate::values::DataValue;

verus! {

/// A named, equal-length set of columns plus a schema.
#[derive(Debug)]
pub struct DataBlock {
    schema: DataSchema,
    columns: Vec<DataColumn>,
    rows: usize,
}

impl DataBlock {
    pub closed spec fn spec_schema(&self) -> DataSchema {
        self.schema
    }

    pub closed spec fn cols(&self) -> Seq<DataColumn> {
        self.columns@
    }

    pub closed spec fn spec_rows(&self) -> nat {
        self.rows as nat
    }

    /// One column per schema field; every column well formed, as long
    /// as the row count, and of its field's declared type.
    pub open spec fn wf(&self) -> bool {
        &&& self.cols().len() == self.spec_schema().spec_fields().len()
        &&& forall|i: int|
            0 <= i < self.cols().len() ==> (#[trigger] self.cols()[i]).wf() && self.cols()[i]@.len()
                == self.spec_rows() && self.cols()[i].spec_data_type()
                == self.spec_schema().spec_fields()[i].spec_data_type()
    }

    /// Builds a block, checking that the columns fit the schema.
    #[verifier::loop_isolation(false)]
    pub fn create(schema: DataSchema, columns: Vec<DataColumn>, rows: usize) -> (res: Result<
        DataBlock,
        ErrorCode,
    >)
        requires
            forall|i: int| 0 <= i < columns@.len() ==> (#[trigger] columns@[i]).wf(),
        ensures
            (match res {
                Ok(b) => b.wf() && b.spec_schema() == schema && b.cols() == columns@
                    && b.spec_rows() == rows,
                Err(e) => !(columns@.len() == schema.spec_fields().len() && (forall|i: int|
                    0 <= i < columns@.len() ==> (#[trigger] columns@[i])@.len() == rows
                        && columns@[i].spec_data_type()
                        == schema.spec_fields()[i].spec_data_type())) && e.kind()
                    == ErrorKind::BadArguments,
            }),
    {
        if columns.len() != schema.num_fields() {
            return Err(
                ErrorCode::bad_arguments(
                    "the block needs exactly one column per schema field".to_owned(),
                ),
            );
        }
        let n = columns.len();
        for i in 0..n
            invariant
                forall|j: int|
                    0 <= j < i ==> (#[trigger] columns@[j])@.len() == rows
                        && columns@[j].spec_data_type()
                        == schema.spec_fields()[j].spec_data_type(),
        {
            if columns[i].len() != rows {
                return Err(
                    ErrorCode::bad_arguments(
                        "every column of a block must have the block's row count".to_owned(),
                    ),
                );
            }
            let ct = columns[i].data_type();
            if !ct.same_as(schema.field(i).data_type()) {
                return Err(
                    ErrorCode::bad_arguments(
                        "every column of a block must have its field's type".to_owned(),
                    ),
                );
            }
        }
        Ok(DataBlock { schema, columns, rows })
    }

    /// Builds a block of dense arrays, taking the row count from the
    /// first array.
    #[verifier::loop_isolation(false)]
    pub fn create_by_array(schema: DataSchema, arrays: Vec<DataArray>) -> (res: Result<
        DataBlock,
        ErrorCode,
    >)
        requires
            forall|i: int| 0 <= i < arrays@.len() ==> (#[trigger] arrays@[i]).wf(),
        ensures
            (match res {
                Ok(b) => b.wf() && b.spec_schema() == schema && b.cols().len() == arrays@.len()
                    && b.spec_rows() == (if arrays@.len() > 0 {
                    arrays@[0]@.len()
                } else {
                    0
                }) && (forall|i: int|
                    0 <= i < arrays@.len() ==> (#[trigger] b.cols()[i])@ == arrays@[i]@),
                Err(e) => !(arrays@.len() == schema.spec_fields().len() && (forall|i: int|
                    0 <= i < arrays@.len() ==> (#[trigger] arrays@[i])@.len() == arrays@[0]@.len()
                        && arrays@[i].spec_data_type()
                        == schema.spec_fields()[i].spec_data_type())) && e.kind()
                    == ErrorKind::BadArguments,
            }),
    {
        let ghost orig = arrays@;
        let rows: usize = if arrays.len() > 0 {
            arrays[0].len()
        } else {
            0
        };
        let mut columns: Vec<DataColumn> = Vec::new();
        let n = arrays.len();
        let mut arrays = arrays;
        for i in 0..n
            invariant
                orig.len() == n,
                arrays@ =~= orig.skip(i as int),
                columns@.len() == i,
                forall|j: int|
                    0 <= j < i ==> (#[trigger] columns@[j]) is Array && columns@[j].wf()
                        && columns@[j]@ == orig[j]@ && columns@[j].spec_data_type()
                        == orig[j].spec_data_type(),
        {
            let a = arrays.remove(0);
            proof {
                assert(orig.skip(i as int)[0] == orig[i as int]);
                assert(orig.skip(i as int).remove(0) =~= orig.skip(i + 1));
            }
            columns.push(DataColumn::Array(a));
        }
        Self::create(schema, columns, rows)
    }

    pub fn num_rows(&self) -> (n: usize)
        ensures
            n == self.spec_rows(),
    {
        self.rows
    }

    pub fn num_columns(&self) -> (n: usize)
        ensures
            n == self.cols().len(),
    {
        self.columns.len()
    }

    pub fn schema(&self) -> (s: &DataSchema)
        ensures
            *s == self.spec_schema(),
    {
        &self.schema
    }

    pub fn column(&self, i: usize) -> (c: &DataColumn)
        requires
            i < self.cols().len(),
        ensures
            *c == self.cols()[i as int],
    {
        &self.columns[i]
    }

    /// The column under the given field name, or a `BadArguments` error
    /// when the schema has no such field.
    pub fn try_column_by_name(&self, name: &String) -> (res: Result<&DataColumn, ErrorCode>)
        requires
            self.wf(),
        ensures
            (match res {
                Ok(c) => field_index(self.spec_schema().spec_fields(), name@) >= 0 && *c
                    == self.cols()[field_index(self.spec_schema().spec_fields(), name@)],
                Err(e) => field_index(self.spec_schema().spec_fields(), name@) < 0 && e.kind()
                    == ErrorKind::BadArguments,
            }),
    {
        match self.schema.index_of(name) {
            Some(i) => {
                proof {
                    lemma_field_index_valid(self.spec_schema().spec_fields(), name@);
                }
                Ok(&self.columns[i])
            },
            None => Err(
                ErrorCode::bad_arguments("the block has no column under that name".to_owned()),
            ),
        }
    }

    /// A new block holding, for every column, the rows picked by the
    /// given indices, in the given order.
    #[verifier::loop_isolation(false)]
    pub fn block_take_by_indices(block: &DataBlock, indices: &Vec<u32>) -> (res: Result<
        DataBlock,
        ErrorCode,
    >)
        requires
            block.wf(),
        ensures
            (match res {
                Ok(b) => {
                    &&& b.wf()
                    &&& forall|j: int|
                        0 <= j < indices@.len() ==> (#[trigger] indices@[j]) < block.spec_rows()
                    &&& b.spec_rows() == indices@.len()
                    &&& b.spec_schema().spec_fields().len()
                        == block.spec_schema().spec_fields().len()
                    &&& forall|c: int|
                        0 <= c < b.spec_schema().spec_fields().len() ==> (
                        #[trigger] b.spec_schema().spec_fields()[c]).spec_name()
                            == block.spec_schema().spec_fields()[c].spec_name()
                            && b.spec_schema().spec_fields()[c].spec_data_type()
                            == block.spec_schema().spec_fields()[c].spec_data_type()
                    &&& b.cols().len() == block.cols().len()
                    &&& forall|c: int, j: int|
                        0 <= c < b.cols().len() && 0 <= j < indices@.len() ==> dv_eq(
                            #[trigger] b.cols()[c]@[j],
                            block.cols()[c]@[indices@[j] as int],
                        )
                },
                Err(e) => (exists|j: int|
                    0 <= j < indices@.len() && (#[trigger] indices@[j]) >= block.spec_rows())
                    && e.kind() == ErrorKind::BadArguments,
            }),
    {
        let rows = block.num_rows();
        let k = indices.len();
        for j in 0..k
            invariant
                forall|j2: int| 0 <= j2 < j ==> (#[trigger] indices@[j2]) < block.spec_rows(),
        {
            if indices[j] as usize >= rows {
                return Err(
                    ErrorCode::bad_arguments("a take index lies beyond the block".to_owned()),
                );
            }
        }
        let n = block.columns.len();
        let mut out_cols: Vec<DataColumn> = Vec::new();
        for c in 0..n
            invariant
                out_cols@.len() == c,
                forall|c2: int|
                    0 <= c2 < c ==> (#[trigger] out_cols@[c2]).wf() && out_cols@[c2]@.len()
                        == indices@.len() && out_cols@[c2].spec_data_type()
                        == block.cols()[c2].spec_data_type(),
                forall|c2: int, j: int|
                    0 <= c2 < c && 0 <= j < indices@.len() ==> dv_eq(
                        #[trigger] out_cols@[c2]@[j],
                        block.cols()[c2]@[indices@[j] as int],
                    ),
        {
            let col = &block.columns[c];
            let mut values: Vec<DataValue> = Vec::new();
            for j in 0..k
                invariant
                    values@.len() == j,
                    forall|j2: int|
                        0 <= j2 < j ==> dv_eq(
                            #[trigger] values@[j2],
                            block.cols()[c as int]@[indices@[j2] as int],
                        ),
                    forall|j2: int|
                        0 <= j2 < j ==> (#[trigger] values@[j2]).spec_data_type()
                            == block.cols()[c as int].spec_data_type(),
            {
                let v = col.get(indices[j] as usize).duplicate();
                proof {
                    crate::values::lemma_dv_eq_same_type(
                        v,
                        block.cols()[c as int]@[indices@[j as int] as int],
                    );
                }
                values.push(v);
            }
            let arr = DataArray::from_values(col.data_type(), values);
            out_cols.push(DataColumn::Array(arr));
        }
        let out_schema = block.schema.duplicate();
        Ok(DataBlock { schema: out_schema, columns: out_cols, rows: k })
    }
}

} // verus!
