//! The null/constant evaluation adapter: wraps any scalar function to
//! add null passthrough (an all-null argument type short-circuits; a
//! row with a missing argument yields a missing result) and constant
//! passthrough (all-constant arguments are evaluated once over one row
//! and the single result re-broadcast), without each function
//! re-implementing either behaviour.

use vstd::prelude::*;

use crate::columns::null_count_of;
use crate::columns::DataColumn;
use crate::error::ErrorCode;
use crate::functions::bidx;
use crate::functions::eval_ok;
use crate::functions::eval_post;
use crate::functions::spec_null_of;
use crate::functions::FunctionImpl;
use crate::schema::DataField;
use crate::values::dv_eq;
use crate::values::DataType;
use crate::values::DataValue;

verus! {

/// Whether some argument column has the all-null type.
pub open spec fn any_null_typed(cols: Seq<DataColumn>) -> bool {
    exists|k: int| 0 <= k < cols.len() && (#[trigger] cols[k]).spec_data_type() == DataType::Null
}

/// Whether some argument column carries a missing value anywhere.
pub open spec fn any_has_null(cols: Seq<DataColumn>) -> bool {
    exists|k: int| 0 <= k < cols.len() && null_count_of((#[trigger] cols[k])@) > 0
}

/// Whether some argument is missing at one row, under the broadcast
/// reading.
pub open spec fn arg_null_at(cols: Seq<DataColumn>, i: int) -> bool {
    exists|k: int|
        0 <= k < cols.len() && (crate::kernel::col_single(#[trigger] cols[k]) || i
            < cols[k]@.len()) && bidx(cols[k], i).spec_is_null()
}

/// Whether every argument column is a constant.
pub open spec fn all_const(cols: Seq<DataColumn>) -> bool {
    forall|k: int| 0 <= k < cols.len() ==> (#[trigger] cols[k]) is Constant
}

/// What stands at one cell of a stripped column: a missing value is
/// replaced by some present value of the column's type, a present one
/// kept.
pub open spec fn strip_cell_ok(s: DataValue, v: DataValue, t: DataType) -> bool {
    if v.spec_is_null() {
        !s.spec_is_null() && s.spec_data_type() == t
    } else {
        dv_eq(s, v)
    }
}

/// A stripped copy of the argument columns: same shapes, lengths and
/// types, every missing cell replaced by a present placeholder.
pub open spec fn stripped_of(orig: Seq<DataColumn>, s: Seq<DataColumn>) -> bool {
    &&& s.len() == orig.len()
    &&& forall|k: int| 0 <= k < orig.len() ==> (#[trigger] s[k]).wf()
    &&& forall|k: int| 0 <= k < orig.len() ==> ((#[trigger] s[k]) is Constant <==> orig[k] is Constant)
    &&& forall|k: int| 0 <= k < orig.len() ==> (#[trigger] s[k])@.len() == orig[k]@.len()
    &&& forall|k: int|
        0 <= k < orig.len() ==> (#[trigger] s[k]).spec_data_type() == orig[k].spec_data_type()
    &&& forall|k: int, i: int|
        0 <= k < orig.len() && 0 <= i < orig[k]@.len() ==> strip_cell_ok(
            #[trigger] s[k]@[i],
            orig[k]@[i],
            orig[k].spec_data_type(),
        )
}

/// One merged output cell of the null-stripping path: missing where
/// any argument was missing at the row or the inner function itself
/// reported a missing result, the inner function's value elsewhere.
pub open spec fn merge_cell(v: DataValue, t: DataType, cols: Seq<DataColumn>, i: int) -> DataValue {
    if arg_null_at(cols, i) || v.spec_is_null() {
        spec_null_of(t)
    } else {
        v
    }
}

/// One admissible account of a null-stripping evaluation: a stripped
/// copy `scols` of the arguments, the inner function's output `ic` on
/// it over the same row count, and the output `out` merging `ic` with
/// the arguments' missing cells, row for row.
pub open spec fn stripped_merge_ok(
    f: FunctionImpl,
    cols: Seq<DataColumn>,
    rows: nat,
    scols: Seq<DataColumn>,
    ic: DataColumn,
    out: DataColumn,
) -> bool {
    &&& stripped_of(cols, scols)
    &&& eval_ok(f, scols, rows)
    &&& ic.wf()
    &&& eval_post(f, scols, rows, ic@)
    &&& out.spec_data_type() == ic.spec_data_type()
    &&& out@.len() == ic@.len()
    &&& forall|i: int|
        0 <= i < ic@.len() ==> dv_eq(
            #[trigger] out@[i],
            merge_cell(ic@[i], ic.spec_data_type(), cols, i),
        )
}

/// One-row copies of constant argument columns: each carries the same
/// single value over a logical length of one.
pub open spec fn one_rows_of(orig: Seq<DataColumn>, s: Seq<DataColumn>) -> bool {
    &&& s.len() == orig.len()
    &&& forall|k: int|
        0 <= k < orig.len() ==> ((#[trigger] s[k]) matches DataColumn::Constant(w, m) && m == 1 && (
        orig[k] matches DataColumn::Constant(v, _) && dv_eq(w, v)))
}

/// One admissible account of a constant-path evaluation: one-row
/// copies `ocols` of the constant arguments, the inner function's
/// output `ic` on them over one row, and the output `out`
/// re-broadcasting the single result over the input row count (an
/// output of another length stands unchanged).
pub open spec fn constant_rebroadcast_ok(
    f: FunctionImpl,
    cols: Seq<DataColumn>,
    rows: nat,
    ocols: Seq<DataColumn>,
    ic: DataColumn,
    out: DataColumn,
) -> bool {
    &&& one_rows_of(cols, ocols)
    &&& eval_ok(f, ocols, 1)
    &&& ic.wf()
    &&& eval_post(f, ocols, 1, ic@)
    &&& if ic@.len() == 1 {
        out is Constant && out@.len() == rows && out.spec_data_type() == ic.spec_data_type() && (
        forall|i: int| 0 <= i < rows ==> dv_eq(#[trigger] out@[i], ic@[0]))
    } else {
        out == ic
    }
}

/// Appending a column to the arguments extends the missing-at-row
/// test by exactly that column's contribution.
proof fn lemma_arg_null_at_push(s: Seq<DataColumn>, c: DataColumn, i: int)
    ensures
        arg_null_at(s.push(c), i) == (arg_null_at(s, i) || ((crate::kernel::col_single(c) || i
            < c@.len()) && bidx(c, i).spec_is_null())),
{
    if arg_null_at(s.push(c), i) {
        let k = choose|k: int|
            0 <= k < s.push(c).len() && (crate::kernel::col_single(#[trigger] s.push(c)[k]) || i
                < s.push(c)[k]@.len()) && bidx(s.push(c)[k], i).spec_is_null();
        if k < s.len() {
            assert(s.push(c)[k] == s[k]);
            assert(arg_null_at(s, i));
        } else {
            assert(s.push(c)[k] == c);
        }
    }
    if arg_null_at(s, i) {
        let k = choose|k: int|
            0 <= k < s.len() && (crate::kernel::col_single(#[trigger] s[k]) || i < s[k]@.len())
                && bidx(s[k], i).spec_is_null();
        assert(s.push(c)[k] == s[k]);
        assert(arg_null_at(s.push(c), i));
    }
    if (crate::kernel::col_single(c) || i < c@.len()) && bidx(c, i).spec_is_null() {
        assert(s.push(c)[s.len() as int] == c);
        assert(arg_null_at(s.push(c), i));
    }
}

/// A present placeholder of each type, put where a stripped missing
/// value stood; the merged validity makes the placeholder invisible.
pub fn default_value_of(t: &DataType) -> (v: DataValue)
    requires
        *t != DataType::Null,
    ensures
        !v.spec_is_null(),
        v.spec_data_type() == *t,
{
    match t {
        DataType::Null => {
            proof {
                assert(false);
            }
            DataValue::Boolean(Some(false))
        },
        DataType::Boolean => DataValue::Boolean(Some(false)),
        DataType::Int8 => DataValue::Int8(Some(0)),
        DataType::Int16 => DataValue::Int16(Some(0)),
        DataType::Int32 => DataValue::Int32(Some(0)),
        DataType::Int64 => DataValue::Int64(Some(0)),
        DataType::UInt8 => DataValue::UInt8(Some(0)),
        DataType::UInt16 => DataValue::UInt16(Some(0)),
        DataType::UInt32 => DataValue::UInt32(Some(0)),
        DataType::UInt64 => DataValue::UInt64(Some(0)),
        DataType::Utf8 => DataValue::Utf8(Some(String::new())),
        DataType::Binary => DataValue::Binary(Some(Vec::new())),
        DataType::Date32 => DataValue::Date32(Some(0)),
        DataType::Date64 => DataValue::Date64(Some(0)),
        DataType::List(inner) => DataValue::List(Some(Vec::new()), inner.duplicate()),
    }
}

/// The wrapper that adds the two passthrough behaviours around one
/// inner function.
#[derive(Debug)]
pub struct Function2Adapter {
    inner: FunctionImpl,
}

impl Function2Adapter {
    pub closed spec fn spec_inner(&self) -> FunctionImpl {
        self.inner
    }

    /// Wraps a function in the adapter.
    pub fn create(inner: FunctionImpl) -> (a: Function2Adapter)
        ensures
            a.spec_inner() == inner,
    {
        Function2Adapter { inner }
    }

    pub fn inner_function(&self) -> (f: &FunctionImpl)
        ensures
            *f == self.spec_inner(),
    {
        &self.inner
    }

    pub fn name(&self) -> (r: String) {
        self.inner.name()
    }

    pub fn display_string(&self) -> (r: String) {
        self.inner.display_string()
    }

    pub fn passthrough_null(&self) -> (r: bool)
        ensures
            r == self.spec_inner().spec_passthrough_null(),
    {
        self.inner.passthrough_null()
    }

    pub fn passthrough_constant(&self) -> (r: bool)
        ensures
            r == self.spec_inner().spec_passthrough_constant(),
    {
        self.inner.passthrough_constant()
    }

    /// The statically resolved return type over an argument schema:
    /// under null passthrough an all-null argument type makes the
    /// result all-null; otherwise the inner function's type stands.
    #[verifier::loop_isolation(false)]
    pub fn return_type(&self, args: &Vec<DataField>) -> (res: Result<DataType, ErrorCode>)
        ensures
            (match res {
                Ok(t) => if self.spec_inner().spec_passthrough_null() && (exists|k: int|
                    0 <= k < args@.len() && (#[trigger] args@[k]).spec_data_type()
                        == DataType::Null) {
                    t == DataType::Null
                } else {
                    t == self.spec_inner().spec_return_type()
                },
                Err(_) => false,
            }),
    {
        if self.inner.passthrough_null() {
            let n = args.len();
            for k in 0..n
                invariant
                    forall|k2: int|
                        0 <= k2 < k ==> (#[trigger] args@[k2]).spec_data_type() != DataType::Null,
            {
                if matches!(args[k].data_type(), DataType::Null) {
                    return Ok(DataType::Null);
                }
            }
        }
        self.inner.return_type()
    }

    /// The statically resolved nullability over an argument schema:
    /// under null passthrough the result is nullable when any argument
    /// is; otherwise the inner function's own nullability stands.
    #[verifier::loop_isolation(false)]
    pub fn nullable(&self, args: &Vec<DataField>) -> (res: Result<bool, ErrorCode>)
        ensures
            (match res {
                Ok(n) => if self.spec_inner().spec_passthrough_null() && (exists|k: int|
                    0 <= k < args@.len() && ((#[trigger] args@[k]).spec_data_type()
                        == DataType::Null || args@[k].spec_nullable())) {
                    n
                } else {
                    n == self.spec_inner().spec_nullable()
                },
                Err(_) => false,
            }),
    {
        if self.inner.passthrough_null() {
            let n = args.len();
            for k in 0..n
                invariant
                    forall|k2: int|
                        0 <= k2 < k ==> (#[trigger] args@[k2]).spec_data_type() != DataType::Null
                            && !args@[k2].spec_nullable(),
            {
                if matches!(args[k].data_type(), DataType::Null) || args[k].is_nullable() {
                    return Ok(true);
                }
            }
        }
        self.inner.nullable()
    }

    /// Evaluates the wrapped function. Under null passthrough, an
    /// all-null argument type yields an all-null column, and a row at
    /// which any argument is missing yields a missing result at that
    /// row, whatever the remaining arguments hold. Under constant
    /// passthrough, all-constant arguments are evaluated once over one
    /// row and the result re-broadcast. Failure conditions are the
    /// wrapped function's own, raised against the arguments it is
    /// finally handed.
    #[verifier::loop_isolation(false)]
    pub fn eval(&self, columns: &Vec<DataColumn>, input_rows: usize) -> (res: Result<
        DataColumn,
        ErrorCode,
    >)
        requires
            forall|k: int| 0 <= k < columns@.len() ==> (#[trigger] columns@[k]).wf(),
        ensures
            (match res {
                Ok(out) => {
                    &&& out.wf()
                    &&& (self.spec_inner().spec_passthrough_null() && columns@.len() > 0
                        && any_null_typed(columns@) ==> out@ == Seq::new(
                        input_rows as nat,
                        |i: int| DataValue::Null,
                    ))
                    &&& (self.spec_inner().spec_passthrough_null() && columns@.len() > 0
                        && !any_null_typed(columns@) && any_has_null(columns@) ==> (forall|i: int|
                        0 <= i < out@.len() && arg_null_at(columns@, i) ==> (
                        #[trigger] out@[i]).spec_is_null()) && (exists|
                        scols: Seq<DataColumn>,
                        ic: DataColumn,
                    | stripped_merge_ok(
                        self.spec_inner(),
                        columns@,
                        input_rows as nat,
                        scols,
                        ic,
                        out,
                    )))
                    &&& (columns@.len() > 0 && (!self.spec_inner().spec_passthrough_null()
                        || !any_has_null(columns@) && !any_null_typed(columns@))
                        && self.spec_inner().spec_passthrough_constant() && all_const(columns@)
                        ==> (exists|ocols: Seq<DataColumn>, ic: DataColumn|
                        constant_rebroadcast_ok(
                            self.spec_inner(),
                            columns@,
                            input_rows as nat,
                            ocols,
                            ic,
                            out,
                        )))
                    &&& ((columns@.len() == 0 || ((!self.spec_inner().spec_passthrough_null()
                        || !any_has_null(columns@) && !any_null_typed(columns@)) && (
                    !self.spec_inner().spec_passthrough_constant() || !all_const(columns@))))
                        ==> eval_ok(self.spec_inner(), columns@, input_rows as nat) && eval_post(
                        self.spec_inner(),
                        columns@,
                        input_rows as nat,
                        out@,
                    ))
                },
                Err(_) => {
                    &&& ((columns@.len() == 0 || ((!self.spec_inner().spec_passthrough_null()
                        || !any_has_null(columns@) && !any_null_typed(columns@)) && (
                    !self.spec_inner().spec_passthrough_constant() || !all_const(columns@))))
                        ==> !eval_ok(self.spec_inner(), columns@, input_rows as nat))
                    &&& (self.spec_inner().spec_passthrough_null() && columns@.len() > 0
                        && !any_null_typed(columns@) && any_has_null(columns@) ==> (exists|
                        scols: Seq<DataColumn>,
                    | stripped_of(columns@, scols) && !eval_ok(
                        self.spec_inner(),
                        scols,
                        input_rows as nat,
                    )))
                    &&& (columns@.len() > 0 && (!self.spec_inner().spec_passthrough_null()
                        || !any_has_null(columns@) && !any_null_typed(columns@))
                        && self.spec_inner().spec_passthrough_constant() && all_const(columns@)
                        ==> (exists|ocols: Seq<DataColumn>|
                        one_rows_of(columns@, ocols) && !eval_ok(self.spec_inner(), ocols, 1)))
                },
            }),
    {
        if columns.len() == 0 {
            return self.inner.eval(columns, input_rows);
        }
        if self.inner.passthrough_null() {
            // An all-null argument type short-circuits to an all-null
            // result of the statically resolved (all-null) type.
            let n = columns.len();
            let mut saw_null_typed = false;
            for k in 0..n
                invariant
                    saw_null_typed == (exists|k2: int|
                        0 <= k2 < k && (#[trigger] columns@[k2]).spec_data_type()
                            == DataType::Null),
            {
                if matches!(columns[k].data_type(), DataType::Null) {
                    saw_null_typed = true;
                }
            }
            if saw_null_typed {
                proof {
                    assert(Seq::new(input_rows as nat, |i: int| DataValue::Null)
                        =~= DataColumn::Constant(DataValue::Null, input_rows)@);
                }
                return Ok(DataColumn::Constant(DataValue::Null, input_rows));
            }
            let mut saw_nulls = false;
            for k in 0..n
                invariant
                    saw_nulls == (exists|k2: int|
                        0 <= k2 < k && null_count_of((#[trigger] columns@[k2])@) > 0),
            {
                if columns[k].null_count() > 0 {
                    saw_nulls = true;
                }
            }
            if saw_nulls {
                return self.eval_stripped(columns, input_rows);
            }
        }
        if self.inner.passthrough_constant() {
            let n = columns.len();
            let mut every_const = true;
            for k in 0..n
                invariant
                    every_const == (forall|k2: int|
                        0 <= k2 < k ==> (#[trigger] columns@[k2]) is Constant),
            {
                if !columns[k].is_const() {
                    every_const = false;
                }
            }
            if every_const {
                return self.eval_constant(columns, input_rows);
            }
        }
        self.inner.eval(columns, input_rows)
    }

    /// The null-stripping path: every missing argument cell is replaced
    /// by a present placeholder, the inner function is evaluated on the
    /// stripped columns, and every row at which any argument was
    /// missing (or the inner function itself reported a missing
    /// result) is made missing in the output.
    #[verifier::loop_isolation(false)]
    fn eval_stripped(&self, columns: &Vec<DataColumn>, input_rows: usize) -> (res: Result<
        DataColumn,
        ErrorCode,
    >)
        requires
            forall|k: int| 0 <= k < columns@.len() ==> (#[trigger] columns@[k]).wf(),
            !any_null_typed(columns@),
            columns@.len() > 0,
        ensures
            (match res {
                Ok(out) => {
                    &&& out.wf()
                    &&& (forall|i: int|
                        0 <= i < out@.len() && arg_null_at(columns@, i) ==> (
                        #[trigger] out@[i]).spec_is_null())
                    &&& exists|scols: Seq<DataColumn>, ic: DataColumn| stripped_merge_ok(
                        self.spec_inner(),
                        columns@,
                        input_rows as nat,
                        scols,
                        ic,
                        out,
                    )
                },
                Err(_) => exists|scols: Seq<DataColumn>|
                    stripped_of(columns@, scols) && !eval_ok(
                        self.spec_inner(),
                        scols,
                        input_rows as nat,
                    ),
            }),
    {
        let n = columns.len();
        let mut stripped: Vec<DataColumn> = Vec::new();
        for k in 0..n
            invariant
                stripped@.len() == k,
                forall|k2: int| 0 <= k2 < k ==> (#[trigger] stripped@[k2]).wf(),
                forall|k2: int| 0 <= k2 < k ==> (#[trigger] stripped@[k2])@.len() == columns@[k2]@.len(),
                forall|k2: int|
                    0 <= k2 < k ==> ((#[trigger] stripped@[k2]) is Constant <==> columns@[k2] is Constant),
                forall|k2: int|
                    0 <= k2 < k ==> (#[trigger] stripped@[k2]).spec_data_type()
                        == columns@[k2].spec_data_type(),
                forall|k2: int, i: int|
                    0 <= k2 < k && 0 <= i < columns@[k2]@.len() ==> strip_cell_ok(
                        #[trigger] stripped@[k2]@[i],
                        columns@[k2]@[i],
                        columns@[k2].spec_data_type(),
                    ),
        {
            let col = &columns[k];
            proof {
                assert(columns@[k as int].spec_data_type() != DataType::Null);
            }
            let t = col.data_type();
            match col {
                DataColumn::Constant(v, len) => {
                    if v.is_null() {
                        let d = default_value_of(&t);
                        stripped.push(DataColumn::Constant(d, *len));
                    } else {
                        let d = crate::columns::duplicate_column(col);
                        proof {
                            crate::values::lemma_dv_eq_refl(*v);
                        }
                        stripped.push(d);
                    }
                },
                DataColumn::Array(a) => {
                    let m = a.len();
                    let mut cells: Vec<DataValue> = Vec::new();
                    for i in 0..m
                        invariant
                            cells@.len() == i,
                            forall|j: int|
                                0 <= j < i ==> (#[trigger] cells@[j]).spec_data_type()
                                    == a.spec_data_type(),
                            forall|j: int|
                                0 <= j < i ==> strip_cell_ok(
                                    #[trigger] cells@[j],
                                    a@[j],
                                    a.spec_data_type(),
                                ),
                    {
                        let cell = a.get(i);
                        if cell.is_null() {
                            let d = default_value_of(&t);
                            cells.push(d);
                        } else {
                            let d = cell.duplicate();
                            proof {
                                crate::values::lemma_dv_eq_same_type(d, a@[i as int]);
                            }
                            cells.push(d);
                        }
                    }
                    stripped.push(
                        DataColumn::Array(
                            crate::columns::DataArray::from_values(t, cells),
                        ),
                    );
                },
            }
        }
        proof {
            assert(stripped_of(columns@, stripped@));
        }
        let inner_out = match self.inner.eval(&stripped, input_rows) {
            Ok(c) => c,
            Err(e) => {
                proof {
                    assert(stripped_of(columns@, stripped@) && !eval_ok(
                        self.spec_inner(),
                        stripped@,
                        input_rows as nat,
                    ));
                }
                return Err(e);
            },
        };
        let ghost scols = stripped@;
        let rt = inner_out.data_type();
        let m = inner_out.len();
        let mut cells: Vec<DataValue> = Vec::new();
        for i in 0..m
            invariant
                cells@.len() == i,
                forall|j: int|
                    0 <= j < i && arg_null_at(columns@, j) ==> (
                    #[trigger] cells@[j]).spec_is_null(),
                forall|j: int|
                    0 <= j < i ==> (#[trigger] cells@[j]).spec_data_type()
                        == inner_out.spec_data_type(),
                forall|j: int|
                    0 <= j < i ==> dv_eq(
                        #[trigger] cells@[j],
                        merge_cell(inner_out@[j], inner_out.spec_data_type(), columns@, j),
                    ),
        {
            let mut make_null = inner_out.get(i).is_null();
            proof {
                assert(columns@.subrange(0, 0) =~= Seq::<DataColumn>::empty());
                assert(!arg_null_at(columns@.subrange(0, 0), i as int));
            }
            for k in 0..n
                invariant
                    make_null == (arg_null_at(columns@.subrange(0, k as int), i as int)
                        || inner_out@[i as int].spec_is_null()),
            {
                let col = &columns[k];
                let single = col.is_const() && col.len() > 0 || col.len() == 1;
                let within = {
                    let cl = col.len();
                    i < cl
                };
                proof {
                    assert(columns@.subrange(0, k + 1) =~= columns@.subrange(0, k as int).push(
                        columns@[k as int],
                    ));
                    lemma_arg_null_at_push(
                        columns@.subrange(0, k as int),
                        columns@[k as int],
                        i as int,
                    );
                }
                if single || within {
                    if crate::functions::col_at(col, i).is_null() {
                        make_null = true;
                    }
                }
            }
            proof {
                assert(columns@.subrange(0, n as int) =~= columns@);
            }
            if make_null {
                let d = DataValue::null_of(&rt);
                proof {
                    crate::values::lemma_dv_eq_refl(d);
                    assert(d == spec_null_of(inner_out.spec_data_type()));
                }
                cells.push(d);
            } else {
                let d = inner_out.get(i).duplicate();
                proof {
                    crate::values::lemma_dv_eq_same_type(d, inner_out@[i as int]);
                    crate::columns::lemma_column_element_type(inner_out, i as int);
                }
                cells.push(d);
            }
        }
        let out = DataColumn::Array(crate::columns::DataArray::from_values(rt, cells));
        proof {
            assert(stripped_merge_ok(
                self.spec_inner(),
                columns@,
                input_rows as nat,
                scols,
                inner_out,
                out,
            ));
        }
        Ok(out)
    }

    /// The constant path: the inner function is evaluated once over a
    /// one-row materialization of the constants, and the single result
    /// re-broadcast over the input row count.
    #[verifier::loop_isolation(false)]
    fn eval_constant(&self, columns: &Vec<DataColumn>, input_rows: usize) -> (res: Result<
        DataColumn,
        ErrorCode,
    >)
        requires
            forall|k: int| 0 <= k < columns@.len() ==> (#[trigger] columns@[k]).wf(),
            all_const(columns@),
            columns@.len() > 0,
        ensures
            (match res {
                Ok(out) => out.wf() && (exists|ocols: Seq<DataColumn>, ic: DataColumn|
                    constant_rebroadcast_ok(
                        self.spec_inner(),
                        columns@,
                        input_rows as nat,
                        ocols,
                        ic,
                        out,
                    )),
                Err(_) => exists|ocols: Seq<DataColumn>|
                    one_rows_of(columns@, ocols) && !eval_ok(self.spec_inner(), ocols, 1),
            }),
    {
        let n = columns.len();
        let mut ones: Vec<DataColumn> = Vec::new();
        for k in 0..n
            invariant
                ones@.len() == k,
                forall|k2: int| 0 <= k2 < k ==> (#[trigger] ones@[k2]).wf(),
                forall|k2: int|
                    0 <= k2 < k ==> ((#[trigger] ones@[k2]) matches DataColumn::Constant(w, m) && m
                        == 1 && (columns@[k2] matches DataColumn::Constant(v, _) && dv_eq(w, v))),
        {
            match &columns[k] {
                DataColumn::Constant(v, _) => {
                    let d = v.duplicate();
                    ones.push(DataColumn::Constant(d, 1));
                },
                DataColumn::Array(_) => {
                    proof {
                        assert(false);
                    }
                    ones.push(crate::columns::duplicate_column(&columns[k]));
                },
            }
        }
        proof {
            assert(one_rows_of(columns@, ones@));
        }
        let one_out = match self.inner.eval(&ones, 1) {
            Ok(c) => c,
            Err(e) => {
                proof {
                    assert(one_rows_of(columns@, ones@) && !eval_ok(self.spec_inner(), ones@, 1));
                }
                return Err(e);
            },
        };
        let ghost ocols = ones@;
        if one_out.len() == 1 {
            let v = one_out.get(0).duplicate();
            proof {
                crate::values::lemma_dv_eq_same_type(v, one_out@[0]);
                crate::columns::lemma_column_element_type(one_out, 0);
            }
            let out = DataColumn::Constant(v, input_rows);
            proof {
                assert(constant_rebroadcast_ok(
                    self.spec_inner(),
                    columns@,
                    input_rows as nat,
                    ocols,
                    one_out,
                    out,
                ));
            }
            Ok(out)
        } else {
            proof {
                assert(constant_rebroadcast_ok(
                    self.spec_inner(),
                    columns@,
                    input_rows as nat,
                    ocols,
                    one_out,
                    one_out,
                ));
            }
            Ok(one_out)
        }
    }
}

} // verus!
