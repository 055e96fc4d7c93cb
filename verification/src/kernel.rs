//! The elementwise comparison kernel over columns, with the broadcast
//! rules: a length-1 operand stands for its single value repeated; a
//! null scalar operand short-circuits to an all-false result; otherwise
//! the operator is applied row by row with null propagation.

use vstd::prelude::*;

use crate::columns::DataArray;
use crate::columns::DataColumn;
use crate::compare::cmp_scalar;
use crate::compare::compare_scalars;
use crate::compare::op_supported;
use crate::compare::spec_op_supported;
use crate::compare::CompareOp;
use crate::error::ErrorCode;
use crate::error::ErrorKind;
use crate::values::DataType;
use crate::values::DataValue;

verus! {

/// An all-false boolean row sequence of a given length.
pub open spec fn all_false(n: nat) -> Seq<DataValue> {
    Seq::new(n, |i: int| DataValue::Boolean(Some(false)))
}

/// Whether a column stands for one broadcast value: a one-element
/// column, or a non-empty constant of any logical length.
pub open spec fn col_single(c: DataColumn) -> bool {
    c@.len() == 1 || (c is Constant && c@.len() > 0)
}

/// The meaning of one comparison over two columns, after the operand
/// types have been admitted:
/// - a right side standing for one value broadcasts it; if that value
///   is null (and the operator is not `EqMissing`) the result is all
///   false;
/// - otherwise a single-valued left side broadcasts symmetrically, with
///   the `LIKE` operators reading the right rows as the data side;
/// - otherwise the operator is applied row by row.
pub open spec fn cmp_columns_spec(op: CompareOp, lc: DataColumn, rc: DataColumn) -> Seq<
    DataValue,
> {
    let l = lc@;
    let r = rc@;
    if col_single(rc) {
        if !(op is EqMissing) && r[0].spec_is_null() {
            all_false(l.len())
        } else {
            Seq::new(l.len(), |i: int| cmp_scalar(op, l[i], r[0]))
        }
    } else if col_single(lc) {
        if !(op is EqMissing) && l[0].spec_is_null() {
            all_false(r.len())
        } else if op is Like || op is NotLike {
            Seq::new(r.len(), |i: int| cmp_scalar(op, r[i], l[0]))
        } else {
            Seq::new(r.len(), |i: int| cmp_scalar(op, l[0], r[i]))
        }
    } else {
        Seq::new(l.len(), |i: int| cmp_scalar(op, l[i], r[i]))
    }
}

/// When a comparison of two columns is admitted: equal types, an
/// operator the type supports, and lengths that are equal or
/// broadcastable from a single value.
pub open spec fn cmp_columns_ok(op: CompareOp, lc: DataColumn, rc: DataColumn) -> bool {
    lc.spec_data_type() == rc.spec_data_type() && spec_op_supported(op, lc.spec_data_type()) && (
    col_single(lc) || col_single(rc) || lc@.len() == rc@.len())
}

/// Applies one comparison operator to two columns, producing a boolean
/// array. Mismatched, non-broadcastable lengths are rejected as an
/// arity error rather than silently wrapping around.
#[verifier::loop_isolation(false)]
pub fn compare_columns(op: CompareOp, lhs: &DataColumn, rhs: &DataColumn) -> (res: Result<
    DataArray,
    ErrorCode,
>)
    requires
        lhs.wf(),
        rhs.wf(),
    ensures
        (match res {
            Ok(out) => cmp_columns_ok(op, *lhs, *rhs) && out.wf() && out.spec_data_type()
                == DataType::Boolean && out@ == cmp_columns_spec(op, *lhs, *rhs),
            Err(e) => !cmp_columns_ok(op, *lhs, *rhs) && (e.kind() == ErrorKind::BadDataValueType
                || e.kind() == ErrorKind::NumberArgumentsNotMatch),
        }),
{
    let lt = lhs.data_type();
    let rt = rhs.data_type();
    if !lt.same_as(&rt) {
        return Err(
            ErrorCode::bad_data_value_type(
                "cannot compare operands of two different types".to_owned(),
            ),
        );
    }
    if !op_supported(op, &lt) {
        return Err(
            ErrorCode::bad_data_value_type(
                "the operand type does not support this comparison".to_owned(),
            ),
        );
    }
    let ll = lhs.len();
    let rl = rhs.len();
    let ghost goal = cmp_columns_spec(op, *lhs, *rhs);
    if rl == 1 || (rhs.is_const() && rl > 0) {
        let rv = rhs.get(0);
        if !matches!(op, CompareOp::EqMissing) && rv.is_null() {
            Ok(full_false(ll))
        } else {
            let mut values: Vec<DataValue> = Vec::new();
            for i in 0..ll
                invariant
                    values@.len() == i,
                    forall|j: int| 0 <= j < i ==> values@[j] == goal[j],
                    forall|j: int|
                        0 <= j < i ==> (#[trigger] values@[j]).spec_data_type()
                            == DataType::Boolean,
            {
                let v = compare_scalars(op, lhs.get(i), rv);
                values.push(v);
            }
            proof {
                assert(values@ =~= goal);
            }
            Ok(DataArray::from_values(DataType::Boolean, values))
        }
    } else if ll == 1 || (lhs.is_const() && ll > 0) {
        let lv = lhs.get(0);
        if !matches!(op, CompareOp::EqMissing) && lv.is_null() {
            Ok(full_false(rl))
        } else if matches!(op, CompareOp::Like) || matches!(op, CompareOp::NotLike) {
            let mut values: Vec<DataValue> = Vec::new();
            for i in 0..rl
                invariant
                    values@.len() == i,
                    forall|j: int| 0 <= j < i ==> values@[j] == goal[j],
                    forall|j: int|
                        0 <= j < i ==> (#[trigger] values@[j]).spec_data_type()
                            == DataType::Boolean,
            {
                let v = compare_scalars(op, rhs.get(i), lv);
                values.push(v);
            }
            proof {
                assert(values@ =~= goal);
            }
            Ok(DataArray::from_values(DataType::Boolean, values))
        } else {
            let mut values: Vec<DataValue> = Vec::new();
            for i in 0..rl
                invariant
                    values@.len() == i,
                    forall|j: int| 0 <= j < i ==> values@[j] == goal[j],
                    forall|j: int|
                        0 <= j < i ==> (#[trigger] values@[j]).spec_data_type()
                            == DataType::Boolean,
            {
                let v = compare_scalars(op, lv, rhs.get(i));
                values.push(v);
            }
            proof {
                assert(values@ =~= goal);
            }
            Ok(DataArray::from_values(DataType::Boolean, values))
        }
    } else if ll == rl {
        let mut values: Vec<DataValue> = Vec::new();
        for i in 0..ll
            invariant
                values@.len() == i,
                forall|j: int| 0 <= j < i ==> values@[j] == goal[j],
                forall|j: int|
                    0 <= j < i ==> (#[trigger] values@[j]).spec_data_type() == DataType::Boolean,
        {
            let v = compare_scalars(op, lhs.get(i), rhs.get(i));
            values.push(v);
        }
        proof {
            assert(values@ =~= goal);
        }
        Ok(DataArray::from_values(DataType::Boolean, values))
    } else {
        Err(
            ErrorCode::number_arguments_not_match(
                "cannot compare operands of two different lengths".to_owned(),
            ),
        )
    }
}

/// A dense all-false boolean array of the given length.
fn full_false(n: usize) -> (out: DataArray)
    ensures
        out.wf(),
        out.spec_data_type() == DataType::Boolean,
        out@ == all_false(n as nat),
{
    let mut values: Vec<DataValue> = Vec::new();
    for i in 0..n
        invariant
            values@.len() == i,
            forall|j: int| 0 <= j < i ==> values@[j] == DataValue::Boolean(Some(false)),
    {
        values.push(DataValue::Boolean(Some(false)));
    }
    proof {
        assert(values@ =~= all_false(n as nat));
        assert(forall|j: int|
            0 <= j < values@.len() ==> (#[trigger] values@[j]).spec_data_type()
                == DataType::Boolean);
    }
    DataArray::from_values(DataType::Boolean, values)
}

impl DataColumn {
    /// Elementwise equality; null on either side yields null.
    pub fn eq(&self, rhs: &DataColumn) -> (res: Result<DataArray, ErrorCode>)
        requires
            self.wf(),
            rhs.wf(),
        ensures
            (match res {
                Ok(out) => cmp_columns_ok(CompareOp::Eq, *self, *rhs) && out.wf() && out@
                    == cmp_columns_spec(CompareOp::Eq, *self, *rhs),
                Err(_) => !cmp_columns_ok(CompareOp::Eq, *self, *rhs),
            }),
    {
        compare_columns(CompareOp::Eq, self, rhs)
    }

    /// Elementwise inequality; null on either side yields null.
    pub fn neq(&self, rhs: &DataColumn) -> (res: Result<DataArray, ErrorCode>)
        requires
            self.wf(),
            rhs.wf(),
        ensures
            (match res {
                Ok(out) => cmp_columns_ok(CompareOp::NotEq, *self, *rhs) && out.wf() && out@
                    == cmp_columns_spec(CompareOp::NotEq, *self, *rhs),
                Err(_) => !cmp_columns_ok(CompareOp::NotEq, *self, *rhs),
            }),
    {
        compare_columns(CompareOp::NotEq, self, rhs)
    }

    /// Elementwise greater-than; null on either side yields null.
    pub fn gt(&self, rhs: &DataColumn) -> (res: Result<DataArray, ErrorCode>)
        requires
            self.wf(),
            rhs.wf(),
        ensures
            (match res {
                Ok(out) => cmp_columns_ok(CompareOp::Gt, *self, *rhs) && out.wf() && out@
                    == cmp_columns_spec(CompareOp::Gt, *self, *rhs),
                Err(_) => !cmp_columns_ok(CompareOp::Gt, *self, *rhs),
            }),
    {
        compare_columns(CompareOp::Gt, self, rhs)
    }

    /// Elementwise greater-or-equal; null on either side yields null.
    pub fn gt_eq(&self, rhs: &DataColumn) -> (res: Result<DataArray, ErrorCode>)
        requires
            self.wf(),
            rhs.wf(),
        ensures
            (match res {
                Ok(out) => cmp_columns_ok(CompareOp::GtEq, *self, *rhs) && out.wf() && out@
                    == cmp_columns_spec(CompareOp::GtEq, *self, *rhs),
                Err(_) => !cmp_columns_ok(CompareOp::GtEq, *self, *rhs),
            }),
    {
        compare_columns(CompareOp::GtEq, self, rhs)
    }

    /// Elementwise less-than; null on either side yields null.
    pub fn lt(&self, rhs: &DataColumn) -> (res: Result<DataArray, ErrorCode>)
        requires
            self.wf(),
            rhs.wf(),
        ensures
            (match res {
                Ok(out) => cmp_columns_ok(CompareOp::Lt, *self, *rhs) && out.wf() && out@
                    == cmp_columns_spec(CompareOp::Lt, *self, *rhs),
                Err(_) => !cmp_columns_ok(CompareOp::Lt, *self, *rhs),
            }),
    {
        compare_columns(CompareOp::Lt, self, rhs)
    }

    /// Elementwise less-or-equal; null on either side yields null.
    pub fn lt_eq(&self, rhs: &DataColumn) -> (res: Result<DataArray, ErrorCode>)
        requires
            self.wf(),
            rhs.wf(),
        ensures
            (match res {
                Ok(out) => cmp_columns_ok(CompareOp::LtEq, *self, *rhs) && out.wf() && out@
                    == cmp_columns_spec(CompareOp::LtEq, *self, *rhs),
                Err(_) => !cmp_columns_ok(CompareOp::LtEq, *self, *rhs),
            }),
    {
        compare_columns(CompareOp::LtEq, self, rhs)
    }

    /// Elementwise equality that regards missing values as equal.
    pub fn eq_missing(&self, rhs: &DataColumn) -> (res: Result<DataArray, ErrorCode>)
        requires
            self.wf(),
            rhs.wf(),
        ensures
            (match res {
                Ok(out) => cmp_columns_ok(CompareOp::EqMissing, *self, *rhs) && out.wf() && out@
                    == cmp_columns_spec(CompareOp::EqMissing, *self, *rhs),
                Err(_) => !cmp_columns_ok(CompareOp::EqMissing, *self, *rhs),
            }),
    {
        compare_columns(CompareOp::EqMissing, self, rhs)
    }

    /// Elementwise `LIKE` of the rows against the right-hand patterns.
    pub fn like(&self, rhs: &DataColumn) -> (res: Result<DataArray, ErrorCode>)
        requires
            self.wf(),
            rhs.wf(),
        ensures
            (match res {
                Ok(out) => cmp_columns_ok(CompareOp::Like, *self, *rhs) && out.wf() && out@
                    == cmp_columns_spec(CompareOp::Like, *self, *rhs),
                Err(_) => !cmp_columns_ok(CompareOp::Like, *self, *rhs),
            }),
    {
        compare_columns(CompareOp::Like, self, rhs)
    }

    /// Elementwise `NOT LIKE` of the rows against the right-hand patterns.
    pub fn nlike(&self, rhs: &DataColumn) -> (res: Result<DataArray, ErrorCode>)
        requires
            self.wf(),
            rhs.wf(),
        ensures
            (match res {
                Ok(out) => cmp_columns_ok(CompareOp::NotLike, *self, *rhs) && out.wf() && out@
                    == cmp_columns_spec(CompareOp::NotLike, *self, *rhs),
                Err(_) => !cmp_columns_ok(CompareOp::NotLike, *self, *rhs),
            }),
    {
        compare_columns(CompareOp::NotLike, self, rhs)
    }
}

} // verus!
