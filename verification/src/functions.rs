//! The scalar functions: a closed union over the built-in families —
//! comparison, arithmetic, logic, strings, hashing and the diagnostic
//! and metadata functions — each with its arity, return type,
//! nullability and a verified row semantics.

use vstd::prelude::*;
use vstd::string::StrSliceExecFns;

use crate::columns::seq_dv_eq;
use crate::columns::DataArray;
use crate::columns::DataColumn;
use crate::compare::CompareOp;
use crate::error::ErrorCode;
use crate::error::ErrorKind;
use crate::kernel::cmp_columns_ok;
use crate::kernel::cmp_columns_spec;
use crate::kernel::col_single;
use crate::kernel::compare_columns;
use crate::values::dv_eq;
use crate::values::DataType;
use crate::values::DataValue;

verus! {

/// The arithmetic operators: wrapping addition, subtraction and
/// multiplication, checked division and remainder, and negation.
#[derive(Clone, Copy, PartialEq, Eq, Structural, Debug)]
pub enum ArithmeticOp {
    Plus,
    Minus,
    Mul,
    Div,
    Modulo,
    Neg,
}

/// The boolean connectives, with strict null propagation.
#[derive(Clone, Copy, PartialEq, Eq, Structural, Debug)]
pub enum LogicOp {
    And,
    Or,
    Not,
}

/// The value a broadcast-aware kernel reads from a column at one row:
/// a single-valued column hands out its one value everywhere.
pub open spec fn bidx(c: DataColumn, i: int) -> DataValue {
    if col_single(c) {
        c@[0]
    } else {
        c@[i]
    }
}

/// Exec access to a column under the broadcast reading.
pub fn col_at<'a>(c: &'a DataColumn, i: usize) -> (r: &'a DataValue)
    requires
        col_single(*c) || i < c@.len(),
    ensures
        *r == bidx(*c, i as int),
{
    if c.is_const() {
        c.get(0)
    } else if c.len() == 1 {
        c.get(0)
    } else {
        c.get(i)
    }
}

/// Whether a column can take part in a kernel over the given row
/// count: it is single-valued or exactly as long.
pub open spec fn col_fits(c: DataColumn, rows: nat) -> bool {
    col_single(c) || c@.len() == rows
}

pub fn check_col_fits(c: &DataColumn, rows: usize) -> (r: bool)
    ensures
        r == col_fits(*c, rows as nat),
{
    c.is_const() && c.len() > 0 || c.len() == 1 || c.len() == rows
}

/// The result, if any, of one arithmetic operator on two same-typed,
/// non-null integer scalars. `None` marks division or remainder by
/// zero (or the one overflowing signed case).
pub open spec fn arith_row(op: ArithmeticOp, a: DataValue, b: DataValue) -> Option<DataValue> {
    match (a, b) {
        (DataValue::Int8(Some(x)), DataValue::Int8(Some(y))) => match arith_i8(op, x, y) {
            Some(z) => Some(DataValue::Int8(Some(z))),
            None => None,
        },
        (DataValue::Int16(Some(x)), DataValue::Int16(Some(y))) => match arith_i16(op, x, y) {
            Some(z) => Some(DataValue::Int16(Some(z))),
            None => None,
        },
        (DataValue::Int32(Some(x)), DataValue::Int32(Some(y))) => match arith_i32(op, x, y) {
            Some(z) => Some(DataValue::Int32(Some(z))),
            None => None,
        },
        (DataValue::Int64(Some(x)), DataValue::Int64(Some(y))) => match arith_i64(op, x, y) {
            Some(z) => Some(DataValue::Int64(Some(z))),
            None => None,
        },
        (DataValue::UInt8(Some(x)), DataValue::UInt8(Some(y))) => match arith_u8(op, x, y) {
            Some(z) => Some(DataValue::UInt8(Some(z))),
            None => None,
        },
        (DataValue::UInt16(Some(x)), DataValue::UInt16(Some(y))) => match arith_u16(op, x, y) {
            Some(z) => Some(DataValue::UInt16(Some(z))),
            None => None,
        },
        (DataValue::UInt32(Some(x)), DataValue::UInt32(Some(y))) => match arith_u32(op, x, y) {
            Some(z) => Some(DataValue::UInt32(Some(z))),
            None => None,
        },
        (DataValue::UInt64(Some(x)), DataValue::UInt64(Some(y))) => match arith_u64(op, x, y) {
            Some(z) => Some(DataValue::UInt64(Some(z))),
            None => None,
        },
        _ => None,
    }
}

pub open spec fn arith_i8(op: ArithmeticOp, x: i8, y: i8) -> Option<i8> {
    match op {
        ArithmeticOp::Plus => Some(x.wrapping_add(y)),
        ArithmeticOp::Minus => Some(x.wrapping_sub(y)),
        ArithmeticOp::Mul => Some(x.wrapping_mul(y)),
        ArithmeticOp::Div => x.checked_div(y),
        ArithmeticOp::Modulo => x.checked_rem(y),
        ArithmeticOp::Neg => Some((0i8).wrapping_sub(x)),
    }
}

pub open spec fn arith_i16(op: ArithmeticOp, x: i16, y: i16) -> Option<i16> {
    match op {
        ArithmeticOp::Plus => Some(x.wrapping_add(y)),
        ArithmeticOp::Minus => Some(x.wrapping_sub(y)),
        ArithmeticOp::Mul => Some(x.wrapping_mul(y)),
        ArithmeticOp::Div => x.checked_div(y),
        ArithmeticOp::Modulo => x.checked_rem(y),
        ArithmeticOp::Neg => Some((0i16).wrapping_sub(x)),
    }
}

pub open spec fn arith_i32(op: ArithmeticOp, x: i32, y: i32) -> Option<i32> {
    match op {
        ArithmeticOp::Plus => Some(x.wrapping_add(y)),
        ArithmeticOp::Minus => Some(x.wrapping_sub(y)),
        ArithmeticOp::Mul => Some(x.wrapping_mul(y)),
        ArithmeticOp::Div => x.checked_div(y),
        ArithmeticOp::Modulo => x.checked_rem(y),
        ArithmeticOp::Neg => Some((0i32).wrapping_sub(x)),
    }
}

pub open spec fn arith_i64(op: ArithmeticOp, x: i64, y: i64) -> Option<i64> {
    match op {
        ArithmeticOp::Plus => Some(x.wrapping_add(y)),
        ArithmeticOp::Minus => Some(x.wrapping_sub(y)),
        ArithmeticOp::Mul => Some(x.wrapping_mul(y)),
        ArithmeticOp::Div => x.checked_div(y),
        ArithmeticOp::Modulo => x.checked_rem(y),
        ArithmeticOp::Neg => Some((0i64).wrapping_sub(x)),
    }
}

pub open spec fn arith_u8(op: ArithmeticOp, x: u8, y: u8) -> Option<u8> {
    match op {
        ArithmeticOp::Plus => Some(x.wrapping_add(y)),
        ArithmeticOp::Minus => Some(x.wrapping_sub(y)),
        ArithmeticOp::Mul => Some(x.wrapping_mul(y)),
        ArithmeticOp::Div => x.checked_div(y),
        ArithmeticOp::Modulo => x.checked_rem(y),
        ArithmeticOp::Neg => None,
    }
}

pub open spec fn arith_u16(op: ArithmeticOp, x: u16, y: u16) -> Option<u16> {
    match op {
        ArithmeticOp::Plus => Some(x.wrapping_add(y)),
        ArithmeticOp::Minus => Some(x.wrapping_sub(y)),
        ArithmeticOp::Mul => Some(x.wrapping_mul(y)),
        ArithmeticOp::Div => x.checked_div(y),
        ArithmeticOp::Modulo => x.checked_rem(y),
        ArithmeticOp::Neg => None,
    }
}

pub open spec fn arith_u32(op: ArithmeticOp, x: u32, y: u32) -> Option<u32> {
    match op {
        ArithmeticOp::Plus => Some(x.wrapping_add(y)),
        ArithmeticOp::Minus => Some(x.wrapping_sub(y)),
        ArithmeticOp::Mul => Some(x.wrapping_mul(y)),
        ArithmeticOp::Div => x.checked_div(y),
        ArithmeticOp::Modulo => x.checked_rem(y),
        ArithmeticOp::Neg => None,
    }
}

pub open spec fn arith_u64(op: ArithmeticOp, x: u64, y: u64) -> Option<u64> {
    match op {
        ArithmeticOp::Plus => Some(x.wrapping_add(y)),
        ArithmeticOp::Minus => Some(x.wrapping_sub(y)),
        ArithmeticOp::Mul => Some(x.wrapping_mul(y)),
        ArithmeticOp::Div => x.checked_div(y),
        ArithmeticOp::Modulo => x.checked_rem(y),
        ArithmeticOp::Neg => None,
    }
}

/// Exec arithmetic on two same-typed non-null integer scalars.
pub fn arith_scalars(op: ArithmeticOp, a: &DataValue, b: &DataValue) -> (r: Option<DataValue>)
    requires
        a.spec_data_type() == b.spec_data_type(),
        a.spec_data_type().spec_is_integer(),
        !a.spec_is_null(),
        !b.spec_is_null(),
    ensures
        r == arith_row(op, *a, *b),
{
    match (a, b) {
        (DataValue::Int8(Some(x)), DataValue::Int8(Some(y))) => match op {
            ArithmeticOp::Plus => Some(DataValue::Int8(Some(x.wrapping_add(*y)))),
            ArithmeticOp::Minus => Some(DataValue::Int8(Some(x.wrapping_sub(*y)))),
            ArithmeticOp::Mul => Some(DataValue::Int8(Some(x.wrapping_mul(*y)))),
            ArithmeticOp::Div => match x.checked_div(*y) {
                Some(z) => Some(DataValue::Int8(Some(z))),
                None => None,
            },
            ArithmeticOp::Modulo => match x.checked_rem(*y) {
                Some(z) => Some(DataValue::Int8(Some(z))),
                None => None,
            },
            ArithmeticOp::Neg => Some(DataValue::Int8(Some((0i8).wrapping_sub(*x)))),
        },
        (DataValue::Int16(Some(x)), DataValue::Int16(Some(y))) => match op {
            ArithmeticOp::Plus => Some(DataValue::Int16(Some(x.wrapping_add(*y)))),
            ArithmeticOp::Minus => Some(DataValue::Int16(Some(x.wrapping_sub(*y)))),
            ArithmeticOp::Mul => Some(DataValue::Int16(Some(x.wrapping_mul(*y)))),
            ArithmeticOp::Div => match x.checked_div(*y) {
                Some(z) => Some(DataValue::Int16(Some(z))),
                None => None,
            },
            ArithmeticOp::Modulo => match x.checked_rem(*y) {
                Some(z) => Some(DataValue::Int16(Some(z))),
                None => None,
            },
            ArithmeticOp::Neg => Some(DataValue::Int16(Some((0i16).wrapping_sub(*x)))),
        },
        (DataValue::Int32(Some(x)), DataValue::Int32(Some(y))) => match op {
            ArithmeticOp::Plus => Some(DataValue::Int32(Some(x.wrapping_add(*y)))),
            ArithmeticOp::Minus => Some(DataValue::Int32(Some(x.wrapping_sub(*y)))),
            ArithmeticOp::Mul => Some(DataValue::Int32(Some(x.wrapping_mul(*y)))),
            ArithmeticOp::Div => match x.checked_div(*y) {
                Some(z) => Some(DataValue::Int32(Some(z))),
                None => None,
            },
            ArithmeticOp::Modulo => match x.checked_rem(*y) {
                Some(z) => Some(DataValue::Int32(Some(z))),
                None => None,
            },
            ArithmeticOp::Neg => Some(DataValue::Int32(Some((0i32).wrapping_sub(*x)))),
        },
        (DataValue::Int64(Some(x)), DataValue::Int64(Some(y))) => match op {
            ArithmeticOp::Plus => Some(DataValue::Int64(Some(x.wrapping_add(*y)))),
            ArithmeticOp::Minus => Some(DataValue::Int64(Some(x.wrapping_sub(*y)))),
            ArithmeticOp::Mul => Some(DataValue::Int64(Some(x.wrapping_mul(*y)))),
            ArithmeticOp::Div => match x.checked_div(*y) {
                Some(z) => Some(DataValue::Int64(Some(z))),
                None => None,
            },
            ArithmeticOp::Modulo => match x.checked_rem(*y) {
                Some(z) => Some(DataValue::Int64(Some(z))),
                None => None,
            },
            ArithmeticOp::Neg => Some(DataValue::Int64(Some((0i64).wrapping_sub(*x)))),
        },
        (DataValue::UInt8(Some(x)), DataValue::UInt8(Some(y))) => match op {
            ArithmeticOp::Plus => Some(DataValue::UInt8(Some(x.wrapping_add(*y)))),
            ArithmeticOp::Minus => Some(DataValue::UInt8(Some(x.wrapping_sub(*y)))),
            ArithmeticOp::Mul => Some(DataValue::UInt8(Some(x.wrapping_mul(*y)))),
            ArithmeticOp::Div => match x.checked_div(*y) {
                Some(z) => Some(DataValue::UInt8(Some(z))),
                None => None,
            },
            ArithmeticOp::Modulo => match x.checked_rem(*y) {
                Some(z) => Some(DataValue::UInt8(Some(z))),
                None => None,
            },
            ArithmeticOp::Neg => None,
        },
        (DataValue::UInt16(Some(x)), DataValue::UInt16(Some(y))) => match op {
            ArithmeticOp::Plus => Some(DataValue::UInt16(Some(x.wrapping_add(*y)))),
            ArithmeticOp::Minus => Some(DataValue::UInt16(Some(x.wrapping_sub(*y)))),
            ArithmeticOp::Mul => Some(DataValue::UInt16(Some(x.wrapping_mul(*y)))),
            ArithmeticOp::Div => match x.checked_div(*y) {
                Some(z) => Some(DataValue::UInt16(Some(z))),
                None => None,
            },
            ArithmeticOp::Modulo => match x.checked_rem(*y) {
                Some(z) => Some(DataValue::UInt16(Some(z))),
                None => None,
            },
            ArithmeticOp::Neg => None,
        },
        (DataValue::UInt32(Some(x)), DataValue::UInt32(Some(y))) => match op {
            ArithmeticOp::Plus => Some(DataValue::UInt32(Some(x.wrapping_add(*y)))),
            ArithmeticOp::Minus => Some(DataValue::UInt32(Some(x.wrapping_sub(*y)))),
            ArithmeticOp::Mul => Some(DataValue::UInt32(Some(x.wrapping_mul(*y)))),
            ArithmeticOp::Div => match x.checked_div(*y) {
                Some(z) => Some(DataValue::UInt32(Some(z))),
                None => None,
            },
            ArithmeticOp::Modulo => match x.checked_rem(*y) {
                Some(z) => Some(DataValue::UInt32(Some(z))),
                None => None,
            },
            ArithmeticOp::Neg => None,
        },
        (DataValue::UInt64(Some(x)), DataValue::UInt64(Some(y))) => match op {
            ArithmeticOp::Plus => Some(DataValue::UInt64(Some(x.wrapping_add(*y)))),
            ArithmeticOp::Minus => Some(DataValue::UInt64(Some(x.wrapping_sub(*y)))),
            ArithmeticOp::Mul => Some(DataValue::UInt64(Some(x.wrapping_mul(*y)))),
            ArithmeticOp::Div => match x.checked_div(*y) {
                Some(z) => Some(DataValue::UInt64(Some(z))),
                None => None,
            },
            ArithmeticOp::Modulo => match x.checked_rem(*y) {
                Some(z) => Some(DataValue::UInt64(Some(z))),
                None => None,
            },
            ArithmeticOp::Neg => None,
        },
        _ => {
            proof {
                assert(false);
            }
            None
        },
    }
}

/// The three-valued result of one connective on two boolean scalars:
/// null if either side is null.
pub open spec fn logic_row(op: LogicOp, a: DataValue, b: DataValue) -> DataValue {
    match (a, b) {
        (DataValue::Boolean(Some(x)), DataValue::Boolean(Some(y))) => DataValue::Boolean(
            Some(
                match op {
                    LogicOp::And => x && y,
                    LogicOp::Or => x || y,
                    LogicOp::Not => !x,
                },
            ),
        ),
        _ => DataValue::Boolean(None),
    }
}

/// Exec connective on two boolean scalars.
pub fn logic_scalars(op: LogicOp, a: &DataValue, b: &DataValue) -> (r: DataValue)
    requires
        a.spec_data_type() == DataType::Boolean,
        b.spec_data_type() == DataType::Boolean,
    ensures
        r == logic_row(op, *a, *b),
{
    match (a, b) {
        (DataValue::Boolean(Some(x)), DataValue::Boolean(Some(y))) => DataValue::Boolean(
            Some(
                match op {
                    LogicOp::And => *x && *y,
                    LogicOp::Or => *x || *y,
                    LogicOp::Not => !*x,
                },
            ),
        ),
        _ => DataValue::Boolean(None),
    }
}

/// The characters a substring call keeps: MySQL-style one-based
/// positions, with a negative position counting from the end, position
/// zero and a non-positive length both giving the empty string.
pub open spec fn substring_spec(s: Seq<char>, pos: int, len: Option<int>) -> Seq<char> {
    let n = s.len() as int;
    let start = if pos > 0 {
        pos - 1
    } else if pos < 0 {
        n + pos
    } else {
        n
    };
    if start < 0 || start >= n {
        Seq::empty()
    } else {
        let upto = match len {
            Some(l) => if l <= 0 {
                start
            } else if start + l > n {
                n
            } else {
                start + l
            },
            None => n,
        };
        s.subrange(start, upto)
    }
}

/// Exec substring over one string scalar.
pub fn substring_str(s: &str, pos: i64, len: Option<u64>) -> (r: String)
    ensures
        r@ == substring_spec(
            s@,
            pos as int,
            (match len {
                Some(l) => Some(l as int),
                None => None,
            }),
        ),
{
    let n = s.unicode_len();
    let start: usize = if pos > 0 {
        if (pos - 1) as u64 >= n as u64 {
            n
        } else {
            (pos - 1) as usize
        }
    } else if pos < 0 {
        let back = (-(pos + 1)) as u64 + 1;
        if back > n as u64 {
            n
        } else {
            n - (back as usize)
        }
    } else {
        n
    };
    if start >= n {
        let r = String::new();
        proof {
            if pos > 0 && pos - 1 < s@.len() {
                assert(false);
            }
            assert(substring_spec(
                s@,
                pos as int,
                (match len {
                    Some(l) => Some(l as int),
                    None => None,
                }),
            ) =~= Seq::<char>::empty());
        }
        return r;
    }
    let upto: usize = match len {
        Some(l) => {
            if l == 0 {
                start
            } else if l >= (n - start) as u64 {
                n
            } else {
                start + (l as usize)
            }
        },
        None => n,
    };
    let piece = s.substring_char(start, upto);
    let r = piece.to_owned();
    proof {
        assert(r@ =~= substring_spec(
            s@,
            pos as int,
            (match len {
                Some(l) => Some(l as int),
                None => None,
            }),
        ));
    }
    r
}


/// The null scalar of a type, as a specification value.
pub open spec fn spec_null_of(t: DataType) -> DataValue {
    match t {
        DataType::Null => DataValue::Null,
        DataType::Boolean => DataValue::Boolean(None),
        DataType::Int8 => DataValue::Int8(None),
        DataType::Int16 => DataValue::Int16(None),
        DataType::Int32 => DataValue::Int32(None),
        DataType::Int64 => DataValue::Int64(None),
        DataType::UInt8 => DataValue::UInt8(None),
        DataType::UInt16 => DataValue::UInt16(None),
        DataType::UInt32 => DataValue::UInt32(None),
        DataType::UInt64 => DataValue::UInt64(None),
        DataType::Utf8 => DataValue::Utf8(None),
        DataType::Binary => DataValue::Binary(None),
        DataType::Date32 => DataValue::Date32(None),
        DataType::Date64 => DataValue::Date64(None),
        DataType::List(inner) => DataValue::List(None, *inner),
    }
}

/// Whether one arithmetic row either sees a null or succeeds.
pub open spec fn arith_defined(op: ArithmeticOp, a: DataValue, b: DataValue) -> bool {
    a.spec_is_null() || b.spec_is_null() || (arith_row(op, a, b) is Some)
}

/// One arithmetic result cell: null in, null out; otherwise the
/// operator's value.
pub open spec fn arith_cell(op: ArithmeticOp, t: DataType, a: DataValue, b: DataValue) -> DataValue {
    if a.spec_is_null() || b.spec_is_null() {
        spec_null_of(t)
    } else {
        arith_row(op, a, b)->0
    }
}

/// When a two-operand arithmetic evaluation succeeds: same integer
/// type, broadcast-compatible lengths, and no row divides by zero.
pub open spec fn arith_eval_ok(
    op: ArithmeticOp,
    c0: DataColumn,
    c1: DataColumn,
    rows: nat,
) -> bool {
    &&& c0.spec_data_type() == c1.spec_data_type()
    &&& c0.spec_data_type().spec_is_integer()
    &&& !(op is Neg)
    &&& col_fits(c0, rows)
    &&& col_fits(c1, rows)
    &&& forall|i: int| 0 <= i < rows ==> arith_defined(op, bidx(c0, i), bidx(c1, i))
}

/// The row results of a two-operand arithmetic evaluation.
pub open spec fn arith_eval_spec(
    op: ArithmeticOp,
    c0: DataColumn,
    c1: DataColumn,
    rows: nat,
) -> Seq<DataValue> {
    Seq::new(rows, |i: int| arith_cell(op, c0.spec_data_type(), bidx(c0, i), bidx(c1, i)))
}

/// Elementwise arithmetic over two columns with broadcast, null
/// propagation, and checked division.
#[verifier::loop_isolation(false)]
pub fn arithmetic_eval(op: ArithmeticOp, c0: &DataColumn, c1: &DataColumn, rows: usize) -> (res:
    Result<DataArray, ErrorCode>)
    requires
        c0.wf(),
        c1.wf(),
        !(op is Neg),
    ensures
        (match res {
            Ok(out) => arith_eval_ok(op, *c0, *c1, rows as nat) && out.wf() && out.spec_data_type()
                == c0.spec_data_type() && out@ == arith_eval_spec(op, *c0, *c1, rows as nat),
            Err(_) => !arith_eval_ok(op, *c0, *c1, rows as nat),
        }),
{
    let t0 = c0.data_type();
    let t1 = c1.data_type();
    if !t0.same_as(&t1) || !t0.is_integer() {
        return Err(
            ErrorCode::bad_data_value_type(
                "arithmetic needs two operands of one integer type".to_owned(),
            ),
        );
    }
    if !check_col_fits(c0, rows) || !check_col_fits(c1, rows) {
        return Err(
            ErrorCode::number_arguments_not_match(
                "an arithmetic operand does not fit the row count".to_owned(),
            ),
        );
    }
    let ghost goal = arith_eval_spec(op, *c0, *c1, rows as nat);
    let mut values: Vec<DataValue> = Vec::new();
    for i in 0..rows
        invariant
            values@.len() == i,
            forall|j: int| 0 <= j < i ==> values@[j] == goal[j],
            forall|j: int|
                0 <= j < i ==> (#[trigger] values@[j]).spec_data_type() == c0.spec_data_type(),
            forall|j: int| 0 <= j < i ==> arith_defined(op, bidx(*c0, j), bidx(*c1, j)),
    {
        let a = col_at(c0, i);
        let b = col_at(c1, i);
        if a.is_null() || b.is_null() {
            let v = DataValue::null_of(&t0);
            proof {
                assert(v == spec_null_of(c0.spec_data_type()));
            }
            values.push(v);
        } else {
            proof {
                crate::columns::lemma_column_element_type(*c0, if col_single(*c0) { 0 } else { i as int });
                crate::columns::lemma_column_element_type(*c1, if col_single(*c1) { 0 } else { i as int });
            }
            match arith_scalars(op, a, b) {
                Some(v) => {
                    values.push(v);
                },
                None => {
                    return Err(
                        ErrorCode::bad_arguments(
                            "division or remainder by zero in arithmetic".to_owned(),
                        ),
                    );
                },
            }
        }
    }
    proof {
        assert(values@ =~= goal);
    }
    Ok(DataArray::from_values(t0, values))
}

/// One negation result cell.
pub open spec fn neg_cell(a: DataValue) -> DataValue {
    if a.spec_is_null() {
        spec_null_of(a.spec_data_type())
    } else {
        arith_row(ArithmeticOp::Neg, a, a)->0
    }
}

/// When a negation succeeds: a signed integer column that fits.
pub open spec fn neg_eval_ok(c0: DataColumn, rows: nat) -> bool {
    &&& (c0.spec_data_type() is Int8 || c0.spec_data_type() is Int16 || c0.spec_data_type()
        is Int32 || c0.spec_data_type() is Int64)
    &&& col_fits(c0, rows)
}

/// The row results of a negation.
pub open spec fn neg_eval_spec(c0: DataColumn, rows: nat) -> Seq<DataValue> {
    Seq::new(rows, |i: int| neg_cell(bidx(c0, i)))
}

/// Elementwise wrapping negation of a signed integer column.
#[verifier::loop_isolation(false)]
pub fn negate_eval(c0: &DataColumn, rows: usize) -> (res: Result<DataArray, ErrorCode>)
    requires
        c0.wf(),
    ensures
        (match res {
            Ok(out) => neg_eval_ok(*c0, rows as nat) && out.wf() && out.spec_data_type()
                == c0.spec_data_type() && out@ == neg_eval_spec(*c0, rows as nat),
            Err(_) => !neg_eval_ok(*c0, rows as nat),
        }),
{
    let t0 = c0.data_type();
    let signed = matches!(t0, DataType::Int8) || matches!(t0, DataType::Int16) || matches!(
        t0,
        DataType::Int32,
    ) || matches!(t0, DataType::Int64);
    if !signed {
        return Err(
            ErrorCode::bad_data_value_type("negation needs a signed integer operand".to_owned()),
        );
    }
    if !check_col_fits(c0, rows) {
        return Err(
            ErrorCode::number_arguments_not_match(
                "the negation operand does not fit the row count".to_owned(),
            ),
        );
    }
    let ghost goal = neg_eval_spec(*c0, rows as nat);
    let mut values: Vec<DataValue> = Vec::new();
    for i in 0..rows
        invariant
            values@.len() == i,
            forall|j: int| 0 <= j < i ==> values@[j] == goal[j],
            forall|j: int|
                0 <= j < i ==> (#[trigger] values@[j]).spec_data_type() == c0.spec_data_type(),
    {
        let a = col_at(c0, i);
        if a.is_null() {
            let v = DataValue::null_of(&t0);
            values.push(v);
        } else {
            proof {
                crate::columns::lemma_column_element_type(*c0, if col_single(*c0) { 0 } else { i as int });
            }
            match arith_scalars(ArithmeticOp::Neg, a, a) {
                Some(v) => {
                    values.push(v);
                },
                None => {
                    proof {
                        assert(false);
                    }
                    return Err(ErrorCode::bad_arguments("a branch the preconditions rule out".to_owned()));
                },
            }
        }
    }
    proof {
        assert(values@ =~= goal);
    }
    Ok(DataArray::from_values(t0, values))
}

/// When a two-operand connective succeeds: boolean operands that fit.
pub open spec fn logic_eval_ok(c0: DataColumn, c1: DataColumn, rows: nat) -> bool {
    &&& c0.spec_data_type() == DataType::Boolean
    &&& c1.spec_data_type() == DataType::Boolean
    &&& col_fits(c0, rows)
    &&& col_fits(c1, rows)
}

/// The row results of a two-operand connective.
pub open spec fn logic_eval_spec(op: LogicOp, c0: DataColumn, c1: DataColumn, rows: nat) -> Seq<
    DataValue,
> {
    Seq::new(rows, |i: int| logic_row(op, bidx(c0, i), bidx(c1, i)))
}

/// Elementwise boolean connective over columns with broadcast and
/// strict null propagation. `Not` reads only its first operand.
#[verifier::loop_isolation(false)]
pub fn logic_eval(op: LogicOp, c0: &DataColumn, c1: &DataColumn, rows: usize) -> (res: Result<
    DataArray,
    ErrorCode,
>)
    requires
        c0.wf(),
        c1.wf(),
    ensures
        (match res {
            Ok(out) => logic_eval_ok(*c0, *c1, rows as nat) && out.wf() && out.spec_data_type()
                == DataType::Boolean && out@ == logic_eval_spec(op, *c0, *c1, rows as nat),
            Err(_) => !logic_eval_ok(*c0, *c1, rows as nat),
        }),
{
    let t0 = c0.data_type();
    let t1 = c1.data_type();
    if !matches!(t0, DataType::Boolean) || !matches!(t1, DataType::Boolean) {
        return Err(
            ErrorCode::bad_data_value_type("the connectives need boolean operands".to_owned()),
        );
    }
    if !check_col_fits(c0, rows) || !check_col_fits(c1, rows) {
        return Err(
            ErrorCode::number_arguments_not_match(
                "a connective operand does not fit the row count".to_owned(),
            ),
        );
    }
    let ghost goal = logic_eval_spec(op, *c0, *c1, rows as nat);
    let mut values: Vec<DataValue> = Vec::new();
    for i in 0..rows
        invariant
            values@.len() == i,
            forall|j: int| 0 <= j < i ==> values@[j] == goal[j],
            forall|j: int|
                0 <= j < i ==> (#[trigger] values@[j]).spec_data_type() == DataType::Boolean,
    {
        let a = col_at(c0, i);
        let b = col_at(c1, i);
        proof {
            crate::columns::lemma_column_element_type(*c0, if col_single(*c0) { 0 } else { i as int });
            crate::columns::lemma_column_element_type(*c1, if col_single(*c1) { 0 } else { i as int });
        }
        let v = logic_scalars(op, a, b);
        values.push(v);
    }
    proof {
        assert(values@ =~= goal);
    }
    Ok(DataArray::from_values(DataType::Boolean, values))
}


/// One conditional cell: a present `true` flag picks the second
/// argument, anything else (false or null) the third.
pub open spec fn cond_cell(f: DataValue, t: DataValue, e: DataValue) -> DataValue {
    if f == DataValue::Boolean(Some(true)) {
        t
    } else {
        e
    }
}

/// When a conditional evaluation succeeds: a boolean flag and two
/// branches of one type, all fitting the row count.
pub open spec fn condition_eval_ok(
    c0: DataColumn,
    c1: DataColumn,
    c2: DataColumn,
    rows: nat,
) -> bool {
    &&& c0.spec_data_type() == DataType::Boolean
    &&& c1.spec_data_type() == c2.spec_data_type()
    &&& col_fits(c0, rows)
    &&& col_fits(c1, rows)
    &&& col_fits(c2, rows)
}

/// The row results of a conditional evaluation.
pub open spec fn condition_eval_spec(
    c0: DataColumn,
    c1: DataColumn,
    c2: DataColumn,
    rows: nat,
) -> Seq<DataValue> {
    Seq::new(rows, |i: int| cond_cell(bidx(c0, i), bidx(c1, i), bidx(c2, i)))
}

/// Elementwise conditional over three columns with broadcast; a null
/// flag excludes the row from the then-branch, exactly as `false`.
#[verifier::loop_isolation(false)]
pub fn condition_eval(c0: &DataColumn, c1: &DataColumn, c2: &DataColumn, rows: usize) -> (res:
    Result<DataArray, ErrorCode>)
    requires
        c0.wf(),
        c1.wf(),
        c2.wf(),
    ensures
        (match res {
            Ok(out) => condition_eval_ok(*c0, *c1, *c2, rows as nat) && out.wf()
                && out.spec_data_type() == c1.spec_data_type() && seq_dv_eq(
                out@,
                condition_eval_spec(*c0, *c1, *c2, rows as nat),
            ),
            Err(_) => !condition_eval_ok(*c0, *c1, *c2, rows as nat),
        }),
{
    let t0 = c0.data_type();
    let t1 = c1.data_type();
    let t2 = c2.data_type();
    if !matches!(t0, DataType::Boolean) {
        return Err(
            ErrorCode::bad_arguments("the conditional needs a boolean flag column".to_owned()),
        );
    }
    if !t1.same_as(&t2) {
        return Err(
            ErrorCode::bad_arguments("the two branches must have one type".to_owned()),
        );
    }
    if !check_col_fits(c0, rows) || !check_col_fits(c1, rows) || !check_col_fits(c2, rows) {
        return Err(
            ErrorCode::number_arguments_not_match(
                "a conditional operand does not fit the row count".to_owned(),
            ),
        );
    }
    let ghost goal = condition_eval_spec(*c0, *c1, *c2, rows as nat);
    let mut values: Vec<DataValue> = Vec::new();
    for i in 0..rows
        invariant
            values@.len() == i,
            forall|j: int| 0 <= j < i ==> dv_eq(#[trigger] values@[j], goal[j]),
            forall|j: int|
                0 <= j < i ==> (#[trigger] values@[j]).spec_data_type() == c1.spec_data_type(),
    {
        let f = col_at(c0, i);
        let picked = if matches!(f, DataValue::Boolean(Some(true))) {
            col_at(c1, i)
        } else {
            col_at(c2, i)
        };
        let v = picked.duplicate();
        proof {
            crate::values::lemma_dv_eq_same_type(v, goal[i as int]);
            crate::columns::lemma_column_element_type(*c1, if col_single(*c1) { 0 } else { i as int });
            crate::columns::lemma_column_element_type(*c2, if col_single(*c2) { 0 } else { i as int });
        }
        values.push(v);
    }
    Ok(DataArray::from_values(t1, values))
}

/// Conditional selection over three equally long dense arrays.
pub fn if_then_else(
    flag_values: &DataArray,
    true_values: &DataArray,
    false_values: &DataArray,
) -> (res: Result<DataArray, ErrorCode>)
    requires
        flag_values.wf(),
        true_values.wf(),
        false_values.wf(),
        flag_values@.len() == true_values@.len(),
        flag_values@.len() == false_values@.len(),
        flag_values.spec_data_type() == DataType::Boolean,
        true_values.spec_data_type() == false_values.spec_data_type(),
    ensures
        (match res {
            Ok(out) => out.wf() && out@.len() == flag_values@.len() && (forall|i: int|
                0 <= i < out@.len() ==> dv_eq(
                    #[trigger] out@[i],
                    cond_cell(flag_values@[i], true_values@[i], false_values@[i]),
                )),
            Err(_) => false,
        }),
{
    let n = flag_values.len();
    let fc = crate::columns::DataColumn::Array(duplicate_array(flag_values));
    let tc = crate::columns::DataColumn::Array(duplicate_array(true_values));
    let ec = crate::columns::DataColumn::Array(duplicate_array(false_values));
    if n == 1 {
        let mut values: Vec<DataValue> = Vec::new();
        let picked = if matches!(flag_values.get(0), DataValue::Boolean(Some(true))) {
            true_values.get(0)
        } else {
            false_values.get(0)
        };
        let v = picked.duplicate();
        proof {
            crate::values::lemma_dv_eq_same_type(
                v,
                cond_cell(flag_values@[0], true_values@[0], false_values@[0]),
            );
        }
        values.push(v);
        return Ok(DataArray::from_values(true_values.data_type().duplicate(), values));
    }
    match condition_eval(&fc, &tc, &ec, n) {
        Ok(out) => {
            proof {
                assert forall|i: int| 0 <= i < out@.len() implies dv_eq(
                    #[trigger] out@[i],
                    cond_cell(flag_values@[i], true_values@[i], false_values@[i]),
                ) by {
                    let goal = condition_eval_spec(fc, tc, ec, n as nat);
                    assert(dv_eq(out@[i], goal[i]));
                    assert(bidx(fc, i) == fc@[i] && bidx(tc, i) == tc@[i] && bidx(ec, i)
                        == ec@[i]);
                    assert(dv_eq(fc@[i], flag_values@[i]));
                    assert(dv_eq(tc@[i], true_values@[i]));
                    assert(dv_eq(ec@[i], false_values@[i]));
                    lemma_cond_cell_congruence(
                        fc@[i],
                        tc@[i],
                        ec@[i],
                        flag_values@[i],
                        true_values@[i],
                        false_values@[i],
                    );
                    crate::values::lemma_dv_eq_trans(
                        out@[i],
                        cond_cell(fc@[i], tc@[i], ec@[i]),
                        cond_cell(flag_values@[i], true_values@[i], false_values@[i]),
                    );
                }
            }
            Ok(out)
        },
        Err(e) => {
            proof {
                assert(false);
            }
            Err(e)
        },
    }
}

/// Conditional selection specialized to byte-sized unsigned values.
pub fn if_then_else_u8(
    flag_values: &DataArray,
    true_values: &DataArray,
    false_values: &DataArray,
) -> (res: Result<DataArray, ErrorCode>)
    requires
        flag_values.wf(),
        true_values.wf(),
        false_values.wf(),
        flag_values@.len() == true_values@.len(),
        flag_values@.len() == false_values@.len(),
        flag_values.spec_data_type() == DataType::Boolean,
        true_values.spec_data_type() == DataType::UInt8,
        false_values.spec_data_type() == DataType::UInt8,
    ensures
        (match res {
            Ok(out) => out.wf() && out@.len() == flag_values@.len() && (forall|i: int|
                0 <= i < out@.len() ==> dv_eq(
                    #[trigger] out@[i],
                    cond_cell(flag_values@[i], true_values@[i], false_values@[i]),
                )),
            Err(_) => false,
        }),
{
    if_then_else(flag_values, true_values, false_values)
}

proof fn lemma_cond_cell_congruence(
    f1: DataValue,
    t1: DataValue,
    e1: DataValue,
    f2: DataValue,
    t2: DataValue,
    e2: DataValue,
)
    requires
        dv_eq(f1, f2),
        dv_eq(t1, t2),
        dv_eq(e1, e2),
    ensures
        dv_eq(cond_cell(f1, t1, e1), cond_cell(f2, t2, e2)),
{
    assert(f1 == DataValue::Boolean(Some(true)) <==> f2 == DataValue::Boolean(Some(true)));
}

/// An exec deep copy of a dense array.
pub fn duplicate_array(a: &DataArray) -> (r: DataArray)
    requires
        a.wf(),
    ensures
        r.wf(),
        r@.len() == a@.len(),
        r.spec_data_type() == a.spec_data_type(),
        forall|i: int| 0 <= i < a@.len() ==> dv_eq(#[trigger] r@[i], a@[i]),
{
    let n = a.len();
    let mut values: Vec<DataValue> = Vec::new();
    for i in 0..n
        invariant
            n == a@.len(),
            a.wf(),
            values@.len() == i,
            forall|j: int| 0 <= j < i ==> dv_eq(#[trigger] values@[j], a@[j]),
            forall|j: int|
                0 <= j < i ==> (#[trigger] values@[j]).spec_data_type() == a.spec_data_type(),
    {
        let v = a.get(i).duplicate();
        proof {
            crate::values::lemma_dv_eq_same_type(v, a@[i as int]);
        }
        values.push(v);
    }
    DataArray::from_values(a.data_type().duplicate(), values)
}


/// What one substring result cell must satisfy: null in, null out;
/// otherwise a string holding exactly the selected characters.
pub open spec fn substring_cell_ok(
    out_v: DataValue,
    s: DataValue,
    p: DataValue,
    l: Option<DataValue>,
) -> bool {
    if s.spec_is_null() || p.spec_is_null() || (match l {
        Some(lv) => lv.spec_is_null(),
        None => false,
    }) {
        out_v == DataValue::Utf8(None)
    } else {
        match (s, p) {
            (DataValue::Utf8(Some(ss)), DataValue::Int64(Some(pp))) => {
                let ln = match l {
                    Some(DataValue::UInt64(Some(ll))) => Some(ll as int),
                    _ => None,
                };
                match out_v {
                    DataValue::Utf8(Some(res)) => res@ == substring_spec(ss@, pp as int, ln),
                    _ => false,
                }
            },
            _ => false,
        }
    }
}

/// When a substring evaluation succeeds: a string column, a 64-bit
/// signed position, an optional 64-bit unsigned length, all fitting.
pub open spec fn substring_eval_ok(cols: Seq<DataColumn>, rows: nat) -> bool {
    &&& (cols.len() == 2 || cols.len() == 3)
    &&& cols[0].spec_data_type() == DataType::Utf8
    &&& cols[1].spec_data_type() == DataType::Int64
    &&& (cols.len() == 3 ==> cols[2].spec_data_type() == DataType::UInt64)
    &&& forall|k: int| 0 <= k < cols.len() ==> col_fits(#[trigger] cols[k], rows)
}

/// Elementwise substring over two or three columns with broadcast and
/// null propagation.
#[verifier::loop_isolation(false)]
pub fn substring_eval(cols: &Vec<DataColumn>, rows: usize) -> (res: Result<DataArray, ErrorCode>)
    requires
        forall|k: int| 0 <= k < cols@.len() ==> (#[trigger] cols@[k]).wf(),
    ensures
        (match res {
            Ok(out) => substring_eval_ok(cols@, rows as nat) && out.wf() && out.spec_data_type()
                == DataType::Utf8 && out@.len() == rows && (forall|i: int|
                0 <= i < rows ==> substring_cell_ok(
                    #[trigger] out@[i],
                    bidx(cols@[0], i),
                    bidx(cols@[1], i),
                    (if cols@.len() == 3 {
                        Some(bidx(cols@[2], i))
                    } else {
                        None
                    }),
                )),
            Err(_) => !substring_eval_ok(cols@, rows as nat),
        }),
{
    if cols.len() != 2 && cols.len() != 3 {
        return Err(
            ErrorCode::number_arguments_not_match(
                "the substring function takes two or three arguments".to_owned(),
            ),
        );
    }
    if !matches!(cols[0].data_type(), DataType::Utf8) || !matches!(
        cols[1].data_type(),
        DataType::Int64,
    ) {
        return Err(
            ErrorCode::bad_data_value_type(
                "the substring function needs a string and a position".to_owned(),
            ),
        );
    }
    if cols.len() == 3 && !matches!(cols[2].data_type(), DataType::UInt64) {
        return Err(
            ErrorCode::bad_data_value_type(
                "the substring length must be an unsigned number".to_owned(),
            ),
        );
    }
    let nargs = cols.len();
    for k in 0..nargs
        invariant
            forall|k2: int| 0 <= k2 < k ==> col_fits(#[trigger] cols@[k2], rows as nat),
    {
        if !check_col_fits(&cols[k], rows) {
            return Err(
                ErrorCode::number_arguments_not_match(
                    "a substring operand does not fit the row count".to_owned(),
                ),
            );
        }
    }
    let mut values: Vec<DataValue> = Vec::new();
    for i in 0..rows
        invariant
            values@.len() == i,
            forall|j: int|
                0 <= j < i ==> substring_cell_ok(
                    #[trigger] values@[j],
                    bidx(cols@[0], j),
                    bidx(cols@[1], j),
                    (if cols@.len() == 3 {
                        Some(bidx(cols@[2], j))
                    } else {
                        None
                    }),
                ),
            forall|j: int|
                0 <= j < i ==> (#[trigger] values@[j]).spec_data_type() == DataType::Utf8,
    {
        let sv = col_at(&cols[0], i);
        let pv = col_at(&cols[1], i);
        proof {
            crate::columns::lemma_column_element_type(cols@[0], if col_single(cols@[0]) { 0 } else { i as int });
            crate::columns::lemma_column_element_type(cols@[1], if col_single(cols@[1]) { 0 } else { i as int });
            if cols@.len() == 3 {
                crate::columns::lemma_column_element_type(cols@[2], if col_single(cols@[2]) { 0 } else { i as int });
            }
        }
        let lnull: bool = if nargs == 3 {
            col_at(&cols[2], i).is_null()
        } else {
            false
        };
        if sv.is_null() || pv.is_null() || lnull {
            values.push(DataValue::Utf8(None));
        } else {
            let piece = match (sv, pv) {
                (DataValue::Utf8(Some(ss)), DataValue::Int64(Some(pp))) => {
                    if nargs == 3 {
                        match col_at(&cols[2], i) {
                            DataValue::UInt64(Some(ll)) => substring_str(
                                ss.as_str(),
                                *pp,
                                Some(*ll),
                            ),
                            _ => {
                                proof {
                                    assert(false);
                                }
                                String::new()
                            },
                        }
                    } else {
                        substring_str(ss.as_str(), *pp, None)
                    }
                },
                _ => {
                    proof {
                        assert(false);
                    }
                    String::new()
                },
            };
            values.push(DataValue::Utf8(Some(piece)));
        }
    }
    Ok(DataArray::from_values(DataType::Utf8, values))
}

/// The mathematical value a present integer scalar carries.
pub open spec fn int_value_of(v: DataValue) -> int {
    match v {
        DataValue::Int8(Some(x)) => x as int,
        DataValue::Int16(Some(x)) => x as int,
        DataValue::Int32(Some(x)) => x as int,
        DataValue::Int64(Some(x)) => x as int,
        DataValue::UInt8(Some(x)) => x as int,
        DataValue::UInt16(Some(x)) => x as int,
        DataValue::UInt32(Some(x)) => x as int,
        DataValue::UInt64(Some(x)) => x as int,
        _ => 0,
    }
}

/// Whether a mathematical value is representable in an integer type.
pub open spec fn int_in_range(t: DataType, x: int) -> bool {
    match t {
        DataType::Int8 => i8::MIN <= x <= i8::MAX,
        DataType::Int16 => i16::MIN <= x <= i16::MAX,
        DataType::Int32 => i32::MIN <= x <= i32::MAX,
        DataType::Int64 => i64::MIN <= x <= i64::MAX,
        DataType::UInt8 => 0 <= x <= u8::MAX,
        DataType::UInt16 => 0 <= x <= u16::MAX,
        DataType::UInt32 => 0 <= x <= u32::MAX,
        DataType::UInt64 => 0 <= x <= u64::MAX,
        _ => false,
    }
}

/// The scalar of an integer type carrying a representable value.
pub open spec fn int_dv_of(t: DataType, x: int) -> DataValue {
    match t {
        DataType::Int8 => DataValue::Int8(Some(x as i8)),
        DataType::Int16 => DataValue::Int16(Some(x as i16)),
        DataType::Int32 => DataValue::Int32(Some(x as i32)),
        DataType::Int64 => DataValue::Int64(Some(x as i64)),
        DataType::UInt8 => DataValue::UInt8(Some(x as u8)),
        DataType::UInt16 => DataValue::UInt16(Some(x as u16)),
        DataType::UInt32 => DataValue::UInt32(Some(x as u32)),
        DataType::UInt64 => DataValue::UInt64(Some(x as u64)),
        _ => DataValue::Null,
    }
}

/// One cast result cell: a missing value stays missing, a
/// representable value keeps its mathematical value in the target
/// type, and an unrepresentable one becomes missing — the safe
/// numeric cast.
pub open spec fn cast_cell(v: DataValue, t: DataType) -> DataValue {
    if v.spec_is_null() {
        spec_null_of(t)
    } else if int_in_range(t, int_value_of(v)) {
        int_dv_of(t, int_value_of(v))
    } else {
        spec_null_of(t)
    }
}

/// When a cast evaluation succeeds: an integer source column that
/// fits the row count and an integer target type.
pub open spec fn cast_eval_ok(c0: DataColumn, t: DataType, rows: nat) -> bool {
    &&& c0.spec_data_type().spec_is_integer()
    &&& t.spec_is_integer()
    &&& col_fits(c0, rows)
}

/// The row results of a cast evaluation.
pub open spec fn cast_eval_spec(c0: DataColumn, t: DataType, rows: nat) -> Seq<DataValue> {
    Seq::new(rows, |i: int| cast_cell(bidx(c0, i), t))
}

/// The payload of a present integer scalar, widened so that every
/// supported source value fits.
fn int_to_wide(v: &DataValue) -> (r: i128)
    requires
        v.spec_data_type().spec_is_integer(),
        !v.spec_is_null(),
    ensures
        r == int_value_of(*v),
{
    match v {
        DataValue::Int8(Some(x)) => *x as i128,
        DataValue::Int16(Some(x)) => *x as i128,
        DataValue::Int32(Some(x)) => *x as i128,
        DataValue::Int64(Some(x)) => *x as i128,
        DataValue::UInt8(Some(x)) => *x as i128,
        DataValue::UInt16(Some(x)) => *x as i128,
        DataValue::UInt32(Some(x)) => *x as i128,
        DataValue::UInt64(Some(x)) => *x as i128,
        _ => {
            proof {
                assert(false);
            }
            0
        },
    }
}

/// Narrows a widened value into the target type where it fits.
fn wide_to_value(t: &DataType, x: i128) -> (r: Option<DataValue>)
    requires
        t.spec_is_integer(),
    ensures
        (match r {
            Some(v) => int_in_range(*t, x as int) && v == int_dv_of(*t, x as int),
            None => !int_in_range(*t, x as int),
        }),
{
    match t {
        DataType::Int8 => if i8::MIN as i128 <= x && x <= i8::MAX as i128 {
            Some(DataValue::Int8(Some(x as i8)))
        } else {
            None
        },
        DataType::Int16 => if i16::MIN as i128 <= x && x <= i16::MAX as i128 {
            Some(DataValue::Int16(Some(x as i16)))
        } else {
            None
        },
        DataType::Int32 => if i32::MIN as i128 <= x && x <= i32::MAX as i128 {
            Some(DataValue::Int32(Some(x as i32)))
        } else {
            None
        },
        DataType::Int64 => if i64::MIN as i128 <= x && x <= i64::MAX as i128 {
            Some(DataValue::Int64(Some(x as i64)))
        } else {
            None
        },
        DataType::UInt8 => if 0 <= x && x <= u8::MAX as i128 {
            Some(DataValue::UInt8(Some(x as u8)))
        } else {
            None
        },
        DataType::UInt16 => if 0 <= x && x <= u16::MAX as i128 {
            Some(DataValue::UInt16(Some(x as u16)))
        } else {
            None
        },
        DataType::UInt32 => if 0 <= x && x <= u32::MAX as i128 {
            Some(DataValue::UInt32(Some(x as u32)))
        } else {
            None
        },
        DataType::UInt64 => if 0 <= x && x <= u64::MAX as i128 {
            Some(DataValue::UInt64(Some(x as u64)))
        } else {
            None
        },
        _ => {
            proof {
                assert(false);
            }
            None
        },
    }
}

/// Elementwise safe cast of an integer column into an integer type:
/// values keep their mathematical value, out-of-range values become
/// missing.
#[verifier::loop_isolation(false)]
pub fn cast_eval(c0: &DataColumn, target: &DataType, rows: usize) -> (res: Result<
    DataArray,
    ErrorCode,
>)
    requires
        c0.wf(),
    ensures
        (match res {
            Ok(out) => cast_eval_ok(*c0, *target, rows as nat) && out.wf() && out.spec_data_type()
                == *target && out@ == cast_eval_spec(*c0, *target, rows as nat),
            Err(_) => !cast_eval_ok(*c0, *target, rows as nat),
        }),
{
    let t0 = c0.data_type();
    if !t0.is_integer() || !target.is_integer() {
        return Err(
            ErrorCode::bad_data_value_type(
                "this cast supports integer source and target types".to_owned(),
            ),
        );
    }
    if !check_col_fits(c0, rows) {
        return Err(
            ErrorCode::number_arguments_not_match(
                "the cast operand does not fit the row count".to_owned(),
            ),
        );
    }
    let ghost goal = cast_eval_spec(*c0, *target, rows as nat);
    let mut values: Vec<DataValue> = Vec::new();
    for i in 0..rows
        invariant
            values@.len() == i,
            forall|j: int| 0 <= j < i ==> values@[j] == goal[j],
            forall|j: int|
                0 <= j < i ==> (#[trigger] values@[j]).spec_data_type() == *target,
    {
        let v = col_at(c0, i);
        if v.is_null() {
            values.push(DataValue::null_of(target));
        } else {
            proof {
                crate::columns::lemma_column_element_type(*c0, if col_single(*c0) { 0 } else { i as int });
            }
            let x: i128 = int_to_wide(v);
            match wide_to_value(target, x) {
                Some(cell) => {
                    values.push(cell);
                },
                None => {
                    values.push(DataValue::null_of(target));
                },
            }
        }
    }
    proof {
        assert(values@ =~= goal);
    }
    Ok(DataArray::from_values(target.duplicate(), values))
}

/// The value a diagnostic sleep accepts: a present integer strictly
/// under three seconds (and strictly positive when signed).
pub open spec fn sleep_value_ok(v: DataValue) -> bool {
    match v {
        DataValue::UInt8(Some(x)) => x < 3,
        DataValue::UInt16(Some(x)) => x < 3,
        DataValue::UInt32(Some(x)) => x < 3,
        DataValue::UInt64(Some(x)) => x < 3,
        DataValue::Int8(Some(x)) => 0 < x < 3,
        DataValue::Int16(Some(x)) => 0 < x < 3,
        DataValue::Int32(Some(x)) => 0 < x < 3,
        DataValue::Int64(Some(x)) => 0 < x < 3,
        _ => false,
    }
}

/// When a sleep evaluation succeeds: one constant argument holding an
/// accepted duration. A varying column is rejected outright.
pub open spec fn sleep_eval_ok(cols: Seq<DataColumn>) -> bool {
    cols.len() == 1 && (match cols[0] {
        DataColumn::Constant(v, _) => sleep_value_ok(v),
        DataColumn::Array(_) => false,
    })
}

/// The seconds a diagnostic sleep argument asks for. The library only
/// decides; the embedding application performs the blocking itself.
pub fn sleep_seconds(c: &DataColumn) -> (res: Result<u64, ErrorCode>)
    ensures
        (match res {
            Ok(s) => (match *c {
                DataColumn::Constant(v, _) => sleep_value_ok(v) && s < 3,
                DataColumn::Array(_) => false,
            }),
            Err(e) => !(match *c {
                DataColumn::Constant(v, _) => sleep_value_ok(v),
                DataColumn::Array(_) => false,
            }) && e.kind() == ErrorKind::BadArguments,
        }),
{
    match c {
        DataColumn::Array(_) => Err(
            ErrorCode::bad_arguments("the sleep argument must be constant".to_owned()),
        ),
        DataColumn::Constant(v, _) => {
            let seconds: Option<u64> = match v {
                DataValue::UInt8(Some(x)) => Some(*x as u64),
                DataValue::UInt16(Some(x)) => Some(*x as u64),
                DataValue::UInt32(Some(x)) => Some(*x as u64),
                DataValue::UInt64(Some(x)) => Some(*x),
                DataValue::Int8(Some(x)) => if *x > 0 {
                    Some(*x as u64)
                } else {
                    None
                },
                DataValue::Int16(Some(x)) => if *x > 0 {
                    Some(*x as u64)
                } else {
                    None
                },
                DataValue::Int32(Some(x)) => if *x > 0 {
                    Some(*x as u64)
                } else {
                    None
                },
                DataValue::Int64(Some(x)) => if *x > 0 {
                    Some(*x as u64)
                } else {
                    None
                },
                _ => None,
            };
            match seconds {
                Some(s) => {
                    if s >= 3 {
                        Err(
                            ErrorCode::bad_arguments(
                                "the maximum sleep time is under three seconds".to_owned(),
                            ),
                        )
                    } else {
                        Ok(s)
                    }
                },
                None => Err(
                    ErrorCode::bad_arguments(
                        "the sleep time must be a present, positive number of seconds".to_owned(),
                    ),
                ),
            }
        },
    }
}


/// One scalar function instance: the closed union of the built-in
/// families, each carrying what its constructor bound (an operator, a
/// display name, a resolved type).
#[derive(Debug)]
pub enum FunctionImpl {
    Comparison(CompareOp),
    Arithmetic(ArithmeticOp, DataType),
    Logic(LogicOp),
    Substring(String),
    ToTypeName(String),
    UdfExample(String),
    Database(String),
    Version(String),
    Sleep(String),
    CrashMe(String),
    SipHash(String),
    Condition(DataType, bool),
    Cast(DataType, bool),
    ColumnRef(String, DataType, bool),
    Alias(String, DataType),
}

/// When an evaluation of one function over the given argument columns
/// succeeds.
pub open spec fn eval_ok(f: FunctionImpl, cols: Seq<DataColumn>, rows: nat) -> bool {
    match f {
        FunctionImpl::Comparison(op) => cols.len() == 2 && cmp_columns_ok(op, cols[0], cols[1]),
        FunctionImpl::Arithmetic(op, _) => if cols.len() == 1 {
            neg_eval_ok(cols[0], rows)
        } else {
            cols.len() == 2 && !(op is Neg) && arith_eval_ok(op, cols[0], cols[1], rows)
        },
        FunctionImpl::Logic(op) => (match op {
            LogicOp::Not => cols.len() == 1 && logic_eval_ok(cols[0], cols[0], rows),
            _ => cols.len() == 2 && logic_eval_ok(cols[0], cols[1], rows),
        }),
        FunctionImpl::Substring(_) => substring_eval_ok(cols, rows),
        FunctionImpl::ToTypeName(_) => cols.len() == 1,
        FunctionImpl::UdfExample(_) => true,
        FunctionImpl::Database(_) => cols.len() == 1,
        FunctionImpl::Version(_) => cols.len() == 1,
        FunctionImpl::Sleep(_) => sleep_eval_ok(cols),
        FunctionImpl::CrashMe(_) => false,
        FunctionImpl::SipHash(_) => cols.len() == 1 && crate::hashes::siphash_eval_ok(
            cols[0],
            rows,
        ),
        FunctionImpl::Condition(_, _) => cols.len() == 3 && condition_eval_ok(
            cols[0],
            cols[1],
            cols[2],
            rows,
        ),
        FunctionImpl::Cast(t, _) => cols.len() == 1 && cast_eval_ok(cols[0], t, rows),
        FunctionImpl::ColumnRef(_, _, _) => cols.len() == 1,
        FunctionImpl::Alias(_, _) => cols.len() == 1,
    }
}

/// What the rows of a successful evaluation satisfy.
pub open spec fn eval_post(
    f: FunctionImpl,
    cols: Seq<DataColumn>,
    rows: nat,
    out: Seq<DataValue>,
) -> bool {
    match f {
        FunctionImpl::Comparison(op) => out == cmp_columns_spec(op, cols[0], cols[1]),
        FunctionImpl::Arithmetic(op, _) => if cols.len() == 1 {
            out == neg_eval_spec(cols[0], rows)
        } else {
            out == arith_eval_spec(op, cols[0], cols[1], rows)
        },
        FunctionImpl::Logic(op) => (match op {
            LogicOp::Not => out == logic_eval_spec(op, cols[0], cols[0], rows),
            _ => out == logic_eval_spec(op, cols[0], cols[1], rows),
        }),
        FunctionImpl::Substring(_) => out.len() == rows && (forall|i: int|
            0 <= i < rows ==> substring_cell_ok(
                #[trigger] out[i],
                bidx(cols[0], i),
                bidx(cols[1], i),
                (if cols.len() == 3 {
                    Some(bidx(cols[2], i))
                } else {
                    None
                }),
            )),
        FunctionImpl::ToTypeName(_) => out.len() == rows && (forall|i: int|
            0 <= i < rows ==> (match #[trigger] out[i] {
                DataValue::Utf8(Some(nm)) => nm@ == cols[0].spec_data_type().type_name_chars(),
                _ => false,
            })),
        FunctionImpl::UdfExample(_) => out == Seq::new(
            rows,
            |i: int| DataValue::Boolean(Some(true)),
        ),
        FunctionImpl::Database(_) => seq_dv_eq(out, cols[0]@),
        FunctionImpl::Version(_) => seq_dv_eq(out, cols[0]@),
        FunctionImpl::Sleep(_) => out == Seq::new(rows, |i: int| DataValue::UInt8(Some(0))),
        FunctionImpl::CrashMe(_) => false,
        FunctionImpl::SipHash(_) => out == crate::hashes::siphash_eval_spec(cols[0], rows),
        FunctionImpl::Condition(_, _) => seq_dv_eq(
            out,
            condition_eval_spec(cols[0], cols[1], cols[2], rows),
        ),
        FunctionImpl::Cast(t, _) => out == cast_eval_spec(cols[0], t, rows),
        FunctionImpl::ColumnRef(_, _, _) => seq_dv_eq(out, cols[0]@),
        FunctionImpl::Alias(_, _) => seq_dv_eq(out, cols[0]@),
    }
}

impl FunctionImpl {
    /// The family name of the function.
    pub fn name(&self) -> (r: String) {
        match self {
            FunctionImpl::Comparison(_) => "ComparisonFunction".to_owned(),
            FunctionImpl::Arithmetic(_, _) => "ArithmeticFunction".to_owned(),
            FunctionImpl::Logic(op) => match op {
                LogicOp::And => "AndFunction".to_owned(),
                LogicOp::Or => "OrFunction".to_owned(),
                LogicOp::Not => "NotFunction".to_owned(),
            },
            FunctionImpl::Substring(_) => "SubstringFunction".to_owned(),
            FunctionImpl::ToTypeName(_) => "ToTypeNameFunction".to_owned(),
            FunctionImpl::UdfExample(_) => "UdfExampleFunction".to_owned(),
            FunctionImpl::Database(_) => "DatabaseFunction".to_owned(),
            FunctionImpl::Version(_) => "VersionFunction".to_owned(),
            FunctionImpl::Sleep(_) => "SleepFunction".to_owned(),
            FunctionImpl::CrashMe(_) => "CrashMeFunction".to_owned(),
            FunctionImpl::SipHash(_) => "siphash".to_owned(),
            FunctionImpl::Condition(_, _) => "ConditionFunction".to_owned(),
            FunctionImpl::Cast(_, _) => "CastFunction".to_owned(),
            FunctionImpl::ColumnRef(_, _, _) => "ColumnFunction".to_owned(),
            FunctionImpl::Alias(_, _) => "AliasFunction".to_owned(),
        }
    }

    /// The display form of the function, as shown in plans and messages.
    pub fn display_string(&self) -> (r: String) {
        match self {
            FunctionImpl::Comparison(op) => match op {
                CompareOp::Eq => "=".to_owned(),
                CompareOp::NotEq => "!=".to_owned(),
                CompareOp::Gt => ">".to_owned(),
                CompareOp::GtEq => ">=".to_owned(),
                CompareOp::Lt => "<".to_owned(),
                CompareOp::LtEq => "<=".to_owned(),
                CompareOp::EqMissing => "=".to_owned(),
                CompareOp::Like => "LIKE".to_owned(),
                CompareOp::NotLike => "NOT LIKE".to_owned(),
            },
            FunctionImpl::Arithmetic(op, _) => match op {
                ArithmeticOp::Plus => "plus".to_owned(),
                ArithmeticOp::Minus => "minus".to_owned(),
                ArithmeticOp::Mul => "multiply".to_owned(),
                ArithmeticOp::Div => "divide".to_owned(),
                ArithmeticOp::Modulo => "modulo".to_owned(),
                ArithmeticOp::Neg => "negate".to_owned(),
            },
            FunctionImpl::Logic(op) => match op {
                LogicOp::And => "and".to_owned(),
                LogicOp::Or => "or".to_owned(),
                LogicOp::Not => "not".to_owned(),
            },
            FunctionImpl::Substring(_) => "SUBSTRING".to_owned(),
            FunctionImpl::ToTypeName(_) => "toTypeName".to_owned(),
            FunctionImpl::UdfExample(display_name) => {
                let mut r = display_name.clone();
                r.push_str("()");
                r
            },
            FunctionImpl::Database(_) => "database".to_owned(),
            FunctionImpl::Version(_) => "version".to_owned(),
            FunctionImpl::Sleep(_) => "sleep".to_owned(),
            FunctionImpl::CrashMe(_) => "crashme".to_owned(),
            FunctionImpl::SipHash(_) => "siphash".to_owned(),
            FunctionImpl::Condition(_, _) => "if".to_owned(),
            FunctionImpl::Cast(_, _) => "CAST".to_owned(),
            FunctionImpl::ColumnRef(value, _, _) => value.clone(),
            FunctionImpl::Alias(alias, _) => alias.clone(),
        }
    }

    /// The fixed argument count, or zero for a variadic function.
    pub fn num_arguments(&self) -> (r: usize) {
        match self {
            FunctionImpl::Comparison(_) => 2,
            FunctionImpl::Arithmetic(_, _) => 0,
            FunctionImpl::Logic(op) => match op {
                LogicOp::Not => 1,
                _ => 2,
            },
            FunctionImpl::Substring(_) => 0,
            FunctionImpl::ToTypeName(_) => 1,
            FunctionImpl::UdfExample(_) => 0,
            FunctionImpl::Database(_) => 1,
            FunctionImpl::Version(_) => 1,
            FunctionImpl::Sleep(_) => 1,
            FunctionImpl::CrashMe(_) => 1,
            FunctionImpl::SipHash(_) => 1,
            FunctionImpl::Condition(_, _) => 3,
            FunctionImpl::Cast(_, _) => 1,
            FunctionImpl::ColumnRef(_, _, _) => 1,
            FunctionImpl::Alias(_, _) => 1,
        }
    }

    /// The accepted argument range of a variadic function.
    pub fn variadic_arguments(&self) -> (r: Option<(usize, usize)>) {
        match self {
            FunctionImpl::Arithmetic(_, _) => Some((1, 2)),
            FunctionImpl::Substring(_) => Some((2, 3)),
            _ => None,
        }
    }

    /// The statically resolved result type.
    pub open spec fn spec_return_type(&self) -> DataType {
        match *self {
            FunctionImpl::Comparison(_) => DataType::Boolean,
            FunctionImpl::Arithmetic(_, ref t) => *t,
            FunctionImpl::Logic(_) => DataType::Boolean,
            FunctionImpl::Substring(_) => DataType::Utf8,
            FunctionImpl::ToTypeName(_) => DataType::Utf8,
            FunctionImpl::UdfExample(_) => DataType::Boolean,
            FunctionImpl::Database(_) => DataType::Utf8,
            FunctionImpl::Version(_) => DataType::Utf8,
            FunctionImpl::Sleep(_) => DataType::UInt8,
            FunctionImpl::CrashMe(_) => DataType::Null,
            FunctionImpl::SipHash(_) => DataType::UInt64,
            FunctionImpl::Condition(ref t, _) => *t,
            FunctionImpl::Cast(ref t, _) => *t,
            FunctionImpl::ColumnRef(_, ref t, _) => *t,
            FunctionImpl::Alias(_, ref t) => *t,
        }
    }

    /// The statically resolved result type, as the registry reports it.
    pub fn return_type(&self) -> (r: Result<DataType, ErrorCode>)
        ensures
            (match r {
                Ok(t) => t == self.spec_return_type(),
                Err(_) => false,
            }),
    {
        Ok(
            match self {
                FunctionImpl::Comparison(_) => DataType::Boolean,
                FunctionImpl::Arithmetic(_, t) => t.duplicate(),
                FunctionImpl::Logic(_) => DataType::Boolean,
                FunctionImpl::Substring(_) => DataType::Utf8,
                FunctionImpl::ToTypeName(_) => DataType::Utf8,
                FunctionImpl::UdfExample(_) => DataType::Boolean,
                FunctionImpl::Database(_) => DataType::Utf8,
                FunctionImpl::Version(_) => DataType::Utf8,
                FunctionImpl::Sleep(_) => DataType::UInt8,
                FunctionImpl::CrashMe(_) => DataType::Null,
                FunctionImpl::SipHash(_) => DataType::UInt64,
                FunctionImpl::Condition(t, _) => t.duplicate(),
                FunctionImpl::Cast(t, _) => t.duplicate(),
                FunctionImpl::ColumnRef(_, t, _) => t.duplicate(),
                FunctionImpl::Alias(_, t) => t.duplicate(),
            },
        )
    }

    /// The statically resolved nullability.
    pub open spec fn spec_nullable(&self) -> bool {
        match *self {
            FunctionImpl::Condition(_, n) => n,
            FunctionImpl::Cast(_, n) => n,
            FunctionImpl::ColumnRef(_, _, n) => n,
            FunctionImpl::Alias(_, _) => true,
            _ => false,
        }
    }

    pub fn nullable(&self) -> (r: Result<bool, ErrorCode>)
        ensures
            (match r {
                Ok(n) => n == self.spec_nullable(),
                Err(_) => false,
            }),
    {
        Ok(
            match self {
                FunctionImpl::Condition(_, n) => *n,
                FunctionImpl::Cast(_, n) => *n,
                FunctionImpl::ColumnRef(_, _, n) => *n,
                FunctionImpl::Alias(_, _) => true,
                _ => false,
            },
        )
    }

    /// Whether the null adapter may strip and re-merge validity around
    /// this function.
    pub open spec fn spec_passthrough_null(&self) -> bool {
        match *self {
            FunctionImpl::Comparison(_) => true,
            FunctionImpl::Arithmetic(_, _) => true,
            FunctionImpl::Logic(_) => true,
            FunctionImpl::Substring(_) => true,
            FunctionImpl::SipHash(_) => true,
            _ => false,
        }
    }

    #[verifier::when_used_as_spec(spec_passthrough_null)]
    pub fn passthrough_null(&self) -> (r: bool)
        ensures
            r == self.spec_passthrough_null(),
    {
        match self {
            FunctionImpl::Comparison(_) => true,
            FunctionImpl::Arithmetic(_, _) => true,
            FunctionImpl::Logic(_) => true,
            FunctionImpl::Substring(_) => true,
            FunctionImpl::SipHash(_) => true,
            _ => false,
        }
    }

    /// Whether the constant adapter may evaluate this function once and
    /// re-broadcast the result.
    pub open spec fn spec_passthrough_constant(&self) -> bool {
        match *self {
            FunctionImpl::Comparison(_) => true,
            FunctionImpl::Arithmetic(_, _) => true,
            FunctionImpl::Logic(_) => true,
            FunctionImpl::Substring(_) => true,
            FunctionImpl::SipHash(_) => true,
            _ => false,
        }
    }

    #[verifier::when_used_as_spec(spec_passthrough_constant)]
    pub fn passthrough_constant(&self) -> (r: bool)
        ensures
            r == self.spec_passthrough_constant(),
    {
        match self {
            FunctionImpl::Comparison(_) => true,
            FunctionImpl::Arithmetic(_, _) => true,
            FunctionImpl::Logic(_) => true,
            FunctionImpl::Substring(_) => true,
            FunctionImpl::SipHash(_) => true,
            _ => false,
        }
    }

    /// Evaluates the function over the argument columns. The result is
    /// `Ok` exactly when the arguments are admitted — the diagnostic
    /// abort function, which never is, surfaces as a reported error.
    pub fn eval(&self, columns: &Vec<DataColumn>, input_rows: usize) -> (res: Result<
        DataColumn,
        ErrorCode,
    >)
        requires
            forall|k: int| 0 <= k < columns@.len() ==> (#[trigger] columns@[k]).wf(),
        ensures
            (match res {
                Ok(out) => eval_ok(*self, columns@, input_rows as nat) && out.wf() && eval_post(
                    *self,
                    columns@,
                    input_rows as nat,
                    out@,
                ),
                Err(_) => !eval_ok(*self, columns@, input_rows as nat),
            }),
    {
        match self {
            FunctionImpl::Comparison(op) => {
                if columns.len() != 2 {
                    return Err(
                        ErrorCode::number_arguments_not_match(
                            "a comparison takes exactly two arguments".to_owned(),
                        ),
                    );
                }
                match compare_columns(*op, &columns[0], &columns[1]) {
                    Ok(out) => Ok(DataColumn::Array(out)),
                    Err(e) => Err(e),
                }
            },
            FunctionImpl::Arithmetic(op, _) => {
                if columns.len() == 1 {
                    match negate_eval(&columns[0], input_rows) {
                        Ok(out) => Ok(DataColumn::Array(out)),
                        Err(e) => Err(e),
                    }
                } else if columns.len() == 2 {
                    if matches!(op, ArithmeticOp::Neg) {
                        return Err(
                            ErrorCode::number_arguments_not_match(
                                "negation takes exactly one argument".to_owned(),
                            ),
                        );
                    }
                    match arithmetic_eval(*op, &columns[0], &columns[1], input_rows) {
                        Ok(out) => Ok(DataColumn::Array(out)),
                        Err(e) => Err(e),
                    }
                } else {
                    Err(
                        ErrorCode::number_arguments_not_match(
                            "arithmetic takes one or two arguments".to_owned(),
                        ),
                    )
                }
            },
            FunctionImpl::Logic(op) => {
                if matches!(op, LogicOp::Not) {
                    if columns.len() != 1 {
                        return Err(
                            ErrorCode::number_arguments_not_match(
                                "negation of a condition takes one argument".to_owned(),
                            ),
                        );
                    }
                    match logic_eval(*op, &columns[0], &columns[0], input_rows) {
                        Ok(out) => Ok(DataColumn::Array(out)),
                        Err(e) => Err(e),
                    }
                } else {
                    if columns.len() != 2 {
                        return Err(
                            ErrorCode::number_arguments_not_match(
                                "a connective takes two arguments".to_owned(),
                            ),
                        );
                    }
                    match logic_eval(*op, &columns[0], &columns[1], input_rows) {
                        Ok(out) => Ok(DataColumn::Array(out)),
                        Err(e) => Err(e),
                    }
                }
            },
            FunctionImpl::Substring(_) => {
                match substring_eval(columns, input_rows) {
                    Ok(out) => Ok(DataColumn::Array(out)),
                    Err(e) => Err(e),
                }
            },
            FunctionImpl::ToTypeName(_) => {
                if columns.len() != 1 {
                    return Err(
                        ErrorCode::number_arguments_not_match(
                            "the type name function takes one argument".to_owned(),
                        ),
                    );
                }
                let nm = columns[0].data_type().display_name();
                Ok(DataColumn::Constant(DataValue::Utf8(Some(nm)), input_rows))
            },
            FunctionImpl::UdfExample(_) => {
                Ok(DataColumn::Constant(DataValue::Boolean(Some(true)), input_rows))
            },
            FunctionImpl::Database(_) => {
                if columns.len() != 1 {
                    return Err(
                        ErrorCode::number_arguments_not_match(
                            "the database function is bound to one argument".to_owned(),
                        ),
                    );
                }
                let out = crate::columns::duplicate_column(&columns[0]);
                Ok(out)
            },
            FunctionImpl::Version(_) => {
                if columns.len() != 1 {
                    return Err(
                        ErrorCode::number_arguments_not_match(
                            "the version function is bound to one argument".to_owned(),
                        ),
                    );
                }
                let out = crate::columns::duplicate_column(&columns[0]);
                Ok(out)
            },
            FunctionImpl::Sleep(_) => {
                if columns.len() != 1 {
                    return Err(
                        ErrorCode::number_arguments_not_match(
                            "the sleep function takes one argument".to_owned(),
                        ),
                    );
                }
                match sleep_seconds(&columns[0]) {
                    Ok(_) => Ok(DataColumn::Constant(DataValue::UInt8(Some(0)), input_rows)),
                    Err(e) => Err(e),
                }
            },
            FunctionImpl::CrashMe(_) => {
                Err(
                    ErrorCode::logical_error(
                        "the deliberate abort was caught at the evaluation boundary".to_owned(),
                    ),
                )
            },
            FunctionImpl::SipHash(_) => {
                if columns.len() != 1 {
                    return Err(
                        ErrorCode::number_arguments_not_match(
                            "the sip hash takes one argument".to_owned(),
                        ),
                    );
                }
                match crate::hashes::siphash_eval(&columns[0], input_rows) {
                    Ok(out) => Ok(DataColumn::Array(out)),
                    Err(e) => Err(e),
                }
            },
            FunctionImpl::Condition(_, _) => {
                if columns.len() != 3 {
                    return Err(
                        ErrorCode::number_arguments_not_match(
                            "the conditional takes exactly three arguments".to_owned(),
                        ),
                    );
                }
                match condition_eval(&columns[0], &columns[1], &columns[2], input_rows) {
                    Ok(out) => Ok(DataColumn::Array(out)),
                    Err(e) => Err(e),
                }
            },
            FunctionImpl::Cast(t, _) => {
                if columns.len() != 1 {
                    return Err(
                        ErrorCode::number_arguments_not_match(
                            "the cast takes exactly one argument".to_owned(),
                        ),
                    );
                }
                match cast_eval(&columns[0], t, input_rows) {
                    Ok(out) => Ok(DataColumn::Array(out)),
                    Err(e) => Err(e),
                }
            },
            FunctionImpl::ColumnRef(_, _, _) => {
                if columns.len() != 1 {
                    return Err(
                        ErrorCode::number_arguments_not_match(
                            "the column function is bound to one argument".to_owned(),
                        ),
                    );
                }
                let out = crate::columns::duplicate_column(&columns[0]);
                Ok(out)
            },
            FunctionImpl::Alias(_, _) => {
                if columns.len() != 1 {
                    return Err(
                        ErrorCode::number_arguments_not_match(
                            "the alias function is bound to one argument".to_owned(),
                        ),
                    );
                }
                let out = crate::columns::duplicate_column(&columns[0]);
                Ok(out)
            },
        }
    }
}

} // verus!
