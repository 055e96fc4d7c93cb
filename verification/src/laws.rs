//! The library-wide laws: what holds of comparison, broadcasting and
//! grouping, stated over the same specification functions that the
//! executable kernels are verified against.

use vstd::prelude::*;

use crate::columns::lemma_seq_dv_eq_symm;
use crate::columns::lemma_seq_dv_eq_trans;
use crate::columns::seq_dv_eq;
use crate::compare::cmp_scalar;
use crate::compare::dv_lt;
use crate::compare::lex_lt_char;
use crate::compare::lex_lt_u8;
use crate::compare::CompareOp;
use crate::group::row_key;
use crate::group::group_table_wf;
use crate::group::GroupEntry;
use crate::columns::DataColumn;
use crate::kernel::cmp_columns_spec;
use crate::kernel::col_single;
use crate::values::dv_eq;
use crate::values::lemma_dv_eq_symm;
use crate::values::DataValue;

verus! {

proof fn lemma_lex_u8_trichotomy(x: Seq<u8>, y: Seq<u8>)
    ensures
        lex_lt_u8(x, y) ==> !(x == y) && !lex_lt_u8(y, x),
        x == y ==> !lex_lt_u8(x, y) && !lex_lt_u8(y, x),
        !lex_lt_u8(x, y) && !(x == y) ==> lex_lt_u8(y, x),
    decreases x.len() + y.len(),
{
    if y.len() == 0 {
        if x.len() == 0 {
            assert(x =~= y);
        } else {
            assert(lex_lt_u8(y, x));
            assert(x != y);
        }
    } else if x.len() == 0 {
        assert(lex_lt_u8(x, y));
        assert(x != y);
    } else if x[0] != y[0] {
        assert(x != y);
    } else {
        lemma_lex_u8_trichotomy(x.skip(1), y.skip(1));
        assert(x == y <==> x.skip(1) == y.skip(1)) by {
            if x.skip(1) == y.skip(1) && x.len() == y.len() {
                assert forall|i: int| 0 <= i < x.len() implies x[i] == y[i] by {
                    if i > 0 {
                        assert(x.skip(1)[i - 1] == y.skip(1)[i - 1]);
                    }
                }
                assert(x =~= y);
            }
            if x == y {
                assert(x.skip(1) =~= y.skip(1));
            }
            if x.len() != y.len() {
                assert(x != y);
                if x.skip(1) == y.skip(1) {
                    assert(x.skip(1).len() == y.skip(1).len());
                    assert(false);
                }
            }
        }
    }
}

proof fn lemma_char_cast_injective(a: char, b: char)
    requires
        a != b,
    ensures
        (a as u32) != (b as u32),
{
}

proof fn lemma_lex_char_trichotomy(x: Seq<char>, y: Seq<char>)
    ensures
        lex_lt_char(x, y) ==> !(x == y) && !lex_lt_char(y, x),
        x == y ==> !lex_lt_char(x, y) && !lex_lt_char(y, x),
        !lex_lt_char(x, y) && !(x == y) ==> lex_lt_char(y, x),
    decreases x.len() + y.len(),
{
    if y.len() == 0 {
        if x.len() == 0 {
            assert(x =~= y);
        } else {
            assert(lex_lt_char(y, x));
            assert(x != y);
        }
    } else if x.len() == 0 {
        assert(lex_lt_char(x, y));
        assert(x != y);
    } else if x[0] != y[0] {
        assert(x != y);
        lemma_char_cast_injective(x[0], y[0]);
    } else {
        lemma_lex_char_trichotomy(x.skip(1), y.skip(1));
        assert(x == y <==> x.skip(1) == y.skip(1)) by {
            if x.skip(1) == y.skip(1) && x.len() == y.len() {
                assert forall|i: int| 0 <= i < x.len() implies x[i] == y[i] by {
                    if i > 0 {
                        assert(x.skip(1)[i - 1] == y.skip(1)[i - 1]);
                    }
                }
                assert(x =~= y);
            }
            if x == y {
                assert(x.skip(1) =~= y.skip(1));
            }
            if x.len() != y.len() {
                assert(x != y);
                if x.skip(1) == y.skip(1) {
                    assert(x.skip(1).len() == y.skip(1).len());
                    assert(false);
                }
            }
        }
    }
}

/// For all non-null scalars of one comparable type, equality is
/// symmetric and exactly one of less-than, equality and greater-than
/// holds.
pub proof fn lemma_comparison_trichotomy(a: DataValue, b: DataValue)
    requires
        !a.spec_is_null(),
        !b.spec_is_null(),
        a.spec_data_type() == b.spec_data_type(),
        a.spec_data_type().spec_is_comparable(),
    ensures
        dv_eq(a, b) == dv_eq(b, a),
        dv_lt(a, b) ==> !dv_eq(a, b) && !dv_lt(b, a),
        dv_eq(a, b) ==> !dv_lt(a, b) && !dv_lt(b, a),
        !dv_lt(a, b) && !dv_eq(a, b) ==> dv_lt(b, a),
{
    lemma_dv_eq_symm(a, b);
    match (a, b) {
        (DataValue::Utf8(Some(x)), DataValue::Utf8(Some(y))) => {
            lemma_lex_char_trichotomy(x@, y@);
        },
        (DataValue::Binary(Some(x)), DataValue::Binary(Some(y))) => {
            lemma_lex_u8_trichotomy(x@, y@);
        },
        _ => {},
    }
}

/// Equality that regards missing values as equal is reflexive on null:
/// comparing two nulls under it yields a present `true`, while the
/// plain equality of two nulls is null, not true.
pub proof fn lemma_null_equality(a: DataValue, b: DataValue)
    requires
        a.spec_is_null(),
        b.spec_is_null(),
    ensures
        cmp_scalar(CompareOp::EqMissing, a, b) == DataValue::Boolean(Some(true)),
        cmp_scalar(CompareOp::Eq, a, b) == DataValue::Boolean(None),
{
}

/// Broadcast law: comparing a column against a one-element array
/// gives, row for row, the same result as comparing it against the
/// same value broadcast as a constant over any length — for every
/// supported operator.
pub proof fn lemma_broadcast_law(op: CompareOp, lhs: DataColumn, r1: DataColumn, r2: DataColumn)
    requires
        col_single(r1),
        col_single(r2),
        r1@[0] == r2@[0],
    ensures
        cmp_columns_spec(op, lhs, r1) == cmp_columns_spec(op, lhs, r2),
{
    assert(cmp_columns_spec(op, lhs, r1) =~= cmp_columns_spec(op, lhs, r2));
}

/// The one-row materialization of a list of constant columns.
pub open spec fn one_row_cols(cols: Seq<DataColumn>) -> Seq<DataColumn> {
    Seq::new(
        cols.len(),
        |k: int|
            match cols[k] {
                DataColumn::Constant(v, _) => DataColumn::Constant(v, 1),
                DataColumn::Array(_) => cols[k],
            },
    )
}

proof fn lemma_substring_cell_unique(
    x: DataValue,
    y: DataValue,
    s: DataValue,
    p: DataValue,
    l: Option<DataValue>,
)
    requires
        crate::functions::substring_cell_ok(x, s, p, l),
        crate::functions::substring_cell_ok(y, s, p, l),
    ensures
        dv_eq(x, y),
{
}

/// Constant-adapter law: for a function marked constant-passthrough,
/// evaluating all-constant arguments once over one row and broadcasting
/// the single result gives, row for row, what evaluating the same
/// constants over the full row count gives.
pub proof fn lemma_constant_passthrough(
    f: crate::functions::FunctionImpl,
    cols: Seq<DataColumn>,
    rows: nat,
    r1: Seq<DataValue>,
    rn: Seq<DataValue>,
)
    requires
        f.spec_passthrough_constant(),
        cols.len() > 0,
        rows > 0,
        forall|k: int|
            0 <= k < cols.len() ==> (#[trigger] cols[k]) is Constant && cols[k]@.len() == rows,
        crate::functions::eval_ok(f, one_row_cols(cols), 1),
        crate::functions::eval_post(f, one_row_cols(cols), 1, r1),
        crate::functions::eval_ok(f, cols, rows),
        crate::functions::eval_post(f, cols, rows, rn),
    ensures
        r1.len() == 1,
        rn.len() == rows,
        forall|i: int| 0 <= i < rows ==> dv_eq(#[trigger] rn[i], r1[0]),
{
    let ones = one_row_cols(cols);
    assert forall|k: int| 0 <= k < cols.len() implies col_single(#[trigger] cols[k]) && col_single(
        ones[k],
    ) && ones[k]@.len() == 1 && cols[k]@[0] == ones[k]@[0] && (forall|i: int|
        0 <= i < rows ==> crate::functions::bidx(cols[k], i) == crate::functions::bidx(
            ones[k],
            0,
        )) by {
        let v = cols[k]->Constant_0;
        assert(cols[k]@ == Seq::new(rows, |i: int| v));
        assert(ones[k]@ == Seq::new(1nat, |i: int| v));
    }
    match f {
        crate::functions::FunctionImpl::Comparison(op) => {
            assert(rn == cmp_columns_spec(op, cols[0], cols[1]));
            assert(r1 == cmp_columns_spec(op, ones[0], ones[1]));
            assert(cols[1]@[0] == ones[1]@[0]);
            assert forall|i: int| 0 <= i < rows implies dv_eq(#[trigger] rn[i], r1[0]) by {
                assert(rn[i] == r1[0]);
                crate::values::lemma_dv_eq_refl(rn[i]);
            }
        },
        crate::functions::FunctionImpl::Arithmetic(op, _) => {
            if cols.len() == 1 {
                assert(rn == crate::functions::neg_eval_spec(cols[0], rows));
                assert(r1 == crate::functions::neg_eval_spec(ones[0], 1));
                assert forall|i: int| 0 <= i < rows implies dv_eq(#[trigger] rn[i], r1[0]) by {
                    assert(rn[i] == r1[0]);
                    crate::values::lemma_dv_eq_refl(rn[i]);
                }
            } else {
                assert(rn == crate::functions::arith_eval_spec(op, cols[0], cols[1], rows));
                assert(r1 == crate::functions::arith_eval_spec(op, ones[0], ones[1], 1));
                assert forall|i: int| 0 <= i < rows implies dv_eq(#[trigger] rn[i], r1[0]) by {
                    assert(rn[i] == r1[0]);
                    crate::values::lemma_dv_eq_refl(rn[i]);
                }
            }
        },
        crate::functions::FunctionImpl::Logic(op) => {
            if op is Not {
                assert(rn == crate::functions::logic_eval_spec(op, cols[0], cols[0], rows));
                assert(r1 == crate::functions::logic_eval_spec(op, ones[0], ones[0], 1));
            } else {
                assert(rn == crate::functions::logic_eval_spec(op, cols[0], cols[1], rows));
                assert(r1 == crate::functions::logic_eval_spec(op, ones[0], ones[1], 1));
            }
            assert forall|i: int| 0 <= i < rows implies dv_eq(#[trigger] rn[i], r1[0]) by {
                assert(rn[i] == r1[0]);
                crate::values::lemma_dv_eq_refl(rn[i]);
            }
        },
        crate::functions::FunctionImpl::Substring(_) => {
            assert forall|i: int| 0 <= i < rows implies dv_eq(#[trigger] rn[i], r1[0]) by {
                let l1 = if cols.len() == 3 {
                    Some(crate::functions::bidx(ones[2], 0))
                } else {
                    None
                };
                assert(crate::functions::substring_cell_ok(
                    rn[i],
                    crate::functions::bidx(cols[0], i),
                    crate::functions::bidx(cols[1], i),
                    (if cols.len() == 3 {
                        Some(crate::functions::bidx(cols[2], i))
                    } else {
                        None
                    }),
                ));
                assert(crate::functions::substring_cell_ok(
                    r1[0],
                    crate::functions::bidx(ones[0], 0),
                    crate::functions::bidx(ones[1], 0),
                    l1,
                ));
                lemma_substring_cell_unique(
                    rn[i],
                    r1[0],
                    crate::functions::bidx(cols[0], i),
                    crate::functions::bidx(cols[1], i),
                    (if cols.len() == 3 {
                        Some(crate::functions::bidx(cols[2], i))
                    } else {
                        None
                    }),
                );
            }
        },
        crate::functions::FunctionImpl::SipHash(_) => {
            assert(rn == crate::hashes::siphash_eval_spec(cols[0], rows));
            assert(r1 == crate::hashes::siphash_eval_spec(ones[0], 1));
            assert forall|i: int| 0 <= i < rows implies dv_eq(#[trigger] rn[i], r1[0]) by {
                assert(rn[i] == r1[0]);
                crate::values::lemma_dv_eq_refl(rn[i]);
            }
        },
        _ => {
            assert(false);
        },
    }
}

/// Deeply equal scalars of the variants that carry no heap view are
/// the same value.
proof fn lemma_dv_eq_plain_equal(a: DataValue, b: DataValue)
    requires
        dv_eq(a, b),
        !(a is Utf8),
        !(a is Binary),
        !(a is List),
    ensures
        a == b,
{
}

/// The three-valued comparison respects deep equality of its operands.
proof fn lemma_cmp_scalar_congruent(
    op: CompareOp,
    a: DataValue,
    b: DataValue,
    a2: DataValue,
    b2: DataValue,
)
    requires
        dv_eq(a, a2),
        dv_eq(b, b2),
    ensures
        cmp_scalar(op, a, b) == cmp_scalar(op, a2, b2),
{
    lemma_dv_eq_symm(a, a2);
    lemma_dv_eq_symm(b, b2);
    lemma_dv_eq_symm(b2, b);
    if dv_eq(a, b) {
        crate::values::lemma_dv_eq_trans(a2, a, b);
        crate::values::lemma_dv_eq_trans(a2, b, b2);
    }
    if dv_eq(a2, b2) {
        crate::values::lemma_dv_eq_trans(a, a2, b2);
        crate::values::lemma_dv_eq_trans(a, b2, b);
    }
    assert(dv_lt(a, b) == dv_lt(a2, b2));
    assert(dv_lt(b, a) == dv_lt(b2, a2));
    assert(crate::compare::dv_like(a, b) == crate::compare::dv_like(a2, b2));
}

/// The hash result cell respects deep equality of its input.
proof fn lemma_sip_cell_congruent(a: DataValue, b: DataValue)
    requires
        dv_eq(a, b),
    ensures
        crate::hashes::sip_cell(a) == crate::hashes::sip_cell(b),
{
    if !a.spec_is_null() {
        assert(crate::hashes::sip_input(a) == crate::hashes::sip_input(b));
    }
}

/// Constant-adapter law at the adapter's boundary: an output the
/// constant path admits — one inner evaluation over deeply equal
/// one-row copies, re-broadcast — equals, row for row, the evaluation
/// of the same constant columns over the full row count.
pub proof fn lemma_constant_adapter_output(
    f: crate::functions::FunctionImpl,
    cols: Seq<DataColumn>,
    rows: nat,
    ocols: Seq<DataColumn>,
    ic: DataColumn,
    out: DataColumn,
    rn: Seq<DataValue>,
)
    requires
        f.spec_passthrough_constant(),
        cols.len() > 0,
        rows > 0,
        forall|k: int|
            0 <= k < cols.len() ==> (#[trigger] cols[k]) is Constant && cols[k]@.len() == rows,
        crate::adapter::constant_rebroadcast_ok(f, cols, rows, ocols, ic, out),
        crate::functions::eval_ok(f, cols, rows),
        crate::functions::eval_post(f, cols, rows, rn),
    ensures
        rn.len() == rows,
        out@.len() == rows,
        forall|i: int| 0 <= i < rows ==> dv_eq(#[trigger] out@[i], rn[i]),
{
    let ones = one_row_cols(cols);
    assert forall|k: int| 0 <= k < cols.len() implies {
        &&& (#[trigger] ocols[k])@.len() == 1
        &&& ones[k]@.len() == 1
        &&& col_single(ocols[k])
        &&& col_single(ones[k])
        &&& dv_eq(ocols[k]@[0], ones[k]@[0])
        &&& ocols[k].spec_data_type() == ones[k].spec_data_type()
        &&& ocols[k] is Constant && ones[k] is Constant
        &&& (forall|i: int|
            crate::functions::bidx(ocols[k], i) == ocols[k]@[0] && crate::functions::bidx(
                ones[k],
                i,
            ) == ones[k]@[0])
    } by {
        let w = ocols[k]->Constant_0;
        let v = cols[k]->Constant_0;
        assert(ocols[k]@ == Seq::new(1nat, |i: int| w));
        assert(ones[k]@ == Seq::new(1nat, |i: int| v));
        crate::values::lemma_dv_eq_same_type(w, v);
    }
    match f {
        crate::functions::FunctionImpl::Comparison(op) => {
            assert(crate::kernel::cmp_columns_ok(op, ones[0], ones[1]));
            lemma_cmp_scalar_congruent(op, ocols[0]@[0], ocols[1]@[0], ones[0]@[0], ones[1]@[0]);
            assert(cmp_columns_spec(op, ocols[0], ocols[1]) =~= cmp_columns_spec(
                op,
                ones[0],
                ones[1],
            ));
        },
        crate::functions::FunctionImpl::Arithmetic(op, _) => {
            assert forall|k: int| 0 <= k < cols.len() implies #[trigger] ocols[k] == ones[k] by {
                lemma_dv_eq_plain_equal(ocols[k]@[0], ones[k]@[0]);
                assert(ocols[k]->Constant_0 == ones[k]->Constant_0);
            }
            assert(ones =~= ocols);
        },
        crate::functions::FunctionImpl::Logic(op) => {
            assert forall|k: int| 0 <= k < cols.len() implies #[trigger] ocols[k] == ones[k] by {
                lemma_dv_eq_plain_equal(ocols[k]@[0], ones[k]@[0]);
                assert(ocols[k]->Constant_0 == ones[k]->Constant_0);
            }
            assert(ones =~= ocols);
        },
        crate::functions::FunctionImpl::Substring(_) => {
            assert(crate::functions::substring_eval_ok(ones, 1));
            assert forall|i: int| 0 <= i < 1 implies crate::functions::substring_cell_ok(
                #[trigger] ic@[i],
                crate::functions::bidx(ones[0], i),
                crate::functions::bidx(ones[1], i),
                (if ones.len() == 3 {
                    Some(crate::functions::bidx(ones[2], i))
                } else {
                    None
                }),
            ) by {
                assert(crate::functions::substring_cell_ok(
                    ic@[i],
                    crate::functions::bidx(ocols[0], i),
                    crate::functions::bidx(ocols[1], i),
                    (if ocols.len() == 3 {
                        Some(crate::functions::bidx(ocols[2], i))
                    } else {
                        None
                    }),
                ));
            }
        },
        crate::functions::FunctionImpl::SipHash(_) => {
            lemma_sip_cell_congruent(ocols[0]@[0], ones[0]@[0]);
            assert(crate::hashes::siphash_eval_spec(ocols[0], 1) =~= crate::hashes::siphash_eval_spec(
                ones[0],
                1,
            ));
        },
        _ => {
            assert(false);
        },
    }
    assert(crate::functions::eval_ok(f, ones, 1));
    assert(crate::functions::eval_post(f, ones, 1, ic@));
    lemma_constant_passthrough(f, cols, rows, ic@, rn);
    assert(ic@.len() == 1);
    assert forall|i: int| 0 <= i < rows implies dv_eq(#[trigger] out@[i], rn[i]) by {
        assert(dv_eq(out@[i], ic@[0]));
        assert(dv_eq(rn[i], ic@[0]));
        lemma_dv_eq_symm(rn[i], ic@[0]);
        crate::values::lemma_dv_eq_trans(out@[i], ic@[0], rn[i]);
    }
}

/// The key serialization is stable: deeply equal scalars serialize to
/// the same bytes, in every process and on every run.
pub proof fn lemma_encode_value_congruent(a: DataValue, b: DataValue)
    requires
        dv_eq(a, b),
    ensures
        crate::group::encode_value(a) == crate::group::encode_value(b),
{
    match (a, b) {
        (DataValue::Utf8(Some(x)), DataValue::Utf8(Some(y))) => {
            assert(x@ == y@);
        },
        (DataValue::Binary(Some(x)), DataValue::Binary(Some(y))) => {
            assert(x@ == y@);
        },
        _ => {},
    }
}

/// Stable key encoding at the tuple level: equal key-value tuples
/// serialize to the same byte key, so group tables built by different
/// workers can be merged by byte comparison alone.
pub proof fn lemma_encode_key_congruent(a: Seq<DataValue>, b: Seq<DataValue>)
    requires
        seq_dv_eq(a, b),
    ensures
        crate::group::encode_key(a) == crate::group::encode_key(b),
    decreases a.len(),
{
    if a.len() > 0 {
        assert(seq_dv_eq(a.drop_last(), b.drop_last())) by {
            assert forall|i: int| 0 <= i < a.len() - 1 implies dv_eq(
                #[trigger] a.drop_last()[i],
                b.drop_last()[i],
            ) by {
                assert(a.drop_last()[i] == a[i] && b.drop_last()[i] == b[i]);
                assert(dv_eq(a[i], b[i]));
            }
        }
        lemma_encode_key_congruent(a.drop_last(), b.drop_last());
        assert(dv_eq(a.last(), b.last()));
        lemma_encode_value_congruent(a.last(), b.last());
    } else {
        assert(b.len() == 0);
    }
}

proof fn lemma_le1_inj_i8(x: i8, y: i8)
    requires
        crate::group::le_bytes(x as u64, 1) == crate::group::le_bytes(y as u64, 1),
    ensures
        x == y,
{
    assert(crate::group::le_bytes(x as u64, 1)[0] == (((x as u64) >> ((8 * 0) as u64)) & 0xff) as u8);
    assert(crate::group::le_bytes(y as u64, 1)[0] == (((y as u64) >> ((8 * 0) as u64)) & 0xff) as u8);
    assert((8 * 0) as u64 == 0u64);
    assert((((x as u64) >> 0u64) & 0xff) as u8 == (((y as u64) >> 0u64) & 0xff) as u8);
    assert(x == y) by (bit_vector)
        requires
            (((x as u64) >> 0u64) & 0xff) as u8 == (((y as u64) >> 0u64) & 0xff) as u8,
    ;
}

proof fn lemma_le2_inj_i16(x: i16, y: i16)
    requires
        crate::group::le_bytes(x as u64, 2) == crate::group::le_bytes(y as u64, 2),
    ensures
        x == y,
{
    assert(crate::group::le_bytes(x as u64, 2)[0] == (((x as u64) >> ((8 * 0) as u64)) & 0xff) as u8);
    assert(crate::group::le_bytes(y as u64, 2)[0] == (((y as u64) >> ((8 * 0) as u64)) & 0xff) as u8);
    assert((8 * 0) as u64 == 0u64);
    assert((((x as u64) >> 0u64) & 0xff) as u8 == (((y as u64) >> 0u64) & 0xff) as u8);
    assert(crate::group::le_bytes(x as u64, 2)[1] == (((x as u64) >> ((8 * 1) as u64)) & 0xff) as u8);
    assert(crate::group::le_bytes(y as u64, 2)[1] == (((y as u64) >> ((8 * 1) as u64)) & 0xff) as u8);
    assert((8 * 1) as u64 == 8u64);
    assert((((x as u64) >> 8u64) & 0xff) as u8 == (((y as u64) >> 8u64) & 0xff) as u8);
    assert(x == y) by (bit_vector)
        requires
            (((x as u64) >> 0u64) & 0xff) as u8 == (((y as u64) >> 0u64) & 0xff) as u8,
            (((x as u64) >> 8u64) & 0xff) as u8 == (((y as u64) >> 8u64) & 0xff) as u8,
    ;
}

proof fn lemma_le4_inj_i32(x: i32, y: i32)
    requires
        crate::group::le_bytes(x as u64, 4) == crate::group::le_bytes(y as u64, 4),
    ensures
        x == y,
{
    assert(crate::group::le_bytes(x as u64, 4)[0] == (((x as u64) >> ((8 * 0) as u64)) & 0xff) as u8);
    assert(crate::group::le_bytes(y as u64, 4)[0] == (((y as u64) >> ((8 * 0) as u64)) & 0xff) as u8);
    assert((8 * 0) as u64 == 0u64);
    assert((((x as u64) >> 0u64) & 0xff) as u8 == (((y as u64) >> 0u64) & 0xff) as u8);
    assert(crate::group::le_bytes(x as u64, 4)[1] == (((x as u64) >> ((8 * 1) as u64)) & 0xff) as u8);
    assert(crate::group::le_bytes(y as u64, 4)[1] == (((y as u64) >> ((8 * 1) as u64)) & 0xff) as u8);
    assert((8 * 1) as u64 == 8u64);
    assert((((x as u64) >> 8u64) & 0xff) as u8 == (((y as u64) >> 8u64) & 0xff) as u8);
    assert(crate::group::le_bytes(x as u64, 4)[2] == (((x as u64) >> ((8 * 2) as u64)) & 0xff) as u8);
    assert(crate::group::le_bytes(y as u64, 4)[2] == (((y as u64) >> ((8 * 2) as u64)) & 0xff) as u8);
    assert((8 * 2) as u64 == 16u64);
    assert((((x as u64) >> 16u64) & 0xff) as u8 == (((y as u64) >> 16u64) & 0xff) as u8);
    assert(crate::group::le_bytes(x as u64, 4)[3] == (((x as u64) >> ((8 * 3) as u64)) & 0xff) as u8);
    assert(crate::group::le_bytes(y as u64, 4)[3] == (((y as u64) >> ((8 * 3) as u64)) & 0xff) as u8);
    assert((8 * 3) as u64 == 24u64);
    assert((((x as u64) >> 24u64) & 0xff) as u8 == (((y as u64) >> 24u64) & 0xff) as u8);
    assert(x == y) by (bit_vector)
        requires
            (((x as u64) >> 0u64) & 0xff) as u8 == (((y as u64) >> 0u64) & 0xff) as u8,
            (((x as u64) >> 8u64) & 0xff) as u8 == (((y as u64) >> 8u64) & 0xff) as u8,
            (((x as u64) >> 16u64) & 0xff) as u8 == (((y as u64) >> 16u64) & 0xff) as u8,
            (((x as u64) >> 24u64) & 0xff) as u8 == (((y as u64) >> 24u64) & 0xff) as u8,
    ;
}

proof fn lemma_le8_inj_i64(x: i64, y: i64)
    requires
        crate::group::le_bytes(x as u64, 8) == crate::group::le_bytes(y as u64, 8),
    ensures
        x == y,
{
    assert(crate::group::le_bytes(x as u64, 8)[0] == (((x as u64) >> ((8 * 0) as u64)) & 0xff) as u8);
    assert(crate::group::le_bytes(y as u64, 8)[0] == (((y as u64) >> ((8 * 0) as u64)) & 0xff) as u8);
    assert((8 * 0) as u64 == 0u64);
    assert((((x as u64) >> 0u64) & 0xff) as u8 == (((y as u64) >> 0u64) & 0xff) as u8);
    assert(crate::group::le_bytes(x as u64, 8)[1] == (((x as u64) >> ((8 * 1) as u64)) & 0xff) as u8);
    assert(crate::group::le_bytes(y as u64, 8)[1] == (((y as u64) >> ((8 * 1) as u64)) & 0xff) as u8);
    assert((8 * 1) as u64 == 8u64);
    assert((((x as u64) >> 8u64) & 0xff) as u8 == (((y as u64) >> 8u64) & 0xff) as u8);
    assert(crate::group::le_bytes(x as u64, 8)[2] == (((x as u64) >> ((8 * 2) as u64)) & 0xff) as u8);
    assert(crate::group::le_bytes(y as u64, 8)[2] == (((y as u64) >> ((8 * 2) as u64)) & 0xff) as u8);
    assert((8 * 2) as u64 == 16u64);
    assert((((x as u64) >> 16u64) & 0xff) as u8 == (((y as u64) >> 16u64) & 0xff) as u8);
    assert(crate::group::le_bytes(x as u64, 8)[3] == (((x as u64) >> ((8 * 3) as u64)) & 0xff) as u8);
    assert(crate::group::le_bytes(y as u64, 8)[3] == (((y as u64) >> ((8 * 3) as u64)) & 0xff) as u8);
    assert((8 * 3) as u64 == 24u64);
    assert((((x as u64) >> 24u64) & 0xff) as u8 == (((y as u64) >> 24u64) & 0xff) as u8);
    assert(crate::group::le_bytes(x as u64, 8)[4] == (((x as u64) >> ((8 * 4) as u64)) & 0xff) as u8);
    assert(crate::group::le_bytes(y as u64, 8)[4] == (((y as u64) >> ((8 * 4) as u64)) & 0xff) as u8);
    assert((8 * 4) as u64 == 32u64);
    assert((((x as u64) >> 32u64) & 0xff) as u8 == (((y as u64) >> 32u64) & 0xff) as u8);
    assert(crate::group::le_bytes(x as u64, 8)[5] == (((x as u64) >> ((8 * 5) as u64)) & 0xff) as u8);
    assert(crate::group::le_bytes(y as u64, 8)[5] == (((y as u64) >> ((8 * 5) as u64)) & 0xff) as u8);
    assert((8 * 5) as u64 == 40u64);
    assert((((x as u64) >> 40u64) & 0xff) as u8 == (((y as u64) >> 40u64) & 0xff) as u8);
    assert(crate::group::le_bytes(x as u64, 8)[6] == (((x as u64) >> ((8 * 6) as u64)) & 0xff) as u8);
    assert(crate::group::le_bytes(y as u64, 8)[6] == (((y as u64) >> ((8 * 6) as u64)) & 0xff) as u8);
    assert((8 * 6) as u64 == 48u64);
    assert((((x as u64) >> 48u64) & 0xff) as u8 == (((y as u64) >> 48u64) & 0xff) as u8);
    assert(crate::group::le_bytes(x as u64, 8)[7] == (((x as u64) >> ((8 * 7) as u64)) & 0xff) as u8);
    assert(crate::group::le_bytes(y as u64, 8)[7] == (((y as u64) >> ((8 * 7) as u64)) & 0xff) as u8);
    assert((8 * 7) as u64 == 56u64);
    assert((((x as u64) >> 56u64) & 0xff) as u8 == (((y as u64) >> 56u64) & 0xff) as u8);
    assert(x == y) by (bit_vector)
        requires
            (((x as u64) >> 0u64) & 0xff) as u8 == (((y as u64) >> 0u64) & 0xff) as u8,
            (((x as u64) >> 8u64) & 0xff) as u8 == (((y as u64) >> 8u64) & 0xff) as u8,
            (((x as u64) >> 16u64) & 0xff) as u8 == (((y as u64) >> 16u64) & 0xff) as u8,
            (((x as u64) >> 24u64) & 0xff) as u8 == (((y as u64) >> 24u64) & 0xff) as u8,
            (((x as u64) >> 32u64) & 0xff) as u8 == (((y as u64) >> 32u64) & 0xff) as u8,
            (((x as u64) >> 40u64) & 0xff) as u8 == (((y as u64) >> 40u64) & 0xff) as u8,
            (((x as u64) >> 48u64) & 0xff) as u8 == (((y as u64) >> 48u64) & 0xff) as u8,
            (((x as u64) >> 56u64) & 0xff) as u8 == (((y as u64) >> 56u64) & 0xff) as u8,
    ;
}

proof fn lemma_le1_inj_u8(x: u8, y: u8)
    requires
        crate::group::le_bytes(x as u64, 1) == crate::group::le_bytes(y as u64, 1),
    ensures
        x == y,
{
    assert(crate::group::le_bytes(x as u64, 1)[0] == (((x as u64) >> ((8 * 0) as u64)) & 0xff) as u8);
    assert(crate::group::le_bytes(y as u64, 1)[0] == (((y as u64) >> ((8 * 0) as u64)) & 0xff) as u8);
    assert((8 * 0) as u64 == 0u64);
    assert((((x as u64) >> 0u64) & 0xff) as u8 == (((y as u64) >> 0u64) & 0xff) as u8);
    assert(x == y) by (bit_vector)
        requires
            (((x as u64) >> 0u64) & 0xff) as u8 == (((y as u64) >> 0u64) & 0xff) as u8,
    ;
}

proof fn lemma_le2_inj_u16(x: u16, y: u16)
    requires
        crate::group::le_bytes(x as u64, 2) == crate::group::le_bytes(y as u64, 2),
    ensures
        x == y,
{
    assert(crate::group::le_bytes(x as u64, 2)[0] == (((x as u64) >> ((8 * 0) as u64)) & 0xff) as u8);
    assert(crate::group::le_bytes(y as u64, 2)[0] == (((y as u64) >> ((8 * 0) as u64)) & 0xff) as u8);
    assert((8 * 0) as u64 == 0u64);
    assert((((x as u64) >> 0u64) & 0xff) as u8 == (((y as u64) >> 0u64) & 0xff) as u8);
    assert(crate::group::le_bytes(x as u64, 2)[1] == (((x as u64) >> ((8 * 1) as u64)) & 0xff) as u8);
    assert(crate::group::le_bytes(y as u64, 2)[1] == (((y as u64) >> ((8 * 1) as u64)) & 0xff) as u8);
    assert((8 * 1) as u64 == 8u64);
    assert((((x as u64) >> 8u64) & 0xff) as u8 == (((y as u64) >> 8u64) & 0xff) as u8);
    assert(x == y) by (bit_vector)
        requires
            (((x as u64) >> 0u64) & 0xff) as u8 == (((y as u64) >> 0u64) & 0xff) as u8,
            (((x as u64) >> 8u64) & 0xff) as u8 == (((y as u64) >> 8u64) & 0xff) as u8,
    ;
}

proof fn lemma_le4_inj_u32(x: u32, y: u32)
    requires
        crate::group::le_bytes(x as u64, 4) == crate::group::le_bytes(y as u64, 4),
    ensures
        x == y,
{
    assert(crate::group::le_bytes(x as u64, 4)[0] == (((x as u64) >> ((8 * 0) as u64)) & 0xff) as u8);
    assert(crate::group::le_bytes(y as u64, 4)[0] == (((y as u64) >> ((8 * 0) as u64)) & 0xff) as u8);
    assert((8 * 0) as u64 == 0u64);
    assert((((x as u64) >> 0u64) & 0xff) as u8 == (((y as u64) >> 0u64) & 0xff) as u8);
    assert(crate::group::le_bytes(x as u64, 4)[1] == (((x as u64) >> ((8 * 1) as u64)) & 0xff) as u8);
    assert(crate::group::le_bytes(y as u64, 4)[1] == (((y as u64) >> ((8 * 1) as u64)) & 0xff) as u8);
    assert((8 * 1) as u64 == 8u64);
    assert((((x as u64) >> 8u64) & 0xff) as u8 == (((y as u64) >> 8u64) & 0xff) as u8);
    assert(crate::group::le_bytes(x as u64, 4)[2] == (((x as u64) >> ((8 * 2) as u64)) & 0xff) as u8);
    assert(crate::group::le_bytes(y as u64, 4)[2] == (((y as u64) >> ((8 * 2) as u64)) & 0xff) as u8);
    assert((8 * 2) as u64 == 16u64);
    assert((((x as u64) >> 16u64) & 0xff) as u8 == (((y as u64) >> 16u64) & 0xff) as u8);
    assert(crate::group::le_bytes(x as u64, 4)[3] == (((x as u64) >> ((8 * 3) as u64)) & 0xff) as u8);
    assert(crate::group::le_bytes(y as u64, 4)[3] == (((y as u64) >> ((8 * 3) as u64)) & 0xff) as u8);
    assert((8 * 3) as u64 == 24u64);
    assert((((x as u64) >> 24u64) & 0xff) as u8 == (((y as u64) >> 24u64) & 0xff) as u8);
    assert(x == y) by (bit_vector)
        requires
            (((x as u64) >> 0u64) & 0xff) as u8 == (((y as u64) >> 0u64) & 0xff) as u8,
            (((x as u64) >> 8u64) & 0xff) as u8 == (((y as u64) >> 8u64) & 0xff) as u8,
            (((x as u64) >> 16u64) & 0xff) as u8 == (((y as u64) >> 16u64) & 0xff) as u8,
            (((x as u64) >> 24u64) & 0xff) as u8 == (((y as u64) >> 24u64) & 0xff) as u8,
    ;
}

proof fn lemma_le8_inj_u64(x: u64, y: u64)
    requires
        crate::group::le_bytes(x, 8) == crate::group::le_bytes(y, 8),
    ensures
        x == y,
{
    assert(crate::group::le_bytes(x, 8)[0] == ((x >> ((8 * 0) as u64)) & 0xff) as u8);
    assert(crate::group::le_bytes(y, 8)[0] == ((y >> ((8 * 0) as u64)) & 0xff) as u8);
    assert((8 * 0) as u64 == 0u64);
    assert(((x >> 0u64) & 0xff) as u8 == ((y >> 0u64) & 0xff) as u8);
    assert(crate::group::le_bytes(x, 8)[1] == ((x >> ((8 * 1) as u64)) & 0xff) as u8);
    assert(crate::group::le_bytes(y, 8)[1] == ((y >> ((8 * 1) as u64)) & 0xff) as u8);
    assert((8 * 1) as u64 == 8u64);
    assert(((x >> 8u64) & 0xff) as u8 == ((y >> 8u64) & 0xff) as u8);
    assert(crate::group::le_bytes(x, 8)[2] == ((x >> ((8 * 2) as u64)) & 0xff) as u8);
    assert(crate::group::le_bytes(y, 8)[2] == ((y >> ((8 * 2) as u64)) & 0xff) as u8);
    assert((8 * 2) as u64 == 16u64);
    assert(((x >> 16u64) & 0xff) as u8 == ((y >> 16u64) & 0xff) as u8);
    assert(crate::group::le_bytes(x, 8)[3] == ((x >> ((8 * 3) as u64)) & 0xff) as u8);
    assert(crate::group::le_bytes(y, 8)[3] == ((y >> ((8 * 3) as u64)) & 0xff) as u8);
    assert((8 * 3) as u64 == 24u64);
    assert(((x >> 24u64) & 0xff) as u8 == ((y >> 24u64) & 0xff) as u8);
    assert(crate::group::le_bytes(x, 8)[4] == ((x >> ((8 * 4) as u64)) & 0xff) as u8);
    assert(crate::group::le_bytes(y, 8)[4] == ((y >> ((8 * 4) as u64)) & 0xff) as u8);
    assert((8 * 4) as u64 == 32u64);
    assert(((x >> 32u64) & 0xff) as u8 == ((y >> 32u64) & 0xff) as u8);
    assert(crate::group::le_bytes(x, 8)[5] == ((x >> ((8 * 5) as u64)) & 0xff) as u8);
    assert(crate::group::le_bytes(y, 8)[5] == ((y >> ((8 * 5) as u64)) & 0xff) as u8);
    assert((8 * 5) as u64 == 40u64);
    assert(((x >> 40u64) & 0xff) as u8 == ((y >> 40u64) & 0xff) as u8);
    assert(crate::group::le_bytes(x, 8)[6] == ((x >> ((8 * 6) as u64)) & 0xff) as u8);
    assert(crate::group::le_bytes(y, 8)[6] == ((y >> ((8 * 6) as u64)) & 0xff) as u8);
    assert((8 * 6) as u64 == 48u64);
    assert(((x >> 48u64) & 0xff) as u8 == ((y >> 48u64) & 0xff) as u8);
    assert(crate::group::le_bytes(x, 8)[7] == ((x >> ((8 * 7) as u64)) & 0xff) as u8);
    assert(crate::group::le_bytes(y, 8)[7] == ((y >> ((8 * 7) as u64)) & 0xff) as u8);
    assert((8 * 7) as u64 == 56u64);
    assert(((x >> 56u64) & 0xff) as u8 == ((y >> 56u64) & 0xff) as u8);
    assert(x == y) by (bit_vector)
        requires
            ((x >> 0u64) & 0xff) as u8 == ((y >> 0u64) & 0xff) as u8,
            ((x >> 8u64) & 0xff) as u8 == ((y >> 8u64) & 0xff) as u8,
            ((x >> 16u64) & 0xff) as u8 == ((y >> 16u64) & 0xff) as u8,
            ((x >> 24u64) & 0xff) as u8 == ((y >> 24u64) & 0xff) as u8,
            ((x >> 32u64) & 0xff) as u8 == ((y >> 32u64) & 0xff) as u8,
            ((x >> 40u64) & 0xff) as u8 == ((y >> 40u64) & 0xff) as u8,
            ((x >> 48u64) & 0xff) as u8 == ((y >> 48u64) & 0xff) as u8,
            ((x >> 56u64) & 0xff) as u8 == ((y >> 56u64) & 0xff) as u8,
    ;
}

/// Safer-design law, fixed-width part: for the fixed-width key types,
/// equal serializations mean equal values — a byte-compared key never
/// merges two different keys.
pub proof fn lemma_encode_fixed_injective(a: DataValue, b: DataValue)
    requires
        a.spec_data_type() == b.spec_data_type(),
        a.spec_data_type().spec_is_integer() || a.spec_data_type()
            == crate::values::DataType::Boolean || a.spec_data_type()
            == crate::values::DataType::Date32 || a.spec_data_type()
            == crate::values::DataType::Date64,
        crate::group::encode_value(a) == crate::group::encode_value(b),
    ensures
        dv_eq(a, b),
{
    let ea = crate::group::encode_value(a);
    let eb = crate::group::encode_value(b);
    assert(seq![1u8].len() == 1);
    if a.spec_is_null() != b.spec_is_null() {
        if a.spec_is_null() {
            assert(ea[0] == 0u8);
            assert(eb[0] == 1u8);
        } else {
            assert(ea[0] == 1u8);
            assert(eb[0] == 0u8);
        }
        assert(false);
    } else if a.spec_is_null() {
    } else {
        match (a, b) {
            (DataValue::Boolean(Some(x)), DataValue::Boolean(Some(y))) => {
                let px = seq![
                    if x {
                        1u8
                    } else {
                        0u8
                    },
                ];
                let py = seq![
                    if y {
                        1u8
                    } else {
                        0u8
                    },
                ];
                assert(ea == seq![1u8] + px);
                assert(eb == seq![1u8] + py);
                assert(ea[1] == px[0]);
                assert(eb[1] == py[0]);
            },
            (DataValue::Int8(Some(x)), DataValue::Int8(Some(y))) => {
                assert(ea == seq![1u8] + crate::group::le_bytes(x as u64, 1));
                assert(eb == seq![1u8] + crate::group::le_bytes(y as u64, 1));
                assert(crate::group::le_bytes(x as u64, 1) =~= crate::group::le_bytes(
                    y as u64,
                    1,
                )) by {
                    assert forall|i: int| 0 <= i < 1 implies #[trigger] crate::group::le_bytes(
                        x as u64,
                        1,
                    )[i] == crate::group::le_bytes(y as u64, 1)[i] by {
                        assert(seq![1u8].len() == 1);
                        assert((seq![1u8] + crate::group::le_bytes(x as u64, 1))[1 + i]
                            == crate::group::le_bytes(x as u64, 1)[i]);
                        assert((seq![1u8] + crate::group::le_bytes(y as u64, 1))[1 + i]
                            == crate::group::le_bytes(y as u64, 1)[i]);
                        assert(ea[1 + i] == eb[1 + i]);
                    }
                }
                lemma_le1_inj_i8(x, y);
            },
            (DataValue::Int16(Some(x)), DataValue::Int16(Some(y))) => {
                assert(ea == seq![1u8] + crate::group::le_bytes(x as u64, 2));
                assert(eb == seq![1u8] + crate::group::le_bytes(y as u64, 2));
                assert(crate::group::le_bytes(x as u64, 2) =~= crate::group::le_bytes(
                    y as u64,
                    2,
                )) by {
                    assert forall|i: int| 0 <= i < 2 implies #[trigger] crate::group::le_bytes(
                        x as u64,
                        2,
                    )[i] == crate::group::le_bytes(y as u64, 2)[i] by {
                        assert(seq![1u8].len() == 1);
                        assert((seq![1u8] + crate::group::le_bytes(x as u64, 2))[1 + i]
                            == crate::group::le_bytes(x as u64, 2)[i]);
                        assert((seq![1u8] + crate::group::le_bytes(y as u64, 2))[1 + i]
                            == crate::group::le_bytes(y as u64, 2)[i]);
                        assert(ea[1 + i] == eb[1 + i]);
                    }
                }
                lemma_le2_inj_i16(x, y);
            },
            (DataValue::Int32(Some(x)), DataValue::Int32(Some(y))) => {
                assert(ea == seq![1u8] + crate::group::le_bytes(x as u64, 4));
                assert(eb == seq![1u8] + crate::group::le_bytes(y as u64, 4));
                assert(crate::group::le_bytes(x as u64, 4) =~= crate::group::le_bytes(
                    y as u64,
                    4,
                )) by {
                    assert forall|i: int| 0 <= i < 4 implies #[trigger] crate::group::le_bytes(
                        x as u64,
                        4,
                    )[i] == crate::group::le_bytes(y as u64, 4)[i] by {
                        assert(seq![1u8].len() == 1);
                        assert((seq![1u8] + crate::group::le_bytes(x as u64, 4))[1 + i]
                            == crate::group::le_bytes(x as u64, 4)[i]);
                        assert((seq![1u8] + crate::group::le_bytes(y as u64, 4))[1 + i]
                            == crate::group::le_bytes(y as u64, 4)[i]);
                        assert(ea[1 + i] == eb[1 + i]);
                    }
                }
                lemma_le4_inj_i32(x, y);
            },
            (DataValue::Int64(Some(x)), DataValue::Int64(Some(y))) => {
                assert(ea == seq![1u8] + crate::group::le_bytes(x as u64, 8));
                assert(eb == seq![1u8] + crate::group::le_bytes(y as u64, 8));
                assert(crate::group::le_bytes(x as u64, 8) =~= crate::group::le_bytes(
                    y as u64,
                    8,
                )) by {
                    assert forall|i: int| 0 <= i < 8 implies #[trigger] crate::group::le_bytes(
                        x as u64,
                        8,
                    )[i] == crate::group::le_bytes(y as u64, 8)[i] by {
                        assert(seq![1u8].len() == 1);
                        assert((seq![1u8] + crate::group::le_bytes(x as u64, 8))[1 + i]
                            == crate::group::le_bytes(x as u64, 8)[i]);
                        assert((seq![1u8] + crate::group::le_bytes(y as u64, 8))[1 + i]
                            == crate::group::le_bytes(y as u64, 8)[i]);
                        assert(ea[1 + i] == eb[1 + i]);
                    }
                }
                lemma_le8_inj_i64(x, y);
            },
            (DataValue::UInt8(Some(x)), DataValue::UInt8(Some(y))) => {
                assert(ea == seq![1u8] + crate::group::le_bytes(x as u64, 1));
                assert(eb == seq![1u8] + crate::group::le_bytes(y as u64, 1));
                assert(crate::group::le_bytes(x as u64, 1) =~= crate::group::le_bytes(
                    y as u64,
                    1,
                )) by {
                    assert forall|i: int| 0 <= i < 1 implies #[trigger] crate::group::le_bytes(
                        x as u64,
                        1,
                    )[i] == crate::group::le_bytes(y as u64, 1)[i] by {
                        assert(seq![1u8].len() == 1);
                        assert((seq![1u8] + crate::group::le_bytes(x as u64, 1))[1 + i]
                            == crate::group::le_bytes(x as u64, 1)[i]);
                        assert((seq![1u8] + crate::group::le_bytes(y as u64, 1))[1 + i]
                            == crate::group::le_bytes(y as u64, 1)[i]);
                        assert(ea[1 + i] == eb[1 + i]);
                    }
                }
                lemma_le1_inj_u8(x, y);
            },
            (DataValue::UInt16(Some(x)), DataValue::UInt16(Some(y))) => {
                assert(ea == seq![1u8] + crate::group::le_bytes(x as u64, 2));
                assert(eb == seq![1u8] + crate::group::le_bytes(y as u64, 2));
                assert(crate::group::le_bytes(x as u64, 2) =~= crate::group::le_bytes(
                    y as u64,
                    2,
                )) by {
                    assert forall|i: int| 0 <= i < 2 implies #[trigger] crate::group::le_bytes(
                        x as u64,
                        2,
                    )[i] == crate::group::le_bytes(y as u64, 2)[i] by {
                        assert(seq![1u8].len() == 1);
                        assert((seq![1u8] + crate::group::le_bytes(x as u64, 2))[1 + i]
                            == crate::group::le_bytes(x as u64, 2)[i]);
                        assert((seq![1u8] + crate::group::le_bytes(y as u64, 2))[1 + i]
                            == crate::group::le_bytes(y as u64, 2)[i]);
                        assert(ea[1 + i] == eb[1 + i]);
                    }
                }
                lemma_le2_inj_u16(x, y);
            },
            (DataValue::UInt32(Some(x)), DataValue::UInt32(Some(y))) => {
                assert(ea == seq![1u8] + crate::group::le_bytes(x as u64, 4));
                assert(eb == seq![1u8] + crate::group::le_bytes(y as u64, 4));
                assert(crate::group::le_bytes(x as u64, 4) =~= crate::group::le_bytes(
                    y as u64,
                    4,
                )) by {
                    assert forall|i: int| 0 <= i < 4 implies #[trigger] crate::group::le_bytes(
                        x as u64,
                        4,
                    )[i] == crate::group::le_bytes(y as u64, 4)[i] by {
                        assert(seq![1u8].len() == 1);
                        assert((seq![1u8] + crate::group::le_bytes(x as u64, 4))[1 + i]
                            == crate::group::le_bytes(x as u64, 4)[i]);
                        assert((seq![1u8] + crate::group::le_bytes(y as u64, 4))[1 + i]
                            == crate::group::le_bytes(y as u64, 4)[i]);
                        assert(ea[1 + i] == eb[1 + i]);
                    }
                }
                lemma_le4_inj_u32(x, y);
            },
            (DataValue::UInt64(Some(x)), DataValue::UInt64(Some(y))) => {
                assert(ea == seq![1u8] + crate::group::le_bytes(x, 8));
                assert(eb == seq![1u8] + crate::group::le_bytes(y, 8));
                assert(crate::group::le_bytes(x, 8) =~= crate::group::le_bytes(
                    y,
                    8,
                )) by {
                    assert forall|i: int| 0 <= i < 8 implies #[trigger] crate::group::le_bytes(
                        x,
                        8,
                    )[i] == crate::group::le_bytes(y, 8)[i] by {
                        assert(seq![1u8].len() == 1);
                        assert((seq![1u8] + crate::group::le_bytes(x, 8))[1 + i]
                            == crate::group::le_bytes(x, 8)[i]);
                        assert((seq![1u8] + crate::group::le_bytes(y, 8))[1 + i]
                            == crate::group::le_bytes(y, 8)[i]);
                        assert(ea[1 + i] == eb[1 + i]);
                    }
                }
                lemma_le8_inj_u64(x, y);
            },
            (DataValue::Date32(Some(x)), DataValue::Date32(Some(y))) => {
                assert(ea == seq![1u8] + crate::group::le_bytes(x as u64, 4));
                assert(eb == seq![1u8] + crate::group::le_bytes(y as u64, 4));
                assert(crate::group::le_bytes(x as u64, 4) =~= crate::group::le_bytes(
                    y as u64,
                    4,
                )) by {
                    assert forall|i: int| 0 <= i < 4 implies #[trigger] crate::group::le_bytes(
                        x as u64,
                        4,
                    )[i] == crate::group::le_bytes(y as u64, 4)[i] by {
                        assert(seq![1u8].len() == 1);
                        assert((seq![1u8] + crate::group::le_bytes(x as u64, 4))[1 + i]
                            == crate::group::le_bytes(x as u64, 4)[i]);
                        assert((seq![1u8] + crate::group::le_bytes(y as u64, 4))[1 + i]
                            == crate::group::le_bytes(y as u64, 4)[i]);
                        assert(ea[1 + i] == eb[1 + i]);
                    }
                }
                lemma_le4_inj_i32(x, y);
            },
            (DataValue::Date64(Some(x)), DataValue::Date64(Some(y))) => {
                assert(ea == seq![1u8] + crate::group::le_bytes(x as u64, 8));
                assert(eb == seq![1u8] + crate::group::le_bytes(y as u64, 8));
                assert(crate::group::le_bytes(x as u64, 8) =~= crate::group::le_bytes(
                    y as u64,
                    8,
                )) by {
                    assert forall|i: int| 0 <= i < 8 implies #[trigger] crate::group::le_bytes(
                        x as u64,
                        8,
                    )[i] == crate::group::le_bytes(y as u64, 8)[i] by {
                        assert(seq![1u8].len() == 1);
                        assert((seq![1u8] + crate::group::le_bytes(x as u64, 8))[1 + i]
                            == crate::group::le_bytes(x as u64, 8)[i]);
                        assert((seq![1u8] + crate::group::le_bytes(y as u64, 8))[1 + i]
                            == crate::group::le_bytes(y as u64, 8)[i]);
                        assert(ea[1 + i] == eb[1 + i]);
                    }
                }
                lemma_le8_inj_i64(x, y);
            },
            _ => {},
        }
    }
}

/// A string's serialization is four bytes per character.
proof fn lemma_chars_bytes_len(cs: Seq<char>)
    ensures
        crate::group::chars_bytes(cs).len() == 4 * cs.len(),
    decreases cs.len(),
{
    if cs.len() > 0 {
        lemma_chars_bytes_len(cs.drop_last());
    }
}

proof fn lemma_le4_inj_small(x: u64, y: u64)
    requires
        x < 0x1_0000_0000,
        y < 0x1_0000_0000,
        crate::group::le_bytes(x, 4) == crate::group::le_bytes(y, 4),
    ensures
        x == y,
{
    assert(crate::group::le_bytes(x, 4)[0] == ((x >> ((8 * 0) as u64)) & 0xff) as u8);
    assert(crate::group::le_bytes(y, 4)[0] == ((y >> ((8 * 0) as u64)) & 0xff) as u8);
    assert(crate::group::le_bytes(x, 4)[1] == ((x >> ((8 * 1) as u64)) & 0xff) as u8);
    assert(crate::group::le_bytes(y, 4)[1] == ((y >> ((8 * 1) as u64)) & 0xff) as u8);
    assert(crate::group::le_bytes(x, 4)[2] == ((x >> ((8 * 2) as u64)) & 0xff) as u8);
    assert(crate::group::le_bytes(y, 4)[2] == ((y >> ((8 * 2) as u64)) & 0xff) as u8);
    assert(crate::group::le_bytes(x, 4)[3] == ((x >> ((8 * 3) as u64)) & 0xff) as u8);
    assert(crate::group::le_bytes(y, 4)[3] == ((y >> ((8 * 3) as u64)) & 0xff) as u8);
    assert((8 * 0) as u64 == 0u64);
    assert((8 * 1) as u64 == 8u64);
    assert((8 * 2) as u64 == 16u64);
    assert((8 * 3) as u64 == 24u64);
    assert(((x >> 0u64) & 0xff) as u8 == ((y >> 0u64) & 0xff) as u8);
    assert(((x >> 8u64) & 0xff) as u8 == ((y >> 8u64) & 0xff) as u8);
    assert(((x >> 16u64) & 0xff) as u8 == ((y >> 16u64) & 0xff) as u8);
    assert(((x >> 24u64) & 0xff) as u8 == ((y >> 24u64) & 0xff) as u8);
    assert(x == y) by (bit_vector)
        requires
            x < 0x1_0000_0000,
            y < 0x1_0000_0000,
            ((x >> 0u64) & 0xff) as u8 == ((y >> 0u64) & 0xff) as u8,
            ((x >> 8u64) & 0xff) as u8 == ((y >> 8u64) & 0xff) as u8,
            ((x >> 16u64) & 0xff) as u8 == ((y >> 16u64) & 0xff) as u8,
            ((x >> 24u64) & 0xff) as u8 == ((y >> 24u64) & 0xff) as u8,
    ;
}

proof fn lemma_char_code_bound(c: char)
    ensures
        (c as u64) < 0x1_0000_0000,
{
}

proof fn lemma_char_u64_injective(a: char, b: char)
    requires
        a as u64 == b as u64,
    ensures
        a == b,
{
}

/// Equally long strings with equal serializations are equal.
proof fn lemma_chars_bytes_injective(s1: Seq<char>, s2: Seq<char>)
    requires
        s1.len() == s2.len(),
        crate::group::chars_bytes(s1) == crate::group::chars_bytes(s2),
    ensures
        s1 == s2,
    decreases s1.len(),
{
    if s1.len() == 0 {
        assert(s1 =~= s2);
    } else {
        let h1 = crate::group::chars_bytes(s1.drop_last());
        let h2 = crate::group::chars_bytes(s2.drop_last());
        let t1 = crate::group::le_bytes(s1.last() as u64, 4);
        let t2 = crate::group::le_bytes(s2.last() as u64, 4);
        lemma_chars_bytes_len(s1.drop_last());
        lemma_chars_bytes_len(s2.drop_last());
        assert(crate::group::chars_bytes(s1) == h1 + t1);
        assert(crate::group::chars_bytes(s2) == h2 + t2);
        assert(h1.len() == h2.len());
        assert(h1 =~= h2) by {
            assert forall|i: int| 0 <= i < h1.len() implies #[trigger] h1[i] == h2[i] by {
                assert((h1 + t1)[i] == h1[i]);
                assert((h2 + t2)[i] == h2[i]);
            }
        }
        assert(t1 =~= t2) by {
            assert forall|i: int| 0 <= i < 4 implies #[trigger] t1[i] == t2[i] by {
                assert((h1 + t1)[h1.len() + i] == t1[i]);
                assert((h2 + t2)[h2.len() + i] == t2[i]);
            }
        }
        lemma_chars_bytes_injective(s1.drop_last(), s2.drop_last());
        let c1 = s1.last();
        let c2 = s2.last();
        lemma_char_code_bound(c1);
        lemma_char_code_bound(c2);
        lemma_le4_inj_small(c1 as u64, c2 as u64);
        lemma_char_u64_injective(c1, c2);
        assert(s1 =~= s2) by {
            assert forall|i: int| 0 <= i < s1.len() implies #[trigger] s1[i] == s2[i] by {
                if i < s1.len() - 1 {
                    assert(s1.drop_last()[i] == s2.drop_last()[i]);
                }
            }
        }
    }
}

/// Safer-design law, variable-width part: a length-prefixed string or
/// byte-string serialization is injective, so key equality by byte
/// comparison implies value equality for variable-width keys too.
pub proof fn lemma_encode_var_injective(a: DataValue, b: DataValue)
    requires
        a.spec_data_type() == b.spec_data_type(),
        a.spec_data_type() == crate::values::DataType::Utf8 || a.spec_data_type()
            == crate::values::DataType::Binary,
        (match a {
            DataValue::Utf8(Some(s)) => s@.len() < 0x1_0000_0000_0000_0000,
            DataValue::Binary(Some(v)) => v@.len() < 0x1_0000_0000_0000_0000,
            _ => true,
        }),
        (match b {
            DataValue::Utf8(Some(s)) => s@.len() < 0x1_0000_0000_0000_0000,
            DataValue::Binary(Some(v)) => v@.len() < 0x1_0000_0000_0000_0000,
            _ => true,
        }),
        crate::group::encode_value(a) == crate::group::encode_value(b),
    ensures
        dv_eq(a, b),
{
    let ea = crate::group::encode_value(a);
    let eb = crate::group::encode_value(b);
    assert(seq![1u8].len() == 1);
    if a.spec_is_null() != b.spec_is_null() {
        if a.spec_is_null() {
            assert(ea[0] == 0u8);
            assert(eb[0] == 1u8);
        } else {
            assert(ea[0] == 1u8);
            assert(eb[0] == 0u8);
        }
        assert(false);
    } else if a.spec_is_null() {
    } else {
        match (a, b) {
            (DataValue::Utf8(Some(sx)), DataValue::Utf8(Some(sy))) => {
                let lx = crate::group::le_bytes(sx@.len() as u64, 8);
                let ly = crate::group::le_bytes(sy@.len() as u64, 8);
                let cx = crate::group::chars_bytes(sx@);
                let cy = crate::group::chars_bytes(sy@);
                assert(ea == seq![1u8] + (lx + cx));
                assert(eb == seq![1u8] + (ly + cy));
                assert(lx =~= ly) by {
                    assert forall|i: int| 0 <= i < 8 implies #[trigger] lx[i] == ly[i] by {
                        assert((seq![1u8] + (lx + cx))[1 + i] == (lx + cx)[i]);
                        assert((lx + cx)[i] == lx[i]);
                        assert((seq![1u8] + (ly + cy))[1 + i] == (ly + cy)[i]);
                        assert((ly + cy)[i] == ly[i]);
                        assert(ea[1 + i] == eb[1 + i]);
                    }
                }
                lemma_le8_inj_u64(sx@.len() as u64, sy@.len() as u64);
                assert(sx@.len() == sy@.len());
                lemma_chars_bytes_len(sx@);
                lemma_chars_bytes_len(sy@);
                assert(cx =~= cy) by {
                    assert forall|i: int| 0 <= i < cx.len() implies #[trigger] cx[i] == cy[i] by {
                        assert((lx + cx)[8 + i] == cx[i]);
                        assert((ly + cy)[8 + i] == cy[i]);
                        assert((seq![1u8] + (lx + cx))[9 + i] == (lx + cx)[8 + i]);
                        assert((seq![1u8] + (ly + cy))[9 + i] == (ly + cy)[8 + i]);
                        assert(ea[9 + i] == eb[9 + i]);
                    }
                }
                lemma_chars_bytes_injective(sx@, sy@);
            },
            (DataValue::Binary(Some(vx)), DataValue::Binary(Some(vy))) => {
                let lx = crate::group::le_bytes(vx@.len() as u64, 8);
                let ly = crate::group::le_bytes(vy@.len() as u64, 8);
                assert(ea == seq![1u8] + (lx + vx@));
                assert(eb == seq![1u8] + (ly + vy@));
                assert(lx =~= ly) by {
                    assert forall|i: int| 0 <= i < 8 implies #[trigger] lx[i] == ly[i] by {
                        assert((seq![1u8] + (lx + vx@))[1 + i] == (lx + vx@)[i]);
                        assert((lx + vx@)[i] == lx[i]);
                        assert((seq![1u8] + (ly + vy@))[1 + i] == (ly + vy@)[i]);
                        assert((ly + vy@)[i] == ly[i]);
                        assert(ea[1 + i] == eb[1 + i]);
                    }
                }
                lemma_le8_inj_u64(vx@.len() as u64, vy@.len() as u64);
                assert(vx@.len() == vy@.len());
                assert(vx@ =~= vy@) by {
                    assert forall|i: int| 0 <= i < vx@.len() implies #[trigger] vx@[i] == vy@[i]
                        by {
                        assert((lx + vx@)[8 + i] == vx@[i]);
                        assert((ly + vy@)[8 + i] == vy@[i]);
                        assert((seq![1u8] + (lx + vx@))[9 + i] == (lx + vx@)[8 + i]);
                        assert((seq![1u8] + (ly + vy@))[9 + i] == (ly + vy@)[8 + i]);
                        assert(ea[9 + i] == eb[9 + i]);
                    }
                }
            },
            _ => {},
        }
    }
}

/// Grouping law: the groups partition the rows — every row lies in a
/// group (that is part of `group_table_wf` itself), a row lies in only
/// one place, and two member rows share a group exactly when their key
/// tuples are equal, null equalling null.
pub proof fn lemma_grouping_partition(
    entries: Seq<GroupEntry>,
    gcols: Seq<Seq<DataValue>>,
    rows: nat,
    g1: int,
    j1: int,
    g2: int,
    j2: int,
)
    requires
        group_table_wf(entries, gcols, rows),
        0 <= g1 < entries.len(),
        0 <= j1 < entries[g1].indices@.len(),
        0 <= g2 < entries.len(),
        0 <= j2 < entries[g2].indices@.len(),
    ensures
        (g1 == g2) <==> seq_dv_eq(
            row_key(gcols, entries[g1].indices@[j1] as int),
            row_key(gcols, entries[g2].indices@[j2] as int),
        ),
        entries[g1].indices@[j1] == entries[g2].indices@[j2] ==> g1 == g2 && j1 == j2,
{
    let k1 = row_key(gcols, entries[g1].indices@[j1] as int);
    let k2 = row_key(gcols, entries[g2].indices@[j2] as int);
    let v1 = entries[g1].values@;
    let v2 = entries[g2].values@;
    assert(seq_dv_eq(k1, v1));
    assert(seq_dv_eq(k2, v2));
    if g1 == g2 {
        lemma_seq_dv_eq_symm(k2, v2);
        lemma_seq_dv_eq_trans(k1, v1, k2);
        if j1 != j2 {
            assert(entries[g1].indices@[j1] != entries[g2].indices@[j2]);
        }
    } else {
        if seq_dv_eq(k1, k2) {
            lemma_seq_dv_eq_symm(k1, v1);
            lemma_seq_dv_eq_trans(v1, k1, k2);
            lemma_seq_dv_eq_trans(v1, k2, v2);
            if g1 < g2 {
                assert(!seq_dv_eq(v1, v2));
            } else {
                lemma_seq_dv_eq_symm(v1, v2);
                assert(!seq_dv_eq(v2, v1));
            }
            assert(false);
        }
        if entries[g1].indices@[j1] == entries[g2].indices@[j2] {
            assert(k1 == k2);
            crate::columns::lemma_seq_dv_eq_refl(k1);
            assert(false);
        }
    }
}

} // verus!
