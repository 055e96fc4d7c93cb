//! Scalar comparison semantics: per-variant equality and ordering,
//! SQL `LIKE` pattern matching, and the three-valued result of applying
//! a comparison operator to two scalars that may be null.

use vstd::prelude::*;
use vstd::string::StrSliceExecFns;

use crate::values::dv_eq;
use crate::values::val_equal;
use crate::values::DataType;
use crate::values::DataValue;

verus! {

/// The comparison operators exposed by the kernels.
#[derive(Clone, Copy, PartialEq, Eq, Structural, Debug)]
pub enum CompareOp {
    Eq,
    NotEq,
    Gt,
    GtEq,
    Lt,
    LtEq,
    /// Equality that regards missing values as equal.
    EqMissing,
    Like,
    NotLike,
}

/// Strict lexicographic order on byte strings.
pub open spec fn lex_lt_u8(a: Seq<u8>, b: Seq<u8>) -> bool
    decreases a.len() + b.len(),
{
    if b.len() == 0 {
        false
    } else if a.len() == 0 {
        true
    } else if a[0] != b[0] {
        a[0] < b[0]
    } else {
        lex_lt_u8(a.skip(1), b.skip(1))
    }
}

/// Strict lexicographic order on character strings, by code point.
pub open spec fn lex_lt_char(a: Seq<char>, b: Seq<char>) -> bool
    decreases a.len() + b.len(),
{
    if b.len() == 0 {
        false
    } else if a.len() == 0 {
        true
    } else if a[0] != b[0] {
        (a[0] as u32) < (b[0] as u32)
    } else {
        lex_lt_char(a.skip(1), b.skip(1))
    }
}

/// SQL `LIKE`: does pattern `p` match the whole string `s`? `%` matches
/// any run of characters, `_` matches exactly one, anything else only
/// itself.
pub open spec fn like_match(p: Seq<char>, s: Seq<char>) -> bool
    decreases p.len() + s.len(),
{
    if p.len() == 0 {
        s.len() == 0
    } else if p[0] == '%' {
        like_match(p.skip(1), s) || (s.len() > 0 && like_match(p, s.skip(1)))
    } else if p[0] == '_' {
        s.len() > 0 && like_match(p.skip(1), s.skip(1))
    } else {
        s.len() > 0 && s[0] == p[0] && like_match(p.skip(1), s.skip(1))
    }
}

/// Strict order on two non-null scalars of one comparable type.
pub open spec fn dv_lt(a: DataValue, b: DataValue) -> bool {
    match (a, b) {
        (DataValue::Boolean(Some(x)), DataValue::Boolean(Some(y))) => !x && y,
        (DataValue::Int8(Some(x)), DataValue::Int8(Some(y))) => x < y,
        (DataValue::Int16(Some(x)), DataValue::Int16(Some(y))) => x < y,
        (DataValue::Int32(Some(x)), DataValue::Int32(Some(y))) => x < y,
        (DataValue::Int64(Some(x)), DataValue::Int64(Some(y))) => x < y,
        (DataValue::UInt8(Some(x)), DataValue::UInt8(Some(y))) => x < y,
        (DataValue::UInt16(Some(x)), DataValue::UInt16(Some(y))) => x < y,
        (DataValue::UInt32(Some(x)), DataValue::UInt32(Some(y))) => x < y,
        (DataValue::UInt64(Some(x)), DataValue::UInt64(Some(y))) => x < y,
        (DataValue::Utf8(Some(x)), DataValue::Utf8(Some(y))) => lex_lt_char(x@, y@),
        (DataValue::Binary(Some(x)), DataValue::Binary(Some(y))) => lex_lt_u8(x@, y@),
        (DataValue::Date32(Some(x)), DataValue::Date32(Some(y))) => x < y,
        (DataValue::Date64(Some(x)), DataValue::Date64(Some(y))) => x < y,
        _ => false,
    }
}

/// Whether `a LIKE b` holds of two non-null strings.
pub open spec fn dv_like(a: DataValue, b: DataValue) -> bool {
    match (a, b) {
        (DataValue::Utf8(Some(s)), DataValue::Utf8(Some(p))) => like_match(p@, s@),
        _ => false,
    }
}

/// The truth value of one operator applied to two non-null scalars of
/// the same supported type.
pub open spec fn cmp_truth(op: CompareOp, a: DataValue, b: DataValue) -> bool {
    match op {
        CompareOp::Eq => dv_eq(a, b),
        CompareOp::NotEq => !dv_eq(a, b),
        CompareOp::Lt => dv_lt(a, b),
        CompareOp::LtEq => !dv_lt(b, a),
        CompareOp::Gt => dv_lt(b, a),
        CompareOp::GtEq => !dv_lt(a, b),
        CompareOp::EqMissing => dv_eq(a, b),
        CompareOp::Like => dv_like(a, b),
        CompareOp::NotLike => !dv_like(a, b),
    }
}

/// The three-valued result of one operator on two scalars: null
/// propagates for every operator but `EqMissing`, which regards two
/// missing values as equal and a missing and a present one as unequal.
pub open spec fn cmp_scalar(op: CompareOp, a: DataValue, b: DataValue) -> DataValue {
    if op is EqMissing {
        if a.spec_is_null() && b.spec_is_null() {
            DataValue::Boolean(Some(true))
        } else if a.spec_is_null() || b.spec_is_null() {
            DataValue::Boolean(Some(false))
        } else {
            DataValue::Boolean(Some(cmp_truth(op, a, b)))
        }
    } else {
        if a.spec_is_null() || b.spec_is_null() {
            DataValue::Boolean(None)
        } else {
            DataValue::Boolean(Some(cmp_truth(op, a, b)))
        }
    }
}

/// Which operators a type supports: `LIKE` only strings; equality also
/// nested lists; order only the plainly comparable types.
pub open spec fn spec_op_supported(op: CompareOp, t: DataType) -> bool {
    match op {
        CompareOp::Like | CompareOp::NotLike => t == DataType::Utf8,
        CompareOp::Eq | CompareOp::NotEq | CompareOp::EqMissing => t.spec_is_comparable() || (t
            is List),
        _ => t.spec_is_comparable(),
    }
}

pub fn op_supported(op: CompareOp, t: &DataType) -> (r: bool)
    ensures
        r == spec_op_supported(op, *t),
{
    match op {
        CompareOp::Like | CompareOp::NotLike => matches!(t, DataType::Utf8),
        CompareOp::Eq | CompareOp::NotEq | CompareOp::EqMissing => t.is_comparable() || matches!(
            t,
            DataType::List(_),
        ),
        _ => t.is_comparable(),
    }
}

/// Exec lexicographic order on byte strings.
#[verifier::loop_isolation(false)]
pub fn bytes_lex_lt(a: &Vec<u8>, b: &Vec<u8>) -> (r: bool)
    ensures
        r == lex_lt_u8(a@, b@),
{
    let al = a.len();
    let bl = b.len();
    let n = if al < bl {
        al
    } else {
        bl
    };
    proof {
        assert(a@.skip(0) =~= a@);
        assert(b@.skip(0) =~= b@);
    }
    for i in 0..n
        invariant
            n <= al && n <= bl,
            forall|j: int| 0 <= j < i ==> a@[j] == b@[j],
            lex_lt_u8(a@, b@) == lex_lt_u8(a@.skip(i as int), b@.skip(i as int)),
    {
        proof {
            lemma_lex_u8_unfold(a@, b@, i as int);
        }
        if a[i] < b[i] {
            return true;
        }
        if a[i] > b[i] {
            return false;
        }
    }
    proof {
        lemma_lex_u8_ends(a@, b@, n as int);
    }
    al < bl
}

proof fn lemma_lex_u8_unfold(a: Seq<u8>, b: Seq<u8>, i: int)
    requires
        0 <= i,
        i + 1 <= a.len(),
        i + 1 <= b.len(),
        lex_lt_u8(a, b) == lex_lt_u8(a.skip(i), b.skip(i)),
    ensures
        a[i] < b[i] ==> lex_lt_u8(a, b),
        a[i] > b[i] ==> !lex_lt_u8(a, b),
        a[i] == b[i] ==> lex_lt_u8(a, b) == lex_lt_u8(a.skip(i + 1), b.skip(i + 1)),
{
    let sa = a.skip(i);
    let sb = b.skip(i);
    assert(sa.len() > 0 && sb.len() > 0);
    assert(sa[0] == a[i] && sb[0] == b[i]);
    assert(sa.skip(1) =~= a.skip(i + 1));
    assert(sb.skip(1) =~= b.skip(i + 1));
}

proof fn lemma_lex_u8_ends(a: Seq<u8>, b: Seq<u8>, n: int)
    requires
        0 <= n,
        n == if a.len() < b.len() {
            a.len() as int
        } else {
            b.len() as int
        },
        lex_lt_u8(a, b) == lex_lt_u8(a.skip(n), b.skip(n)),
    ensures
        lex_lt_u8(a, b) == (a.len() < b.len()),
{
    let sa = a.skip(n);
    let sb = b.skip(n);
    if a.len() < b.len() {
        assert(sa.len() == 0 && sb.len() > 0);
    } else {
        assert(sb.len() == 0);
    }
}

/// Exec lexicographic order on character strings.
#[verifier::loop_isolation(false)]
pub fn str_lex_lt(a: &str, b: &str) -> (r: bool)
    ensures
        r == lex_lt_char(a@, b@),
{
    let al = a.unicode_len();
    let bl = b.unicode_len();
    let n = if al < bl {
        al
    } else {
        bl
    };
    proof {
        assert(a@.skip(0) =~= a@);
        assert(b@.skip(0) =~= b@);
    }
    for i in 0..n
        invariant
            n <= al && n <= bl,
            al == a@.len() && bl == b@.len(),
            forall|j: int| 0 <= j < i ==> a@[j] == b@[j],
            lex_lt_char(a@, b@) == lex_lt_char(a@.skip(i as int), b@.skip(i as int)),
    {
        proof {
            lemma_lex_char_unfold(a@, b@, i as int);
        }
        let ca = a.get_char(i);
        let cb = b.get_char(i);
        if (ca as u32) < (cb as u32) {
            return true;
        }
        if (ca as u32) > (cb as u32) {
            proof {
                assert(a@[i as int] != b@[i as int]);
            }
            return false;
        }
        proof {
            assert(ca as u32 == cb as u32);
            assert(a@[i as int] == b@[i as int]) by {
                if a@[i as int] != b@[i as int] {
                    assert((ca as u32) != (cb as u32));
                }
            }
        }
    }
    proof {
        lemma_lex_char_ends(a@, b@, n as int);
    }
    al < bl
}

proof fn lemma_lex_char_unfold(a: Seq<char>, b: Seq<char>, i: int)
    requires
        0 <= i,
        i + 1 <= a.len(),
        i + 1 <= b.len(),
        lex_lt_char(a, b) == lex_lt_char(a.skip(i), b.skip(i)),
    ensures
        (a[i] as u32) < (b[i] as u32) ==> lex_lt_char(a, b),
        (a[i] as u32) > (b[i] as u32) ==> !lex_lt_char(a, b),
        a[i] == b[i] ==> lex_lt_char(a, b) == lex_lt_char(a.skip(i + 1), b.skip(i + 1)),
{
    let sa = a.skip(i);
    let sb = b.skip(i);
    assert(sa.len() > 0 && sb.len() > 0);
    assert(sa[0] == a[i] && sb[0] == b[i]);
    assert(sa.skip(1) =~= a.skip(i + 1));
    assert(sb.skip(1) =~= b.skip(i + 1));
    if (a[i] as u32) < (b[i] as u32) || (a[i] as u32) > (b[i] as u32) {
        assert(a[i] != b[i]);
    }
}

proof fn lemma_lex_char_ends(a: Seq<char>, b: Seq<char>, n: int)
    requires
        0 <= n,
        n == if a.len() < b.len() {
            a.len() as int
        } else {
            b.len() as int
        },
        lex_lt_char(a, b) == lex_lt_char(a.skip(n), b.skip(n)),
    ensures
        lex_lt_char(a, b) == (a.len() < b.len()),
{
    let sa = a.skip(n);
    let sb = b.skip(n);
    if a.len() < b.len() {
        assert(sa.len() == 0 && sb.len() > 0);
    } else {
        assert(sb.len() == 0);
    }
}

/// Exec `LIKE` matcher over the tails of `s` and `p` from the given
/// character positions.
fn like_match_at(p: &str, s: &str, plen: usize, slen: usize, pi: usize, si: usize) -> (r: bool)
    requires
        plen == p@.len(),
        slen == s@.len(),
        pi <= plen,
        si <= slen,
    ensures
        r == like_match(p@.skip(pi as int), s@.skip(si as int)),
    decreases (plen - pi) + (slen - si),
{
    let ghost pt = p@.skip(pi as int);
    let ghost st = s@.skip(si as int);
    if pi == plen {
        proof {
            assert(pt.len() == 0);
        }
        return si == slen;
    }
    let pc = p.get_char(pi);
    proof {
        assert(pt.len() > 0);
        assert(pt[0] == p@[pi as int]);
        assert(pt.skip(1) =~= p@.skip(pi as int + 1));
        if si < slen {
            assert(st.len() > 0);
            assert(st[0] == s@[si as int]);
            assert(st.skip(1) =~= s@.skip(si as int + 1));
        } else {
            assert(st.len() == 0);
        }
    }
    if pc == '%' {
        if like_match_at(p, s, plen, slen, pi + 1, si) {
            return true;
        }
        if si < slen {
            like_match_at(p, s, plen, slen, pi, si + 1)
        } else {
            false
        }
    } else if pc == '_' {
        if si < slen {
            like_match_at(p, s, plen, slen, pi + 1, si + 1)
        } else {
            false
        }
    } else {
        if si < slen {
            let sc = s.get_char(si);
            if sc == pc {
                like_match_at(p, s, plen, slen, pi + 1, si + 1)
            } else {
                false
            }
        } else {
            false
        }
    }
}

/// Exec `LIKE`: does pattern `p` match the whole of `s`?
pub fn like_str(s: &str, p: &str) -> (r: bool)
    ensures
        r == like_match(p@, s@),
{
    let plen = p.unicode_len();
    let slen = s.unicode_len();
    let r = like_match_at(p, s, plen, slen, 0, 0);
    proof {
        assert(p@.skip(0) =~= p@);
        assert(s@.skip(0) =~= s@);
    }
    r
}

/// Exec strict order on two non-null scalars of one comparable type.
pub fn val_lt(a: &DataValue, b: &DataValue) -> (r: bool)
    requires
        !a.spec_is_null(),
        !b.spec_is_null(),
        a.spec_data_type() == b.spec_data_type(),
        a.spec_data_type().spec_is_comparable(),
    ensures
        r == dv_lt(*a, *b),
{
    match (a, b) {
        (DataValue::Boolean(Some(x)), DataValue::Boolean(Some(y))) => !*x && *y,
        (DataValue::Int8(Some(x)), DataValue::Int8(Some(y))) => *x < *y,
        (DataValue::Int16(Some(x)), DataValue::Int16(Some(y))) => *x < *y,
        (DataValue::Int32(Some(x)), DataValue::Int32(Some(y))) => *x < *y,
        (DataValue::Int64(Some(x)), DataValue::Int64(Some(y))) => *x < *y,
        (DataValue::UInt8(Some(x)), DataValue::UInt8(Some(y))) => *x < *y,
        (DataValue::UInt16(Some(x)), DataValue::UInt16(Some(y))) => *x < *y,
        (DataValue::UInt32(Some(x)), DataValue::UInt32(Some(y))) => *x < *y,
        (DataValue::UInt64(Some(x)), DataValue::UInt64(Some(y))) => *x < *y,
        (DataValue::Utf8(Some(x)), DataValue::Utf8(Some(y))) => str_lex_lt(x.as_str(), y.as_str()),
        (DataValue::Binary(Some(x)), DataValue::Binary(Some(y))) => bytes_lex_lt(x, y),
        (DataValue::Date32(Some(x)), DataValue::Date32(Some(y))) => *x < *y,
        (DataValue::Date64(Some(x)), DataValue::Date64(Some(y))) => *x < *y,
        _ => {
            proof {
                assert(false);
            }
            false
        },
    }
}

/// Exec three-valued comparison of two scalars, reflecting `cmp_scalar`.
pub fn compare_scalars(op: CompareOp, a: &DataValue, b: &DataValue) -> (r: DataValue)
    requires
        a.spec_data_type() == b.spec_data_type(),
        spec_op_supported(op, a.spec_data_type()),
    ensures
        r == cmp_scalar(op, *a, *b),
        r.spec_data_type() == DataType::Boolean,
{
    let an = a.is_null();
    let bn = b.is_null();
    if matches!(op, CompareOp::EqMissing) {
        if an && bn {
            DataValue::Boolean(Some(true))
        } else if an || bn {
            DataValue::Boolean(Some(false))
        } else {
            DataValue::Boolean(Some(val_equal(a, b)))
        }
    } else if an || bn {
        DataValue::Boolean(None)
    } else {
        let t = match op {
            CompareOp::Eq => val_equal(a, b),
            CompareOp::NotEq => !val_equal(a, b),
            CompareOp::Lt => val_lt(a, b),
            CompareOp::LtEq => !val_lt(b, a),
            CompareOp::Gt => val_lt(b, a),
            CompareOp::GtEq => !val_lt(a, b),
            CompareOp::EqMissing => val_equal(a, b),
            CompareOp::Like | CompareOp::NotLike => {
                let m = match (a, b) {
                    (DataValue::Utf8(Some(s)), DataValue::Utf8(Some(p))) => like_str(
                        s.as_str(),
                        p.as_str(),
                    ),
                    _ => {
                        proof {
                            assert(false);
                        }
                        false
                    },
                };
                if matches!(op, CompareOp::Like) {
                    m
                } else {
                    !m
                }
            },
        };
        DataValue::Boolean(Some(t))
    }
}

} // verus!
