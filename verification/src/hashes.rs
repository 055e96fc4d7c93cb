//! The sip-hash scalar function: maps each row of a column to the
//! 64-bit hash of the value's canonical byte form under the standard
//! library's default hasher. Equal inputs give equal hashes; the hash
//! itself is named, not spelled out.

use vstd::prelude::*;

use crate::columns::DataArray;
use crate::columns::DataColumn;
use crate::error::ErrorCode;
use crate::functions::bidx;
use crate::functions::check_col_fits;
use crate::functions::col_at;
use crate::functions::col_fits;
use crate::group::chars_bytes;
use crate::group::le_bytes;
use crate::group::push_le_bytes;
use crate::kernel::col_single;
use crate::values::DataType;
use crate::values::DataValue;

verus! {

/// What the standard library's default hasher returns for a byte
/// string: a function of the bytes alone.
pub uninterp spec fn sip_hash_of(bytes: Seq<u8>) -> u64;

/// Relies on `std::collections::hash_map::DefaultHasher`: every hasher
/// made by `new` is documented to equal every other, so the 64-bit
/// hash it computes over a byte string depends on the bytes alone.
#[verifier::external_body]
fn sip64(bytes: &Vec<u8>) -> (h: u64)
    ensures
        h == sip_hash_of(bytes@),
{
    let mut hasher = std::collections::hash_map::DefaultHasher::new();
    std::hash::Hasher::write(&mut hasher, bytes.as_slice());
    std::hash::Hasher::finish(&hasher)
}

/// Which types the sip-hash function accepts.
pub open spec fn spec_sip_type_ok(t: DataType) -> bool {
    t.spec_is_integer() || t == DataType::Date32 || t == DataType::Date64 || t == DataType::Utf8
        || t == DataType::Binary
}

pub fn sip_type_ok(t: &DataType) -> (r: bool)
    ensures
        r == spec_sip_type_ok(*t),
{
    t.is_integer() || matches!(t, DataType::Date32) || matches!(t, DataType::Date64) || matches!(
        t,
        DataType::Utf8,
    ) || matches!(t, DataType::Binary)
}

/// The canonical bytes fed to the hasher for one non-null scalar: the
/// value's little-endian payload; a string as its characters' code
/// points, four bytes each.
pub open spec fn sip_input(v: DataValue) -> Seq<u8> {
    match v {
        DataValue::Int8(Some(x)) => le_bytes(x as u64, 1),
        DataValue::Int16(Some(x)) => le_bytes(x as u64, 2),
        DataValue::Int32(Some(x)) => le_bytes(x as u64, 4),
        DataValue::Int64(Some(x)) => le_bytes(x as u64, 8),
        DataValue::UInt8(Some(x)) => le_bytes(x as u64, 1),
        DataValue::UInt16(Some(x)) => le_bytes(x as u64, 2),
        DataValue::UInt32(Some(x)) => le_bytes(x as u64, 4),
        DataValue::UInt64(Some(x)) => le_bytes(x, 8),
        DataValue::Date32(Some(x)) => le_bytes(x as u64, 4),
        DataValue::Date64(Some(x)) => le_bytes(x as u64, 8),
        DataValue::Utf8(Some(s)) => chars_bytes(s@),
        DataValue::Binary(Some(b)) => b@,
        _ => Seq::empty(),
    }
}

/// Builds the canonical hash input for one non-null scalar.
#[verifier::loop_isolation(false)]
pub fn sip_input_bytes(v: &DataValue) -> (out: Vec<u8>)
    requires
        spec_sip_type_ok(v.spec_data_type()),
        !v.spec_is_null(),
    ensures
        out@ == sip_input(*v),
{
    let mut out: Vec<u8> = Vec::new();
    match v {
        DataValue::Int8(Some(x)) => push_le_bytes(&mut out, *x as u64, 1),
        DataValue::Int16(Some(x)) => push_le_bytes(&mut out, *x as u64, 2),
        DataValue::Int32(Some(x)) => push_le_bytes(&mut out, *x as u64, 4),
        DataValue::Int64(Some(x)) => push_le_bytes(&mut out, *x as u64, 8),
        DataValue::UInt8(Some(x)) => push_le_bytes(&mut out, *x as u64, 1),
        DataValue::UInt16(Some(x)) => push_le_bytes(&mut out, *x as u64, 2),
        DataValue::UInt32(Some(x)) => push_le_bytes(&mut out, *x as u64, 4),
        DataValue::UInt64(Some(x)) => push_le_bytes(&mut out, *x, 8),
        DataValue::Date32(Some(x)) => push_le_bytes(&mut out, *x as u64, 4),
        DataValue::Date64(Some(x)) => push_le_bytes(&mut out, *x as u64, 8),
        DataValue::Utf8(Some(s)) => {
            let len = vstd::string::StrSliceExecFns::unicode_len(s.as_str());
            for i in 0..len
                invariant
                    len == s@.len(),
                    out@ =~= chars_bytes(s@.subrange(0, i as int)),
            {
                let c = vstd::string::StrSliceExecFns::get_char(s.as_str(), i);
                push_le_bytes(&mut out, c as u64, 4);
                proof {
                    assert(s@.subrange(0, i + 1).drop_last() =~= s@.subrange(0, i as int));
                    assert(s@.subrange(0, i + 1).last() == s@[i as int]);
                }
            }
            proof {
                assert(s@.subrange(0, len as int) =~= s@);
            }
        },
        DataValue::Binary(Some(b)) => {
            let n = b.len();
            for i in 0..n
                invariant
                    out@ =~= b@.subrange(0, i as int),
            {
                out.push(b[i]);
                proof {
                    assert(b@.subrange(0, i as int) + seq![b@[i as int]] =~= b@.subrange(0, i + 1));
                }
            }
            proof {
                assert(b@.subrange(0, n as int) =~= b@);
            }
        },
        _ => {
            proof {
                assert(false);
            }
        },
    }
    proof {
        assert(out@ =~= sip_input(*v));
    }
    out
}

/// One hash result cell: null in, null out; otherwise the named hash
/// of the value's canonical bytes.
pub open spec fn sip_cell(v: DataValue) -> DataValue {
    if v.spec_is_null() {
        DataValue::UInt64(None)
    } else {
        DataValue::UInt64(Some(sip_hash_of(sip_input(v))))
    }
}

/// When a sip-hash evaluation succeeds.
pub open spec fn siphash_eval_ok(c0: DataColumn, rows: nat) -> bool {
    spec_sip_type_ok(c0.spec_data_type()) && col_fits(c0, rows)
}

/// The row results of a sip-hash evaluation.
pub open spec fn siphash_eval_spec(c0: DataColumn, rows: nat) -> Seq<DataValue> {
    Seq::new(rows, |i: int| sip_cell(bidx(c0, i)))
}

/// Elementwise sip-hash over a column: equal rows hash equally, in any
/// process.
#[verifier::loop_isolation(false)]
pub fn siphash_eval(c0: &DataColumn, rows: usize) -> (res: Result<DataArray, ErrorCode>)
    requires
        c0.wf(),
    ensures
        (match res {
            Ok(out) => siphash_eval_ok(*c0, rows as nat) && out.wf() && out.spec_data_type()
                == DataType::UInt64 && out@ == siphash_eval_spec(*c0, rows as nat),
            Err(_) => !siphash_eval_ok(*c0, rows as nat),
        }),
{
    let t0 = c0.data_type();
    if !sip_type_ok(&t0) {
        return Err(
            ErrorCode::bad_arguments("the sip hash does not accept this column type".to_owned()),
        );
    }
    if !check_col_fits(c0, rows) {
        return Err(
            ErrorCode::number_arguments_not_match(
                "the sip hash operand does not fit the row count".to_owned(),
            ),
        );
    }
    let ghost goal = siphash_eval_spec(*c0, rows as nat);
    let mut values: Vec<DataValue> = Vec::new();
    for i in 0..rows
        invariant
            values@.len() == i,
            forall|j: int| 0 <= j < i ==> values@[j] == goal[j],
            forall|j: int|
                0 <= j < i ==> (#[trigger] values@[j]).spec_data_type() == DataType::UInt64,
    {
        let v = col_at(c0, i);
        if v.is_null() {
            values.push(DataValue::UInt64(None));
        } else {
            proof {
                crate::columns::lemma_column_element_type(*c0, if col_single(*c0) { 0 } else { i as int });
            }
            let bytes = sip_input_bytes(v);
            let h = sip64(&bytes);
            values.push(DataValue::UInt64(Some(h)));
        }
    }
    proof {
        assert(values@ =~= goal);
    }
    Ok(DataArray::from_values(DataType::UInt64, values))
}

} // verus!
