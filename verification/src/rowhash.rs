//! Row hashing for the grouping kernel: a per-process randomly seeded
//! 64-bit hash over byte strings, and the combiner that folds the
//! hashes of several columns into one hash per row. Nothing is promised
//! of the hash values themselves; grouping correctness never rests on
//! them.

use vstd::prelude::*;

use crate::columns::DataArray;
use crate::columns::DataColumn;
use crate::error::ErrorCode;
use crate::functions::bidx;
use crate::functions::check_col_fits;
use crate::functions::col_at;
use crate::functions::col_fits;
use crate::kernel::col_single;
use crate::values::DataType;
use crate::values::DataValue;

verus! {

#[verifier::external_type_specification]
#[verifier::external_body]
pub struct ExRandomState(ahash::RandomState);

/// A seeded hasher for row keys. Two processes, and even two values of
/// this type, may hash the same bytes differently.
pub struct RowHasher {
    state: ahash::RandomState,
}

impl RowHasher {
    /// Relies on `ahash::RandomState::new`: a hasher state with keys
    /// drawn from the process's random source.
    #[verifier::external_body]
    pub fn new() -> (h: RowHasher) {
        RowHasher { state: ahash::RandomState::new() }
    }

    /// Relies on `ahash::RandomState::hash_one`: maps a byte string to
    /// a 64-bit hash under this state's random keys; nothing is
    /// promised of the value.
    #[verifier::external_body]
    pub fn hash_bytes(&self, bytes: &Vec<u8>) -> (h: u64) {
        self.state.hash_one(bytes.as_slice())
    }
}

/// Folds a new 64-bit hash into an accumulated one.
pub open spec fn spec_combine_hashes(l: u64, r: u64) -> u64 {
    (629u64.wrapping_add(l)).wrapping_mul(37).wrapping_add(r)
}

#[verifier::when_used_as_spec(spec_combine_hashes)]
pub fn combine_hashes(l: u64, r: u64) -> (h: u64)
    ensures
        h == spec_combine_hashes(l, r),
{
    (629u64.wrapping_add(l)).wrapping_mul(37).wrapping_add(r)
}

/// When the per-row combined hash accepts its argument columns: every
/// column of a hashable type and single-valued or exactly as long as
/// the row count.
pub open spec fn row_hash_args_ok(cols: Seq<DataColumn>, rows: nat) -> bool {
    forall|k: int|
        0 <= k < cols.len() ==> crate::hashes::spec_sip_type_ok(
            (#[trigger] cols[k]).spec_data_type(),
        ) && col_fits(cols[k], rows)
}

/// One 64-bit hash per row, folding the seeded hash of each non-null
/// cell's canonical bytes across the columns with `combine_hashes`,
/// starting from zero. The values depend on the hasher's random seed,
/// so nothing is promised of them beyond presence — except that a row
/// whose every cell is missing keeps the starting value.
#[verifier::loop_isolation(false)]
pub fn row_hash_column(h: &RowHasher, cols: &Vec<DataColumn>, rows: usize) -> (res: Result<
    DataArray,
    ErrorCode,
>)
    requires
        forall|k: int| 0 <= k < cols@.len() ==> (#[trigger] cols@[k]).wf(),
    ensures
        (match res {
            Ok(out) => {
                &&& row_hash_args_ok(cols@, rows as nat)
                &&& out.wf()
                &&& out.spec_data_type() == DataType::UInt64
                &&& out@.len() == rows
                &&& (forall|r: int| 0 <= r < rows ==> !(#[trigger] out@[r]).spec_is_null())
                &&& (forall|r: int|
                    0 <= r < rows && (forall|k: int|
                        0 <= k < cols@.len() ==> bidx(#[trigger] cols@[k], r).spec_is_null())
                        ==> (#[trigger] out@[r]) == DataValue::UInt64(Some(0)))
            },
            Err(_) => !row_hash_args_ok(cols@, rows as nat),
        }),
{
    let ncols = cols.len();
    for k in 0..ncols
        invariant
            forall|k2: int|
                0 <= k2 < k ==> crate::hashes::spec_sip_type_ok(
                    (#[trigger] cols@[k2]).spec_data_type(),
                ) && col_fits(cols@[k2], rows as nat),
    {
        let t = cols[k].data_type();
        if !crate::hashes::sip_type_ok(&t) {
            return Err(
                ErrorCode::bad_data_value_type(
                    "this column type cannot serve as a hash key".to_owned(),
                ),
            );
        }
        if !check_col_fits(&cols[k], rows) {
            return Err(
                ErrorCode::number_arguments_not_match(
                    "a hash operand does not fit the row count".to_owned(),
                ),
            );
        }
    }
    let mut values: Vec<DataValue> = Vec::new();
    for r in 0..rows
        invariant
            values@.len() == r,
            forall|j: int|
                0 <= j < r ==> (#[trigger] values@[j]).spec_data_type() == DataType::UInt64
                    && !values@[j].spec_is_null(),
            forall|j: int|
                0 <= j < r && (forall|k: int|
                    0 <= k < cols@.len() ==> bidx(#[trigger] cols@[k], j).spec_is_null()) ==> (
                #[trigger] values@[j]) == DataValue::UInt64(Some(0)),
    {
        let mut acc: u64 = 0;
        let mut saw = false;
        for k in 0..ncols
            invariant
                !saw ==> acc == 0,
                saw ==> (exists|k2: int|
                    0 <= k2 < k && !bidx(#[trigger] cols@[k2], r as int).spec_is_null()),
        {
            let cell = col_at(&cols[k], r);
            if !cell.is_null() {
                proof {
                    crate::columns::lemma_column_element_type(
                        cols@[k as int],
                        if col_single(cols@[k as int]) {
                            0
                        } else {
                            r as int
                        },
                    );
                }
                let bytes = crate::hashes::sip_input_bytes(cell);
                let hv = h.hash_bytes(&bytes);
                acc = combine_hashes(hv, acc);
                saw = true;
            }
        }
        proof {
            if forall|k: int|
                0 <= k < cols@.len() ==> bidx(#[trigger] cols@[k], r as int).spec_is_null() {
                assert(!saw);
            }
        }
        values.push(DataValue::UInt64(Some(acc)));
    }
    Ok(DataArray::from_values(DataType::UInt64, values))
}

} // verus!
