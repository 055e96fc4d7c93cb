//! Boolean-mask filtering over arrays. A null in the predicate excludes
//! the row, exactly as `false` does: the mask is normalized before the
//! rows are gathered, so only rows whose predicate is a present `true`
//! survive.

use vstd::prelude::*;

use crate::columns::seq_dv_eq;
use crate::columns::DataArray;
use crate::error::ErrorCode;
use crate::error::ErrorKind;
use crate::values::dv_eq;
use crate::values::DataType;
use crate::values::DataValue;

verus! {

/// Whether a predicate scalar keeps its row: only a present `true` does.
pub open spec fn mask_keeps(v: DataValue) -> bool {
    v == DataValue::Boolean(Some(true))
}

/// The rows of `s` whose mask scalar is a present `true`, in order.
pub open spec fn filter_seq(s: Seq<DataValue>, mask: Seq<DataValue>) -> Seq<DataValue>
    decreases s.len(),
{
    if s.len() == 0 || mask.len() == 0 {
        Seq::empty()
    } else {
        filter_seq(s.drop_last(), mask.drop_last()) + if mask_keeps(mask.last()) {
            seq![s.last()]
        } else {
            Seq::empty()
        }
    }
}

/// How many rows a mask keeps.
pub open spec fn count_true(mask: Seq<DataValue>) -> nat
    decreases mask.len(),
{
    if mask.len() == 0 {
        0
    } else {
        count_true(mask.drop_last()) + if mask_keeps(mask.last()) {
            1nat
        } else {
            0nat
        }
    }
}

/// The boolean-mask filter kernel.
pub struct DataArrayFilter;

impl DataArrayFilter {
    /// Counts the rows that the predicate keeps.
    #[verifier::loop_isolation(false)]
    pub fn filter_count(filter: &DataArray) -> (n: usize)
        ensures
            n == count_true(filter@),
    {
        let k = filter.len();
        let mut n: usize = 0;
        proof {
            assert(filter@.subrange(0, 0) =~= Seq::<DataValue>::empty());
        }
        for i in 0..k
            invariant
                n == count_true(filter@.subrange(0, i as int)),
                n <= i,
        {
            proof {
                assert(filter@.subrange(0, i + 1).drop_last() =~= filter@.subrange(0, i as int));
            }
            if matches!(filter.get(i), DataValue::Boolean(Some(true))) {
                n = n + 1;
            }
        }
        proof {
            assert(filter@.subrange(0, k as int) =~= filter@);
        }
        n
    }

    /// Filters one array by a boolean predicate of the same length;
    /// a null predicate row excludes the row.
    #[verifier::loop_isolation(false)]
    pub fn filter(column: &DataArray, predicate: &DataArray) -> (res: Result<
        DataArray,
        ErrorCode,
    >)
        requires
            column.wf(),
        ensures
            (match res {
                Ok(out) => predicate.spec_data_type() == DataType::Boolean && predicate@.len()
                    == column@.len() && out.wf() && out.spec_data_type() == column.spec_data_type()
                    && seq_dv_eq(out@, filter_seq(column@, predicate@)),
                Err(e) => (predicate.spec_data_type() != DataType::Boolean || predicate@.len()
                    != column@.len()) && (e.kind() == ErrorKind::BadDataValueType || e.kind()
                    == ErrorKind::NumberArgumentsNotMatch),
            }),
    {
        if !matches!(predicate.data_type(), DataType::Boolean) {
            return Err(
                ErrorCode::bad_data_value_type("the filter predicate must be boolean".to_owned()),
            );
        }
        if predicate.len() != column.len() {
            return Err(
                ErrorCode::number_arguments_not_match(
                    "the filter predicate and the column differ in length".to_owned(),
                ),
            );
        }
        let k = column.len();
        let mut values: Vec<DataValue> = Vec::new();
        proof {
            assert(filter_seq(column@.subrange(0, 0), predicate@.subrange(0, 0)) =~= Seq::<
                DataValue,
            >::empty());
        }
        for i in 0..k
            invariant
                seq_dv_eq(values@, filter_seq(column@.subrange(0, i as int), predicate@.subrange(0, i as int))),
                forall|j: int|
                    0 <= j < values@.len() ==> (#[trigger] values@[j]).spec_data_type()
                        == column.spec_data_type(),
        {
            proof {
                assert(column@.subrange(0, i + 1).drop_last() =~= column@.subrange(0, i as int));
                assert(predicate@.subrange(0, i + 1).drop_last() =~= predicate@.subrange(
                    0,
                    i as int,
                ));
                assert(column@.subrange(0, i + 1).last() == column@[i as int]);
                assert(predicate@.subrange(0, i + 1).last() == predicate@[i as int]);
            }
            if matches!(predicate.get(i), DataValue::Boolean(Some(true))) {
                let v = column.get(i).duplicate();
                proof {
                    crate::values::lemma_dv_eq_same_type(v, column@[i as int]);
                }
                values.push(v);
            }
        }
        proof {
            assert(column@.subrange(0, k as int) =~= column@);
            assert(predicate@.subrange(0, k as int) =~= predicate@);
        }
        Ok(DataArray::from_values(column.data_type().duplicate(), values))
    }

    /// Filters a batch of equally long arrays by one boolean predicate.
    #[verifier::loop_isolation(false)]
    pub fn filter_batch_array(array: Vec<DataArray>, predicate: &DataArray) -> (res: Result<
        Vec<DataArray>,
        ErrorCode,
    >)
        requires
            forall|i: int| 0 <= i < array@.len() ==> (#[trigger] array@[i]).wf(),
        ensures
            (match res {
                Ok(out) => out@.len() == array@.len() && (forall|i: int|
                    0 <= i < out@.len() ==> (#[trigger] out@[i]).wf() && out@[i].spec_data_type()
                        == array@[i].spec_data_type() && array@[i]@.len() == predicate@.len()
                        && seq_dv_eq(out@[i]@, filter_seq(array@[i]@, predicate@))),
                Err(_) => predicate.spec_data_type() != DataType::Boolean || (exists|i: int|
                    0 <= i < array@.len() && (#[trigger] array@[i])@.len() != predicate@.len()),
            }),
    {
        let mut out: Vec<DataArray> = Vec::new();
        let k = array.len();
        for i in 0..k
            invariant
                out@.len() == i,
                forall|j: int|
                    0 <= j < i ==> (#[trigger] out@[j]).wf() && out@[j].spec_data_type()
                        == array@[j].spec_data_type() && array@[j]@.len() == predicate@.len()
                        && seq_dv_eq(out@[j]@, filter_seq(array@[j]@, predicate@)),
        {
            match Self::filter(&array[i], predicate) {
                Ok(filtered) => {
                    out.push(filtered);
                },
                Err(e) => {
                    proof {
                        assert(predicate.spec_data_type() != DataType::Boolean || array@[i as int]@.len()
                            != predicate@.len());
                    }
                    return Err(e);
                },
            }
        }
        Ok(out)
    }
}

} // verus!
