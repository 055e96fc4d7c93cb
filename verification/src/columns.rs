//! The column model: a vector of values is either an `Array` (a dense,
//! typed, positionally indexed sequence) or a `Constant` (one scalar
//! broadcast over a logical length). Both are viewed in specifications
//! as a sequence of scalars.

use vstd::prelude::*;

use crate::error::ErrorCode;
use crate::values::dv_eq;
use crate::values::DataType;
use crate::values::DataValue;

verus! {

/// Deep mathematical equality of two sequences of scalars, pointwise.
pub open spec fn seq_dv_eq(a: Seq<DataValue>, b: Seq<DataValue>) -> bool {
    a.len() == b.len() && (forall|i: int| 0 <= i < a.len() ==> dv_eq(#[trigger] a[i], b[i]))
}

/// How many of the scalars in a sequence are null.
pub open spec fn null_count_of(s: Seq<DataValue>) -> nat
    decreases s.len(),
{
    if s.len() == 0 {
        0
    } else {
        null_count_of(s.drop_last()) + if s.last().spec_is_null() {
            1nat
        } else {
            0nat
        }
    }
}

/// A dense, typed, positionally indexed sequence of scalars.
#[derive(Debug)]
pub struct DataArray {
    data_type: DataType,
    values: Vec<DataValue>,
}

/// A typed vector of values: dense, or one value broadcast over a length.
#[derive(Debug)]
pub enum DataColumn {
    Array(DataArray),
    Constant(DataValue, usize),
}

impl DataArray {
    /// Every element belongs to the array's declared type.
    pub open spec fn wf(&self) -> bool {
        forall|i: int|
            0 <= i < self.view().len() ==> (#[trigger] self.view()[i]).spec_data_type()
                == self.spec_data_type()
    }

    pub closed spec fn view(&self) -> Seq<DataValue> {
        self.values@
    }

    pub closed spec fn spec_data_type(&self) -> DataType {
        self.data_type
    }

    pub fn data_type(&self) -> (t: &DataType)
        ensures
            *t == self.spec_data_type(),
    {
        &self.data_type
    }

    pub fn len(&self) -> (n: usize)
        ensures
            n == self@.len(),
    {
        self.values.len()
    }

    pub fn get(&self, i: usize) -> (r: &DataValue)
        requires
            i < self@.len(),
        ensures
            *r == self@[i as int],
    {
        &self.values[i]
    }

    /// Builds an array after checking that every value belongs to the
    /// declared type; a value of another type is a `BadDataValueType`.
    pub fn try_create(data_type: DataType, values: Vec<DataValue>) -> (r: Result<
        DataArray,
        ErrorCode,
    >)
        ensures
            match r {
                Ok(a) => a.wf() && a@ == values@ && a.spec_data_type() == data_type,
                Err(e) => e.kind() == crate::error::ErrorKind::BadDataValueType && (exists|i: int|
                    0 <= i < values@.len() && (#[trigger] values@[i]).spec_data_type()
                        != data_type),
            },
    {
        let n = values.len();
        for i in 0..n
            invariant
                n == values@.len(),
                forall|j: int|
                    0 <= j < i ==> (#[trigger] values@[j]).spec_data_type() == data_type,
        {
            let vt = values[i].data_type();
            if !vt.same_as(&data_type) {
                return Err(
                    ErrorCode::bad_data_value_type(
                        "array element does not belong to the array type".to_owned(),
                    ),
                );
            }
        }
        Ok(DataArray { data_type, values })
    }

    /// Wraps values whose types the caller has already established.
    pub fn from_values(data_type: DataType, values: Vec<DataValue>) -> (a: DataArray)
        requires
            forall|i: int|
                0 <= i < values@.len() ==> (#[trigger] values@[i]).spec_data_type() == data_type,
        ensures
            a.wf() && a@ == values@ && a.spec_data_type() == data_type,
    {
        DataArray { data_type, values }
    }

    pub fn null_count(&self) -> (n: usize)
        ensures
            n == null_count_of(self@),
    {
        let k = self.values.len();
        let mut n: usize = 0;
        assert(self@.subrange(0, 0) =~= Seq::<DataValue>::empty());
        for i in 0..k
            invariant
                k == self@.len(),
                n == null_count_of(self@.subrange(0, i as int)),
                n <= i,
        {
            proof {
                assert(self@.subrange(0, i + 1).drop_last() =~= self@.subrange(0, i as int));
                assert(self@.subrange(0, i + 1).last() == self@[i as int]);
            }
            if self.values[i].is_null() {
                n = n + 1;
            }
        }
        proof {
            assert(self@.subrange(0, self@.len() as int) =~= self@);
        }
        n
    }
}

impl DataColumn {
    /// The sequence of scalars this column stands for: a constant is the
    /// broadcast of its single value over its logical length.
    pub open spec fn view(&self) -> Seq<DataValue> {
        match *self {
            DataColumn::Array(ref a) => a.view(),
            DataColumn::Constant(v, n) => Seq::new(n as nat, |i: int| v),
        }
    }

    /// An array column must be well typed; a constant is always well formed.
    pub open spec fn wf(&self) -> bool {
        match *self {
            DataColumn::Array(ref a) => a.wf(),
            DataColumn::Constant(_, _) => true,
        }
    }

    /// The declared type of the column's values.
    pub open spec fn spec_data_type(&self) -> DataType {
        match *self {
            DataColumn::Array(ref a) => a.spec_data_type(),
            DataColumn::Constant(ref v, _) => v.spec_data_type(),
        }
    }

    #[verifier::when_used_as_spec(spec_data_type)]
    pub fn data_type(&self) -> (t: DataType)
        ensures
            t == self.spec_data_type(),
    {
        match self {
            DataColumn::Array(a) => a.data_type().duplicate(),
            DataColumn::Constant(v, _) => v.data_type(),
        }
    }

    pub open spec fn spec_is_const(&self) -> bool {
        self is Constant
    }

    #[verifier::when_used_as_spec(spec_is_const)]
    pub fn is_const(&self) -> (r: bool)
        ensures
            r == self.spec_is_const(),
    {
        match self {
            DataColumn::Array(_) => false,
            DataColumn::Constant(_, _) => true,
        }
    }

    pub fn len(&self) -> (n: usize)
        ensures
            n == self@.len(),
    {
        match self {
            DataColumn::Array(a) => a.len(),
            DataColumn::Constant(_, n) => *n,
        }
    }

    pub fn get(&self, i: usize) -> (r: &DataValue)
        requires
            i < self@.len(),
        ensures
            *r == self@[i as int],
    {
        match self {
            DataColumn::Array(a) => a.get(i),
            DataColumn::Constant(v, _) => v,
        }
    }

    pub fn null_count(&self) -> (n: usize)
        ensures
            n == null_count_of(self@),
            n == 0 <==> (forall|i: int| 0 <= i < self@.len() ==> !(#[trigger] self@[i]).spec_is_null()),
    {
        proof {
            lemma_null_count_none(self@);
        }
        match self {
            DataColumn::Array(a) => a.null_count(),
            DataColumn::Constant(v, n) => {
                proof {
                    lemma_null_count_uniform(*v, *n as nat);
                }
                if v.is_null() {
                    *n
                } else {
                    0
                }
            },
        }
    }

    /// Materializes the column into a dense array of the same contents.
    pub fn to_array(&self) -> (r: DataArray)
        requires
            self.wf(),
        ensures
            r.wf(),
            seq_dv_eq(r@, self@),
            r.spec_data_type() == self.data_type(),
    {
        match self {
            DataColumn::Array(a) => {
                let mut values: Vec<DataValue> = Vec::new();
                let n = a.len();
                for i in 0..n
                    invariant
                        n == a@.len(),
                        a.wf(),
                        values@.len() == i,
                        forall|j: int| 0 <= j < i ==> dv_eq(#[trigger] values@[j], a@[j]),
                        forall|j: int|
                            0 <= j < i ==> (#[trigger] values@[j]).spec_data_type()
                                == a.spec_data_type(),
                {
                    let v = a.get(i).duplicate();
                    proof {
                        crate::values::lemma_dv_eq_same_type(v, a@[i as int]);
                    }
                    values.push(v);
                }
                DataArray::from_values(a.data_type().duplicate(), values)
            },
            DataColumn::Constant(v, n) => {
                let mut values: Vec<DataValue> = Vec::new();
                let count = *n;
                for i in 0..count
                    invariant
                        values@.len() == i,
                        forall|j: int| 0 <= j < i ==> dv_eq(#[trigger] values@[j], *v),
                        forall|j: int|
                            0 <= j < i ==> (#[trigger] values@[j]).spec_data_type()
                                == v.spec_data_type(),
                {
                    let c = v.duplicate();
                    proof {
                        crate::values::lemma_dv_eq_same_type(c, *v);
                    }
                    values.push(c);
                }
                DataArray::from_values(v.data_type(), values)
            },
        }
    }

    /// Re-broadcasts a length-1 column to `n` rows; any longer column is
    /// returned with its contents unchanged.
    pub fn resize_constant(&self, n: usize) -> (r: DataColumn)
        requires
            self.wf(),
        ensures
            r.wf(),
            (match *self {
                DataColumn::Constant(v, _) => r@.len() == n && (forall|i: int|
                    0 <= i < n ==> dv_eq(#[trigger] r@[i], v)),
                DataColumn::Array(_) => if self@.len() == 1 {
                    r@.len() == n && (forall|i: int|
                        0 <= i < n ==> dv_eq(#[trigger] r@[i], self@[0]))
                } else {
                    seq_dv_eq(r@, self@)
                },
            }),
    {
        match self {
            DataColumn::Constant(v, _) => DataColumn::Constant(v.duplicate(), n),
            DataColumn::Array(a) => {
                if a.len() == 1 {
                    DataColumn::Constant(a.get(0).duplicate(), n)
                } else {
                    let arr = self.to_array();
                    DataColumn::Array(arr)
                }
            },
        }
    }
}

proof fn lemma_null_count_uniform(v: DataValue, n: nat)
    ensures
        v.spec_is_null() ==> null_count_of(Seq::new(n, |i: int| v)) == n,
        !v.spec_is_null() ==> null_count_of(Seq::new(n, |i: int| v)) == 0,
    decreases n,
{
    let s = Seq::new(n, |i: int| v);
    if n == 0 {
        assert(s.len() == 0);
    } else {
        lemma_null_count_uniform(v, (n - 1) as nat);
        assert(s.drop_last() =~= Seq::new((n - 1) as nat, |i: int| v));
    }
}

/// An exec deep copy of a column, keeping its array-or-constant shape.
pub fn duplicate_column(c: &DataColumn) -> (r: DataColumn)
    requires
        c.wf(),
    ensures
        r.wf(),
        r@.len() == c@.len(),
        r.spec_data_type() == c.spec_data_type(),
        seq_dv_eq(r@, c@),
        r is Constant <==> c is Constant,
{
    match c {
        DataColumn::Array(a) => {
            let arr = c.to_array();
            DataColumn::Array(arr)
        },
        DataColumn::Constant(v, n) => {
            let d = v.duplicate();
            proof {
                crate::values::lemma_dv_eq_same_type(d, *v);
            }
            DataColumn::Constant(d, *n)
        },
    }
}

/// Every element of a well-formed column belongs to the column's type.
pub proof fn lemma_column_element_type(c: DataColumn, i: int)
    requires
        c.wf(),
        0 <= i < c@.len(),
    ensures
        c@[i].spec_data_type() == c.spec_data_type(),
{
}

/// Pointwise deep equality of scalar sequences is reflexive.
pub proof fn lemma_seq_dv_eq_refl(a: Seq<DataValue>)
    ensures
        seq_dv_eq(a, a),
{
    assert forall|i: int| 0 <= i < a.len() implies dv_eq(#[trigger] a[i], a[i]) by {
        crate::values::lemma_dv_eq_refl(a[i]);
    }
}

/// Pointwise deep equality of scalar sequences is symmetric.
pub proof fn lemma_seq_dv_eq_symm(a: Seq<DataValue>, b: Seq<DataValue>)
    ensures
        seq_dv_eq(a, b) == seq_dv_eq(b, a),
{
    assert forall|i: int| 0 <= i < a.len() && i < b.len() implies dv_eq(#[trigger] a[i], b[i])
        == dv_eq(b[i], a[i]) by {
        crate::values::lemma_dv_eq_symm(a[i], b[i]);
    }
}

/// Pointwise deep equality of scalar sequences is transitive.
pub proof fn lemma_seq_dv_eq_trans(a: Seq<DataValue>, b: Seq<DataValue>, c: Seq<DataValue>)
    requires
        seq_dv_eq(a, b),
        seq_dv_eq(b, c),
    ensures
        seq_dv_eq(a, c),
{
    assert forall|i: int| 0 <= i < a.len() implies dv_eq(#[trigger] a[i], c[i]) by {
        crate::values::lemma_dv_eq_trans(a[i], b[i], c[i]);
    }
}

/// A sequence's null count is zero exactly when no element is null.
pub proof fn lemma_null_count_none(s: Seq<DataValue>)
    ensures
        null_count_of(s) == 0 <==> (forall|i: int|
            0 <= i < s.len() ==> !(#[trigger] s[i]).spec_is_null()),
    decreases s.len(),
{
    if s.len() > 0 {
        lemma_null_count_none(s.drop_last());
        assert(forall|i: int| 0 <= i < s.len() - 1 ==> s.drop_last()[i] == s[i]);
        if null_count_of(s) == 0 {
            assert(forall|i: int|
                0 <= i < s.len() ==> !(#[trigger] s[i]).spec_is_null()) by {
                assert(!s.last().spec_is_null());
                assert(forall|i: int|
                    0 <= i < s.len() - 1 ==> !(#[trigger] s.drop_last()[i]).spec_is_null());
                assert(forall|i: int|
                    0 <= i < s.len() - 1 ==> s[i] == s.drop_last()[i]);
            }
        }
    }
}

} // verus!
