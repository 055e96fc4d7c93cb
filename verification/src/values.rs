//! The scalar value model: a closed tagged union over the supported
//! primitive kinds. Each non-null variant wraps an `Option` of its native
//! representation; a value is "null" when that option is `None`.
//! Equality and ordering are defined per variant; cross-variant
//! comparison is an error raised by the kernels that use these values.

use vstd::prelude::*;

verus! {

/// The declared type of a column or scalar.
#[derive(Debug, PartialEq, Eq)]
pub enum DataType {
    /// The all-null type: every value of it is null.
    Null,
    Boolean,
    Int8,
    Int16,
    Int32,
    Int64,
    UInt8,
    UInt16,
    UInt32,
    UInt64,
    /// A UTF-8 string.
    Utf8,
    /// An arbitrary byte string.
    Binary,
    /// A date as a day number.
    Date32,
    /// A date-time as a millisecond number.
    Date64,
    /// A nested sequence of values of one element type.
    List(Box<DataType>),
}

/// A tagged scalar. `None` inside a variant marks a null of that type.
#[derive(Debug)]
pub enum DataValue {
    Null,
    Boolean(Option<bool>),
    Int8(Option<i8>),
    Int16(Option<i16>),
    Int32(Option<i32>),
    Int64(Option<i64>),
    UInt8(Option<u8>),
    UInt16(Option<u16>),
    UInt32(Option<u32>),
    UInt64(Option<u64>),
    Utf8(Option<String>),
    Binary(Option<Vec<u8>>),
    Date32(Option<i32>),
    Date64(Option<i64>),
    List(Option<Vec<DataValue>>, DataType),
}

impl DataType {
    /// Exec deep equality, reflected into the structural spec equality.
    pub fn same_as(&self, other: &DataType) -> (r: bool)
        ensures
            r == (*self == *other),
        decreases *self,
    {
        match (self, other) {
            (DataType::Null, DataType::Null) => true,
            (DataType::Boolean, DataType::Boolean) => true,
            (DataType::Int8, DataType::Int8) => true,
            (DataType::Int16, DataType::Int16) => true,
            (DataType::Int32, DataType::Int32) => true,
            (DataType::Int64, DataType::Int64) => true,
            (DataType::UInt8, DataType::UInt8) => true,
            (DataType::UInt16, DataType::UInt16) => true,
            (DataType::UInt32, DataType::UInt32) => true,
            (DataType::UInt64, DataType::UInt64) => true,
            (DataType::Utf8, DataType::Utf8) => true,
            (DataType::Binary, DataType::Binary) => true,
            (DataType::Date32, DataType::Date32) => true,
            (DataType::Date64, DataType::Date64) => true,
            (DataType::List(a), DataType::List(b)) => a.same_as(b),
            _ => false,
        }
    }

    /// Exec deep clone, reflected into structural spec equality.
    pub fn duplicate(&self) -> (r: DataType)
        ensures
            r == *self,
        decreases *self,
    {
        match self {
            DataType::Null => DataType::Null,
            DataType::Boolean => DataType::Boolean,
            DataType::Int8 => DataType::Int8,
            DataType::Int16 => DataType::Int16,
            DataType::Int32 => DataType::Int32,
            DataType::Int64 => DataType::Int64,
            DataType::UInt8 => DataType::UInt8,
            DataType::UInt16 => DataType::UInt16,
            DataType::UInt32 => DataType::UInt32,
            DataType::UInt64 => DataType::UInt64,
            DataType::Utf8 => DataType::Utf8,
            DataType::Binary => DataType::Binary,
            DataType::Date32 => DataType::Date32,
            DataType::Date64 => DataType::Date64,
            DataType::List(inner) => DataType::List(Box::new(inner.duplicate())),
        }
    }

    /// Whether this is one of the integer types.
    pub open spec fn spec_is_integer(&self) -> bool {
        match *self {
            DataType::Int8
            | DataType::Int16
            | DataType::Int32
            | DataType::Int64
            | DataType::UInt8
            | DataType::UInt16
            | DataType::UInt32
            | DataType::UInt64 => true,
            _ => false,
        }
    }

    #[verifier::when_used_as_spec(spec_is_integer)]
    pub fn is_integer(&self) -> (r: bool)
        ensures
            r == self.spec_is_integer(),
    {
        match self {
            DataType::Int8
            | DataType::Int16
            | DataType::Int32
            | DataType::Int64
            | DataType::UInt8
            | DataType::UInt16
            | DataType::UInt32
            | DataType::UInt64 => true,
            _ => false,
        }
    }

    /// Whether values of this type admit an order (`<`, `<=`, …).
    pub open spec fn spec_is_comparable(&self) -> bool {
        match *self {
            DataType::Boolean
            | DataType::Int8
            | DataType::Int16
            | DataType::Int32
            | DataType::Int64
            | DataType::UInt8
            | DataType::UInt16
            | DataType::UInt32
            | DataType::UInt64
            | DataType::Utf8
            | DataType::Binary
            | DataType::Date32
            | DataType::Date64 => true,
            _ => false,
        }
    }

    #[verifier::when_used_as_spec(spec_is_comparable)]
    pub fn is_comparable(&self) -> (r: bool)
        ensures
            r == self.spec_is_comparable(),
    {
        match self {
            DataType::Boolean
            | DataType::Int8
            | DataType::Int16
            | DataType::Int32
            | DataType::Int64
            | DataType::UInt8
            | DataType::UInt16
            | DataType::UInt32
            | DataType::UInt64
            | DataType::Utf8
            | DataType::Binary
            | DataType::Date32
            | DataType::Date64 => true,
            _ => false,
        }
    }

    /// The display name of the type, as a character sequence.
    pub open spec fn type_name_chars(&self) -> Seq<char> {
        match *self {
            DataType::Null => "Null"@,
            DataType::Boolean => "Boolean"@,
            DataType::Int8 => "Int8"@,
            DataType::Int16 => "Int16"@,
            DataType::Int32 => "Int32"@,
            DataType::Int64 => "Int64"@,
            DataType::UInt8 => "UInt8"@,
            DataType::UInt16 => "UInt16"@,
            DataType::UInt32 => "UInt32"@,
            DataType::UInt64 => "UInt64"@,
            DataType::Utf8 => "Utf8"@,
            DataType::Binary => "Binary"@,
            DataType::Date32 => "Date32"@,
            DataType::Date64 => "Date64"@,
            DataType::List(_) => "List"@,
        }
    }

    /// The display name of the type, as shown to users.
    pub fn display_name(&self) -> (r: String)
        ensures
            r@ == self.type_name_chars(),
        decreases *self,
    {
        match self {
            DataType::Null => "Null".to_owned(),
            DataType::Boolean => "Boolean".to_owned(),
            DataType::Int8 => "Int8".to_owned(),
            DataType::Int16 => "Int16".to_owned(),
            DataType::Int32 => "Int32".to_owned(),
            DataType::Int64 => "Int64".to_owned(),
            DataType::UInt8 => "UInt8".to_owned(),
            DataType::UInt16 => "UInt16".to_owned(),
            DataType::UInt32 => "UInt32".to_owned(),
            DataType::UInt64 => "UInt64".to_owned(),
            DataType::Utf8 => "Utf8".to_owned(),
            DataType::Binary => "Binary".to_owned(),
            DataType::Date32 => "Date32".to_owned(),
            DataType::Date64 => "Date64".to_owned(),
            DataType::List(_) => "List".to_owned(),
        }
    }
}

impl DataValue {
    /// The declared type that this scalar belongs to.
    pub open spec fn spec_data_type(&self) -> DataType {
        match *self {
            DataValue::Null => DataType::Null,
            DataValue::Boolean(_) => DataType::Boolean,
            DataValue::Int8(_) => DataType::Int8,
            DataValue::Int16(_) => DataType::Int16,
            DataValue::Int32(_) => DataType::Int32,
            DataValue::Int64(_) => DataType::Int64,
            DataValue::UInt8(_) => DataType::UInt8,
            DataValue::UInt16(_) => DataType::UInt16,
            DataValue::UInt32(_) => DataType::UInt32,
            DataValue::UInt64(_) => DataType::UInt64,
            DataValue::Utf8(_) => DataType::Utf8,
            DataValue::Binary(_) => DataType::Binary,
            DataValue::Date32(_) => DataType::Date32,
            DataValue::Date64(_) => DataType::Date64,
            DataValue::List(_, ref t) => DataType::List(Box::new(*t)),
        }
    }

    #[verifier::when_used_as_spec(spec_data_type)]
    pub fn data_type(&self) -> (t: DataType)
        ensures
            t == self.spec_data_type(),
    {
        match self {
            DataValue::Null => DataType::Null,
            DataValue::Boolean(_) => DataType::Boolean,
            DataValue::Int8(_) => DataType::Int8,
            DataValue::Int16(_) => DataType::Int16,
            DataValue::Int32(_) => DataType::Int32,
            DataValue::Int64(_) => DataType::Int64,
            DataValue::UInt8(_) => DataType::UInt8,
            DataValue::UInt16(_) => DataType::UInt16,
            DataValue::UInt32(_) => DataType::UInt32,
            DataValue::UInt64(_) => DataType::UInt64,
            DataValue::Utf8(_) => DataType::Utf8,
            DataValue::Binary(_) => DataType::Binary,
            DataValue::Date32(_) => DataType::Date32,
            DataValue::Date64(_) => DataType::Date64,
            DataValue::List(_, t) => DataType::List(Box::new(t.duplicate())),
        }
    }

    /// Whether the scalar is null.
    pub open spec fn spec_is_null(&self) -> bool {
        match *self {
            DataValue::Null => true,
            DataValue::Boolean(o) => o.is_none(),
            DataValue::Int8(o) => o.is_none(),
            DataValue::Int16(o) => o.is_none(),
            DataValue::Int32(o) => o.is_none(),
            DataValue::Int64(o) => o.is_none(),
            DataValue::UInt8(o) => o.is_none(),
            DataValue::UInt16(o) => o.is_none(),
            DataValue::UInt32(o) => o.is_none(),
            DataValue::UInt64(o) => o.is_none(),
            DataValue::Utf8(ref o) => o.is_none(),
            DataValue::Binary(ref o) => o.is_none(),
            DataValue::Date32(o) => o.is_none(),
            DataValue::Date64(o) => o.is_none(),
            DataValue::List(ref o, _) => o.is_none(),
        }
    }

    #[verifier::when_used_as_spec(spec_is_null)]
    pub fn is_null(&self) -> (r: bool)
        ensures
            r == self.spec_is_null(),
    {
        match self {
            DataValue::Null => true,
            DataValue::Boolean(o) => o.is_none(),
            DataValue::Int8(o) => o.is_none(),
            DataValue::Int16(o) => o.is_none(),
            DataValue::Int32(o) => o.is_none(),
            DataValue::Int64(o) => o.is_none(),
            DataValue::UInt8(o) => o.is_none(),
            DataValue::UInt16(o) => o.is_none(),
            DataValue::UInt32(o) => o.is_none(),
            DataValue::UInt64(o) => o.is_none(),
            DataValue::Utf8(o) => o.is_none(),
            DataValue::Binary(o) => o.is_none(),
            DataValue::Date32(o) => o.is_none(),
            DataValue::Date64(o) => o.is_none(),
            DataValue::List(o, _) => o.is_none(),
        }
    }

    /// The null scalar of a given type.
    pub fn null_of(t: &DataType) -> (v: DataValue)
        ensures
            v.is_null(),
            v.data_type() == *t,
    {
        match t {
            DataType::Null => DataValue::Null,
            DataType::Boolean => DataValue::Boolean(None),
            DataType::Int8 => DataValue::Int8(None),
            DataType::Int16 => DataValue::Int16(None),
            DataType::Int32 => DataValue::Int32(None),
            DataType::Int64 => DataValue::Int64(None),
            DataType::UInt8 => DataValue::UInt8(None),
            DataType::UInt16 => DataValue::UInt16(None),
            DataType::UInt32 => DataValue::UInt32(None),
            DataType::UInt64 => DataValue::UInt64(None),
            DataType::Utf8 => DataValue::Utf8(None),
            DataType::Binary => DataValue::Binary(None),
            DataType::Date32 => DataValue::Date32(None),
            DataType::Date64 => DataValue::Date64(None),
            DataType::List(inner) => DataValue::List(None, inner.duplicate()),
        }
    }
}

/// Deep mathematical equality of two scalars: same variant, same
/// nullness, and equal payloads, with strings and byte strings compared
/// by their abstract sequences and lists compared elementwise.
pub open spec fn dv_eq(a: DataValue, b: DataValue) -> bool
    decreases a,
{
    match (a, b) {
        (DataValue::Null, DataValue::Null) => true,
        (DataValue::Boolean(x), DataValue::Boolean(y)) => x == y,
        (DataValue::Int8(x), DataValue::Int8(y)) => x == y,
        (DataValue::Int16(x), DataValue::Int16(y)) => x == y,
        (DataValue::Int32(x), DataValue::Int32(y)) => x == y,
        (DataValue::Int64(x), DataValue::Int64(y)) => x == y,
        (DataValue::UInt8(x), DataValue::UInt8(y)) => x == y,
        (DataValue::UInt16(x), DataValue::UInt16(y)) => x == y,
        (DataValue::UInt32(x), DataValue::UInt32(y)) => x == y,
        (DataValue::UInt64(x), DataValue::UInt64(y)) => x == y,
        (DataValue::Utf8(x), DataValue::Utf8(y)) => match (x, y) {
            (None, None) => true,
            (Some(s), Some(t)) => s@ == t@,
            _ => false,
        },
        (DataValue::Binary(x), DataValue::Binary(y)) => match (x, y) {
            (None, None) => true,
            (Some(s), Some(t)) => s@ == t@,
            _ => false,
        },
        (DataValue::Date32(x), DataValue::Date32(y)) => x == y,
        (DataValue::Date64(x), DataValue::Date64(y)) => x == y,
        (DataValue::List(x, tx), DataValue::List(y, ty)) => tx == ty && match (x, y) {
            (None, None) => true,
            (Some(s), Some(t)) => s@.len() == t@.len() && (forall|i: int|
                0 <= i < s@.len() ==> dv_eq(#[trigger] s@[i], t@[i])),
            _ => false,
        },
        _ => false,
    }
}

/// Deeply equal scalars belong to the same declared type.
pub proof fn lemma_dv_eq_same_type(a: DataValue, b: DataValue)
    requires
        dv_eq(a, b),
    ensures
        a.spec_data_type() == b.spec_data_type(),
{
}

/// Deep equality is reflexive.
pub proof fn lemma_dv_eq_refl(v: DataValue)
    ensures
        dv_eq(v, v),
    decreases v,
{
    match v {
        DataValue::List(o, t) => match o {
            Some(s) => {
                assert forall|i: int| 0 <= i < s@.len() implies dv_eq(#[trigger] s@[i], s@[i]) by {
                    lemma_dv_eq_refl(s@[i]);
                }
            },
            None => {},
        },
        _ => {},
    }
}

/// Deep equality is symmetric.
pub proof fn lemma_dv_eq_symm(a: DataValue, b: DataValue)
    ensures
        dv_eq(a, b) == dv_eq(b, a),
    decreases a,
{
    match (a, b) {
        (DataValue::List(x, tx), DataValue::List(y, ty)) => match (x, y) {
            (Some(s), Some(t)) => {
                if s@.len() == t@.len() {
                    assert forall|i: int| 0 <= i < s@.len() implies dv_eq(#[trigger] s@[i], t@[i])
                        == dv_eq(t@[i], s@[i]) by {
                        lemma_dv_eq_symm(s@[i], t@[i]);
                    }
                }
            },
            _ => {},
        },
        _ => {},
    }
}

/// Deep equality is transitive.
pub proof fn lemma_dv_eq_trans(a: DataValue, b: DataValue, c: DataValue)
    requires
        dv_eq(a, b),
        dv_eq(b, c),
    ensures
        dv_eq(a, c),
    decreases a,
{
    match (a, b, c) {
        (DataValue::List(x, _), DataValue::List(y, _), DataValue::List(z, _)) => match (x, y, z) {
            (Some(s), Some(t), Some(u)) => {
                assert forall|i: int| 0 <= i < s@.len() implies dv_eq(#[trigger] s@[i], u@[i]) by {
                    lemma_dv_eq_trans(s@[i], t@[i], u@[i]);
                }
            },
            _ => {},
        },
        _ => {},
    }
}

impl DataValue {
    /// Exec deep copy, reflected as deep equality with the source.
    #[verifier::loop_isolation(false)]
    pub fn duplicate(&self) -> (r: DataValue)
        ensures
            dv_eq(r, *self),
        decreases *self,
    {
        match self {
            DataValue::Null => DataValue::Null,
            DataValue::Boolean(o) => DataValue::Boolean(*o),
            DataValue::Int8(o) => DataValue::Int8(*o),
            DataValue::Int16(o) => DataValue::Int16(*o),
            DataValue::Int32(o) => DataValue::Int32(*o),
            DataValue::Int64(o) => DataValue::Int64(*o),
            DataValue::UInt8(o) => DataValue::UInt8(*o),
            DataValue::UInt16(o) => DataValue::UInt16(*o),
            DataValue::UInt32(o) => DataValue::UInt32(*o),
            DataValue::UInt64(o) => DataValue::UInt64(*o),
            DataValue::Utf8(o) => match o {
                None => DataValue::Utf8(None),
                Some(s) => DataValue::Utf8(Some(s.clone())),
            },
            DataValue::Binary(o) => match o {
                None => DataValue::Binary(None),
                Some(bytes) => {
                    let mut out: Vec<u8> = Vec::new();
                    let n = bytes.len();
                    for i in 0..n
                        invariant
                            n == bytes@.len(),
                            out@ == bytes@.subrange(0, i as int),
                    {
                        out.push(bytes[i]);
                        proof {
                            assert(out@ =~= bytes@.subrange(0, i + 1));
                        }
                    }
                    proof {
                        assert(out@ =~= bytes@);
                    }
                    DataValue::Binary(Some(out))
                },
            },
            DataValue::Date32(o) => DataValue::Date32(*o),
            DataValue::Date64(o) => DataValue::Date64(*o),
            DataValue::List(o, t) => match o {
                None => DataValue::List(None, t.duplicate()),
                Some(items) => {
                    let mut out: Vec<DataValue> = Vec::new();
                    let n = items.len();
                    for i in 0..n
                        invariant
                            n == items@.len(),
                            out@.len() == i,
                            forall|j: int| 0 <= j < i ==> dv_eq(#[trigger] out@[j], items@[j]),
                    {
                        proof {
                            assert(decreases_to!(*self => items@[i as int]));
                        }
                        let e = items[i].duplicate();
                        out.push(e);
                    }
                    DataValue::List(Some(out), t.duplicate())
                },
            },
        }
    }
}

/// Exec deep equality of two scalars, reflected into `dv_eq`.
#[verifier::loop_isolation(false)]
pub fn val_equal(a: &DataValue, b: &DataValue) -> (r: bool)
    ensures
        r == dv_eq(*a, *b),
    decreases *a,
{
    match (a, b) {
        (DataValue::Null, DataValue::Null) => true,
        (DataValue::Boolean(x), DataValue::Boolean(y)) => match (x, y) {
            (None, None) => true,
            (Some(p), Some(q)) => *p == *q,
            _ => false,
        },
        (DataValue::Int8(x), DataValue::Int8(y)) => match (x, y) {
            (None, None) => true,
            (Some(p), Some(q)) => *p == *q,
            _ => false,
        },
        (DataValue::Int16(x), DataValue::Int16(y)) => match (x, y) {
            (None, None) => true,
            (Some(p), Some(q)) => *p == *q,
            _ => false,
        },
        (DataValue::Int32(x), DataValue::Int32(y)) => match (x, y) {
            (None, None) => true,
            (Some(p), Some(q)) => *p == *q,
            _ => false,
        },
        (DataValue::Int64(x), DataValue::Int64(y)) => match (x, y) {
            (None, None) => true,
            (Some(p), Some(q)) => *p == *q,
            _ => false,
        },
        (DataValue::UInt8(x), DataValue::UInt8(y)) => match (x, y) {
            (None, None) => true,
            (Some(p), Some(q)) => *p == *q,
            _ => false,
        },
        (DataValue::UInt16(x), DataValue::UInt16(y)) => match (x, y) {
            (None, None) => true,
            (Some(p), Some(q)) => *p == *q,
            _ => false,
        },
        (DataValue::UInt32(x), DataValue::UInt32(y)) => match (x, y) {
            (None, None) => true,
            (Some(p), Some(q)) => *p == *q,
            _ => false,
        },
        (DataValue::UInt64(x), DataValue::UInt64(y)) => match (x, y) {
            (None, None) => true,
            (Some(p), Some(q)) => *p == *q,
            _ => false,
        },
        (DataValue::Utf8(x), DataValue::Utf8(y)) => match (x, y) {
            (None, None) => true,
            (Some(p), Some(q)) => p.eq(q),
            _ => false,
        },
        (DataValue::Binary(x), DataValue::Binary(y)) => match (x, y) {
            (None, None) => true,
            (Some(p), Some(q)) => bytes_equal(p, q),
            _ => false,
        },
        (DataValue::Date32(x), DataValue::Date32(y)) => match (x, y) {
            (None, None) => true,
            (Some(p), Some(q)) => *p == *q,
            _ => false,
        },
        (DataValue::Date64(x), DataValue::Date64(y)) => match (x, y) {
            (None, None) => true,
            (Some(p), Some(q)) => *p == *q,
            _ => false,
        },
        (DataValue::List(x, tx), DataValue::List(y, ty)) => {
            if !tx.same_as(ty) {
                false
            } else {
                match (x, y) {
                    (None, None) => true,
                    (Some(s), Some(t)) => {
                        if s.len() != t.len() {
                            false
                        } else {
                            let n = s.len();
                            let mut ok = true;
                            for i in 0..n
                                invariant
                                    n == s@.len(),
                                    n == t@.len(),
                                    ok == (forall|j: int|
                                        0 <= j < i ==> dv_eq(#[trigger] s@[j], t@[j])),
                            {
                                proof {
                                    assert(decreases_to!(*a => s@[i as int]));
                                }
                                let e = val_equal(&s[i], &t[i]);
                                ok = ok && e;
                            }
                            ok
                        }
                    },
                    _ => false,
                }
            }
        },
        _ => false,
    }
}

/// Exec equality of two byte strings, reflected to view equality.
pub fn bytes_equal(a: &Vec<u8>, b: &Vec<u8>) -> (r: bool)
    ensures
        r == (a@ == b@),
{
    if a.len() != b.len() {
        assert(a@ != b@);
        return false;
    }
    let n = a.len();
    for i in 0..n
        invariant
            n == a@.len(),
            n == b@.len(),
            forall|j: int| 0 <= j < i ==> a@[j] == b@[j],
    {
        if a[i] != b[i] {
            return false;
        }
    }
    proof {
        assert(a@ =~= b@);
    }
    true
}

} // verus!
