//! Fields and schemas: an ordered list of named, typed, nullability-
//! flagged columns, looked up by name with the first match winning.

use vstd::prelude::*;

use crate::values::DataType;

verus! {

/// A named column declaration: type plus nullability.
#[derive(Debug)]
pub struct DataField {
    name: String,
    data_type: DataType,
    nullable: bool,
}

impl DataField {
    pub closed spec fn spec_name(&self) -> Seq<char> {
        self.name@
    }

    pub closed spec fn spec_data_type(&self) -> DataType {
        self.data_type
    }

    pub closed spec fn spec_nullable(&self) -> bool {
        self.nullable
    }

    pub fn new(name: &str, data_type: DataType, nullable: bool) -> (f: DataField)
        ensures
            f.spec_name() == name@,
            f.spec_data_type() == data_type,
            f.spec_nullable() == nullable,
    {
        DataField { name: name.to_owned(), data_type, nullable }
    }

    pub fn name(&self) -> (r: &String)
        ensures
            r@ == self.spec_name(),
    {
        &self.name
    }

    pub fn data_type(&self) -> (t: &DataType)
        ensures
            *t == self.spec_data_type(),
    {
        &self.data_type
    }

    #[verifier::when_used_as_spec(spec_nullable)]
    pub fn is_nullable(&self) -> (r: bool)
        ensures
            r == self.spec_nullable(),
    {
        self.nullable
    }

    pub fn duplicate(&self) -> (f: DataField)
        ensures
            f.spec_name() == self.spec_name(),
            f.spec_data_type() == self.spec_data_type(),
            f.spec_nullable() == self.spec_nullable(),
    {
        DataField {
            name: self.name.clone(),
            data_type: self.data_type.duplicate(),
            nullable: self.nullable,
        }
    }
}

/// The position of the first field with the given name, or a negative
/// number when no field has it.
pub open spec fn field_index(fields: Seq<DataField>, name: Seq<char>) -> int
    decreases fields.len(),
{
    if fields.len() == 0 {
        -1
    } else if fields[0].spec_name() == name {
        0
    } else {
        let r = field_index(fields.skip(1), name);
        if r < 0 {
            -1
        } else {
            r + 1
        }
    }
}

/// A found index lies inside the list and names the right field.
pub proof fn lemma_field_index_valid(fields: Seq<DataField>, name: Seq<char>)
    ensures
        field_index(fields, name) >= 0 ==> 0 <= field_index(fields, name) < fields.len() && fields[
            field_index(fields, name)
        ].spec_name() == name,
    decreases fields.len(),
{
    if fields.len() > 0 && fields[0].spec_name() != name {
        lemma_field_index_valid(fields.skip(1), name);
    }
}

/// The first match wins: if everything before `i` misses and `i` hits,
/// the index is `i`; if everything misses, the lookup fails.
pub proof fn lemma_field_index_first(fields: Seq<DataField>, name: Seq<char>, i: int)
    requires
        0 <= i <= fields.len(),
        forall|j: int| 0 <= j < i ==> (#[trigger] fields[j]).spec_name() != name,
    ensures
        i < fields.len() && fields[i].spec_name() == name ==> field_index(fields, name) == i,
    decreases fields.len(),
{
    if fields.len() > 0 {
        if fields[0].spec_name() == name {
        } else {
            assert(i > 0 ==> fields[0].spec_name() != name);
            lemma_field_index_first(fields.skip(1), name, if i > 0 {
                i - 1
            } else {
                0
            });
            assert(forall|j: int|
                0 <= j < i - 1 ==> (#[trigger] fields.skip(1)[j]).spec_name() == fields[j
                    + 1].spec_name());
        }
    }
}

/// An ordered mapping from field name to declared type and nullability.
#[derive(Debug)]
pub struct DataSchema {
    fields: Vec<DataField>,
}

impl DataSchema {
    pub closed spec fn spec_fields(&self) -> Seq<DataField> {
        self.fields@
    }

    pub fn new(fields: Vec<DataField>) -> (s: DataSchema)
        ensures
            s.spec_fields() == fields@,
    {
        DataSchema { fields }
    }

    pub fn num_fields(&self) -> (n: usize)
        ensures
            n == self.spec_fields().len(),
    {
        self.fields.len()
    }

    pub fn field(&self, i: usize) -> (f: &DataField)
        requires
            i < self.spec_fields().len(),
        ensures
            *f == self.spec_fields()[i as int],
    {
        &self.fields[i]
    }

    pub fn fields(&self) -> (r: &Vec<DataField>)
        ensures
            r@ == self.spec_fields(),
    {
        &self.fields
    }

    /// Finds the first field with the given name.
    #[verifier::loop_isolation(false)]
    pub fn field_with_name(&self, name: &String) -> (res: Option<&DataField>)
        ensures
            (match res {
                Some(f) => field_index(self.spec_fields(), name@) >= 0 && *f == self.spec_fields()[
                    field_index(self.spec_fields(), name@)
                ],
                None => field_index(self.spec_fields(), name@) < 0,
            }),
    {
        let n = self.fields.len();
        for i in 0..n
            invariant
                forall|j: int| 0 <= j < i ==> (#[trigger] self.spec_fields()[j]).spec_name() != name@,
        {
            if self.fields[i].name().eq(name) {
                proof {
                    lemma_field_index_first(self.spec_fields(), name@, i as int);
                }
                return Some(&self.fields[i]);
            }
        }
        proof {
            lemma_field_index_valid(self.spec_fields(), name@);
        }
        None
    }

    /// The position of the first field with the given name.
    #[verifier::loop_isolation(false)]
    pub fn index_of(&self, name: &String) -> (res: Option<usize>)
        ensures
            (match res {
                Some(i) => i == field_index(self.spec_fields(), name@),
                None => field_index(self.spec_fields(), name@) < 0,
            }),
    {
        let n = self.fields.len();
        for i in 0..n
            invariant
                forall|j: int| 0 <= j < i ==> (#[trigger] self.spec_fields()[j]).spec_name() != name@,
        {
            if self.fields[i].name().eq(name) {
                proof {
                    lemma_field_index_first(self.spec_fields(), name@, i as int);
                }
                return Some(i);
            }
        }
        proof {
            lemma_field_index_valid(self.spec_fields(), name@);
        }
        None
    }

    pub fn duplicate(&self) -> (s: DataSchema)
        ensures
            s.spec_fields().len() == self.spec_fields().len(),
            forall|i: int|
                0 <= i < self.spec_fields().len() ==> (#[trigger] s.spec_fields()[i]).spec_name()
                    == self.spec_fields()[i].spec_name() && s.spec_fields()[i].spec_data_type()
                    == self.spec_fields()[i].spec_data_type() && s.spec_fields()[i].spec_nullable()
                    == self.spec_fields()[i].spec_nullable(),
    {
        let mut fields: Vec<DataField> = Vec::new();
        let n = self.fields.len();
        for i in 0..n
            invariant
                n == self.spec_fields().len(),
                fields@.len() == i,
                forall|j: int|
                    0 <= j < i ==> (#[trigger] fields@[j]).spec_name()
                        == self.spec_fields()[j].spec_name() && fields@[j].spec_data_type()
                        == self.spec_fields()[j].spec_data_type() && fields@[j].spec_nullable()
                        == self.spec_fields()[j].spec_nullable(),
        {
            fields.push(self.fields[i].duplicate());
        }
        DataSchema { fields }
    }
}

} // verus!
