//! The function registry: an explicitly constructed, immutable-after-
//! build mapping from case-insensitive names and operator symbols to
//! the built-in constructors, in registration order.

use vstd::prelude::*;
use vstd::string::StrSliceExecFns;

use crate::error::ErrorCode;
use crate::error::ErrorKind;
use crate::functions::FunctionImpl;
use crate::scalars::AliasFunction;
use crate::scalars::ArithmeticDivFunction;
use crate::scalars::ArithmeticMinusFunction;
use crate::scalars::ArithmeticModuloFunction;
use crate::scalars::ArithmeticMulFunction;
use crate::scalars::ArithmeticPlusFunction;
use crate::scalars::ComparisonEqFunction;
use crate::scalars::ComparisonGtEqFunction;
use crate::scalars::ComparisonGtFunction;
use crate::scalars::ComparisonLikeFunction;
use crate::scalars::ComparisonLtEqFunction;
use crate::scalars::ComparisonLtFunction;
use crate::scalars::ComparisonNotEqFunction;
use crate::scalars::ComparisonNotLikeFunction;
use crate::scalars::ConditionFunction;
use crate::scalars::CrashMeFunction;
use crate::scalars::DatabaseFunction;
use crate::scalars::HashesFunction;
use crate::scalars::LogicAndFunction;
use crate::scalars::LogicNotFunction;
use crate::scalars::LogicOrFunction;
use crate::scalars::SipHashFunction;
use crate::scalars::SleepFunction;
use crate::scalars::StringFunction;
use crate::scalars::SubstringFunction;
use crate::scalars::ToTypeNameFunction;
use crate::scalars::UdfExampleFunction;
use crate::scalars::UdfFunction;
use crate::scalars::VersionFunction;
use crate::scalars::ArithmeticFunction;
use crate::scalars::ComparisonFunction;
use crate::scalars::LogicFunction;
use crate::schema::DataField;
use crate::values::DataType;

verus! {

/// The constructor a registry entry points at.
#[derive(Clone, Copy, PartialEq, Eq, Structural, Debug)]
pub enum FactoryCreator {
    CompEq,
    CompNotEq,
    CompGt,
    CompGtEq,
    CompLt,
    CompLtEq,
    CompLike,
    CompNotLike,
    ArithPlus,
    ArithMinus,
    ArithMul,
    ArithDiv,
    ArithModulo,
    LogicAnd,
    LogicOr,
    LogicNot,
    StrSubstring,
    UdfExample,
    UdfToTypeName,
    UdfDatabase,
    UdfVersion,
    UdfSleep,
    UdfCrashMe,
    UdfIf,
    HashSip,
}

/// A letter folded to lower case, by code point; everything else kept.
pub open spec fn lower_code(c: char) -> int {
    if 65 <= c as u32 && c as u32 <= 90 {
        c as u32 + 32
    } else {
        c as u32 as int
    }
}

/// Case-insensitive equality of two names, ASCII-folded.
pub open spec fn ci_eq(a: Seq<char>, b: Seq<char>) -> bool {
    a.len() == b.len() && (forall|i: int|
        0 <= i < a.len() ==> lower_code(#[trigger] a[i]) == lower_code(b[i]))
}

/// Exec case-insensitive comparison.
#[verifier::loop_isolation(false)]
pub fn ci_equal(a: &str, b: &str) -> (r: bool)
    ensures
        r == ci_eq(a@, b@),
{
    let al = a.unicode_len();
    let bl = b.unicode_len();
    if al != bl {
        return false;
    }
    for i in 0..al
        invariant
            forall|j: int| 0 <= j < i ==> lower_code(#[trigger] a@[j]) == lower_code(b@[j]),
    {
        let ca = a.get_char(i);
        let cb = b.get_char(i);
        let la: u32 = if 65 <= ca as u32 && ca as u32 <= 90 {
            ca as u32 + 32
        } else {
            ca as u32
        };
        let lb: u32 = if 65 <= cb as u32 && cb as u32 <= 90 {
            cb as u32 + 32
        } else {
            cb as u32
        };
        if la != lb {
            return false;
        }
    }
    true
}

/// The argument schema as the constructors read it: each argument's
/// type and nullability.
pub open spec fn fields_pairs(args: Seq<DataField>) -> Seq<(DataType, bool)> {
    Seq::new(args.len(), |i: int| (args[i].spec_data_type(), args[i].spec_nullable()))
}

/// When one constructor accepts an argument schema.
pub open spec fn creator_args_ok(c: FactoryCreator, fs: Seq<(DataType, bool)>) -> bool {
    match c {
        FactoryCreator::ArithPlus
        | FactoryCreator::ArithMinus
        | FactoryCreator::ArithMul
        | FactoryCreator::ArithDiv
        | FactoryCreator::ArithModulo => (fs.len() == 1 || fs.len() == 2)
            && fs[0].0.spec_is_integer() && (fs.len() == 2 ==> fs[1].0 == fs[0].0),
        FactoryCreator::UdfSleep => fs.len() == 1 && fs[0].0.spec_is_integer(),
        FactoryCreator::HashSip => fs.len() >= 1 && crate::hashes::spec_sip_type_ok(fs[0].0),
        FactoryCreator::UdfIf => fs.len() == 3 && fs[0].0 == DataType::Boolean && fs[1].0
            == fs[2].0,
        _ => true,
    }
}

/// The result type a constructor binds, when it accepts the schema.
pub open spec fn creator_type(c: FactoryCreator, fs: Seq<(DataType, bool)>) -> DataType {
    match c {
        FactoryCreator::CompEq
        | FactoryCreator::CompNotEq
        | FactoryCreator::CompGt
        | FactoryCreator::CompGtEq
        | FactoryCreator::CompLt
        | FactoryCreator::CompLtEq
        | FactoryCreator::CompLike
        | FactoryCreator::CompNotLike => DataType::Boolean,
        FactoryCreator::ArithPlus
        | FactoryCreator::ArithMinus
        | FactoryCreator::ArithMul
        | FactoryCreator::ArithDiv
        | FactoryCreator::ArithModulo => fs[0].0,
        FactoryCreator::LogicAnd | FactoryCreator::LogicOr | FactoryCreator::LogicNot
            => DataType::Boolean,
        FactoryCreator::StrSubstring => DataType::Utf8,
        FactoryCreator::UdfExample => DataType::Boolean,
        FactoryCreator::UdfToTypeName => DataType::Utf8,
        FactoryCreator::UdfDatabase => DataType::Utf8,
        FactoryCreator::UdfVersion => DataType::Utf8,
        FactoryCreator::UdfSleep => DataType::UInt8,
        FactoryCreator::UdfCrashMe => DataType::Null,
        FactoryCreator::UdfIf => fs[1].0,
        FactoryCreator::HashSip => DataType::UInt64,
    }
}

/// The nullability a constructor binds, when it accepts the schema.
pub open spec fn creator_nullable(c: FactoryCreator, fs: Seq<(DataType, bool)>) -> bool {
    match c {
        FactoryCreator::UdfIf => fs[1].1 || fs[2].1,
        _ => false,
    }
}

/// One registry entry: a name and its constructor.
pub struct FactoryEntry {
    pub name: String,
    pub creator: FactoryCreator,
}

/// The exact contents of the freshly built registry: every built-in
/// name with its constructor, in registration order. Both spellings of
/// each aliased operator stand beside one another under one
/// constructor.
pub open spec fn bootstrap_entries(entries: Seq<FactoryEntry>) -> bool {
    &&& entries.len() == 31
    &&& entries[0].name@ == "+"@ && entries[0].creator == FactoryCreator::ArithPlus
    &&& entries[1].name@ == "plus"@ && entries[1].creator == FactoryCreator::ArithPlus
    &&& entries[2].name@ == "-"@ && entries[2].creator == FactoryCreator::ArithMinus
    &&& entries[3].name@ == "minus"@ && entries[3].creator == FactoryCreator::ArithMinus
    &&& entries[4].name@ == "*"@ && entries[4].creator == FactoryCreator::ArithMul
    &&& entries[5].name@ == "multiply"@ && entries[5].creator == FactoryCreator::ArithMul
    &&& entries[6].name@ == "/"@ && entries[6].creator == FactoryCreator::ArithDiv
    &&& entries[7].name@ == "divide"@ && entries[7].creator == FactoryCreator::ArithDiv
    &&& entries[8].name@ == "%"@ && entries[8].creator == FactoryCreator::ArithModulo
    &&& entries[9].name@ == "modulo"@ && entries[9].creator == FactoryCreator::ArithModulo
    &&& entries[10].name@ == "="@ && entries[10].creator == FactoryCreator::CompEq
    &&& entries[11].name@ == "<"@ && entries[11].creator == FactoryCreator::CompLt
    &&& entries[12].name@ == ">"@ && entries[12].creator == FactoryCreator::CompGt
    &&& entries[13].name@ == "<="@ && entries[13].creator == FactoryCreator::CompLtEq
    &&& entries[14].name@ == ">="@ && entries[14].creator == FactoryCreator::CompGtEq
    &&& entries[15].name@ == "!="@ && entries[15].creator == FactoryCreator::CompNotEq
    &&& entries[16].name@ == "<>"@ && entries[16].creator == FactoryCreator::CompNotEq
    &&& entries[17].name@ == "like"@ && entries[17].creator == FactoryCreator::CompLike
    &&& entries[18].name@ == "not like"@ && entries[18].creator == FactoryCreator::CompNotLike
    &&& entries[19].name@ == "and"@ && entries[19].creator == FactoryCreator::LogicAnd
    &&& entries[20].name@ == "or"@ && entries[20].creator == FactoryCreator::LogicOr
    &&& entries[21].name@ == "not"@ && entries[21].creator == FactoryCreator::LogicNot
    &&& entries[22].name@ == "substring"@ && entries[22].creator == FactoryCreator::StrSubstring
    &&& entries[23].name@ == "example"@ && entries[23].creator == FactoryCreator::UdfExample
    &&& entries[24].name@ == "totypename"@ && entries[24].creator
        == FactoryCreator::UdfToTypeName
    &&& entries[25].name@ == "database"@ && entries[25].creator == FactoryCreator::UdfDatabase
    &&& entries[26].name@ == "version"@ && entries[26].creator == FactoryCreator::UdfVersion
    &&& entries[27].name@ == "sleep"@ && entries[27].creator == FactoryCreator::UdfSleep
    &&& entries[28].name@ == "crashme"@ && entries[28].creator == FactoryCreator::UdfCrashMe
    &&& entries[29].name@ == "if"@ && entries[29].creator == FactoryCreator::UdfIf
    &&& entries[30].name@ == "siphash"@ && entries[30].creator == FactoryCreator::HashSip
}

/// The name-to-constructor registry, in registration order. Built once,
/// read-only afterwards.
pub struct FunctionFactory {
    entries: Vec<FactoryEntry>,
}

/// The position of the first entry whose name matches, folded to lower
/// case; negative when none does.
pub open spec fn entry_index(entries: Seq<FactoryEntry>, name: Seq<char>) -> int
    decreases entries.len(),
{
    if entries.len() == 0 {
        -1
    } else if ci_eq(entries[0].name@, name) {
        0
    } else {
        let r = entry_index(entries.skip(1), name);
        if r < 0 {
            -1
        } else {
            r + 1
        }
    }
}

pub proof fn lemma_entry_index_valid(entries: Seq<FactoryEntry>, name: Seq<char>)
    ensures
        entry_index(entries, name) >= 0 ==> 0 <= entry_index(entries, name) < entries.len()
            && ci_eq(entries[entry_index(entries, name)].name@, name),
    decreases entries.len(),
{
    if entries.len() > 0 && !ci_eq(entries[0].name@, name) {
        lemma_entry_index_valid(entries.skip(1), name);
    }
}

pub proof fn lemma_entry_index_first(entries: Seq<FactoryEntry>, name: Seq<char>, i: int)
    requires
        0 <= i <= entries.len(),
        forall|j: int| 0 <= j < i ==> !ci_eq((#[trigger] entries[j]).name@, name),
    ensures
        i < entries.len() && ci_eq(entries[i].name@, name) ==> entry_index(entries, name) == i,
    decreases entries.len(),
{
    if entries.len() > 0 {
        if ci_eq(entries[0].name@, name) {
        } else {
            lemma_entry_index_first(entries.skip(1), name, if i > 0 {
                i - 1
            } else {
                0
            });
            assert(forall|j: int|
                0 <= j < i - 1 ==> (#[trigger] entries.skip(1)[j]).name@ == entries[j + 1].name@);
        }
    }
}

/// Alias law: under the freshly built registry, lookup resolves each
/// spelling of an aliased operator to its own entry, and both entries
/// of a pair carry one constructor — so `+` and `plus` (and each
/// other pair) build the same function for equal argument schemas.
pub proof fn lemma_bootstrap_alias_pairs(entries: Seq<FactoryEntry>)
    requires
        bootstrap_entries(entries),
    ensures
        entry_index(entries, "+"@) == 0 && entry_index(entries, "plus"@) == 1,
        entries[0].creator == entries[1].creator,
        entry_index(entries, "-"@) == 2 && entry_index(entries, "minus"@) == 3,
        entries[2].creator == entries[3].creator,
        entry_index(entries, "*"@) == 4 && entry_index(entries, "multiply"@) == 5,
        entries[4].creator == entries[5].creator,
        entry_index(entries, "/"@) == 6 && entry_index(entries, "divide"@) == 7,
        entries[6].creator == entries[7].creator,
        entry_index(entries, "%"@) == 8 && entry_index(entries, "modulo"@) == 9,
        entries[8].creator == entries[9].creator,
        entry_index(entries, "!="@) == 15 && entry_index(entries, "<>"@) == 16,
        entries[15].creator == entries[16].creator,
{
    reveal_strlit("+");
    reveal_strlit("plus");
    reveal_strlit("-");
    reveal_strlit("minus");
    reveal_strlit("*");
    reveal_strlit("multiply");
    reveal_strlit("/");
    reveal_strlit("divide");
    reveal_strlit("%");
    reveal_strlit("modulo");
    reveal_strlit("=");
    reveal_strlit("<");
    reveal_strlit(">");
    reveal_strlit("<=");
    reveal_strlit(">=");
    reveal_strlit("!=");
    reveal_strlit("<>");
    // Two names of one length are told apart by a character.
    assert(!ci_eq("+"@, "-"@)) by {
        assert(lower_code("+"@[0]) != lower_code("-"@[0]));
    }
    assert(!ci_eq("+"@, "*"@)) by {
        assert(lower_code("+"@[0]) != lower_code("*"@[0]));
    }
    assert(!ci_eq("-"@, "*"@)) by {
        assert(lower_code("-"@[0]) != lower_code("*"@[0]));
    }
    assert(!ci_eq("+"@, "/"@)) by {
        assert(lower_code("+"@[0]) != lower_code("/"@[0]));
    }
    assert(!ci_eq("-"@, "/"@)) by {
        assert(lower_code("-"@[0]) != lower_code("/"@[0]));
    }
    assert(!ci_eq("*"@, "/"@)) by {
        assert(lower_code("*"@[0]) != lower_code("/"@[0]));
    }
    assert(!ci_eq("+"@, "%"@)) by {
        assert(lower_code("+"@[0]) != lower_code("%"@[0]));
    }
    assert(!ci_eq("-"@, "%"@)) by {
        assert(lower_code("-"@[0]) != lower_code("%"@[0]));
    }
    assert(!ci_eq("*"@, "%"@)) by {
        assert(lower_code("*"@[0]) != lower_code("%"@[0]));
    }
    assert(!ci_eq("/"@, "%"@)) by {
        assert(lower_code("/"@[0]) != lower_code("%"@[0]));
    }
    assert(!ci_eq("divide"@, "modulo"@)) by {
        assert(lower_code("divide"@[0]) != lower_code("modulo"@[0]));
    }
    assert(!ci_eq("<="@, "!="@)) by {
        assert(lower_code("<="@[0]) != lower_code("!="@[0]));
    }
    assert(!ci_eq(">="@, "!="@)) by {
        assert(lower_code(">="@[0]) != lower_code("!="@[0]));
    }
    assert(!ci_eq("<="@, "<>"@)) by {
        assert(lower_code("<="@[1]) != lower_code("<>"@[1]));
    }
    assert(!ci_eq(">="@, "<>"@)) by {
        assert(lower_code(">="@[0]) != lower_code("<>"@[0]));
    }
    assert(!ci_eq("!="@, "<>"@)) by {
        assert(lower_code("!="@[0]) != lower_code("<>"@[0]));
    }
    assert(ci_eq(entries[0].name@, "+"@));
    lemma_entry_index_first(entries, "+"@, 0);
    assert(ci_eq(entries[1].name@, "plus"@));
    lemma_entry_index_first(entries, "plus"@, 1);
    assert(ci_eq(entries[2].name@, "-"@));
    lemma_entry_index_first(entries, "-"@, 2);
    assert(ci_eq(entries[3].name@, "minus"@));
    lemma_entry_index_first(entries, "minus"@, 3);
    assert(ci_eq(entries[4].name@, "*"@));
    lemma_entry_index_first(entries, "*"@, 4);
    assert(ci_eq(entries[5].name@, "multiply"@));
    lemma_entry_index_first(entries, "multiply"@, 5);
    assert(ci_eq(entries[6].name@, "/"@));
    lemma_entry_index_first(entries, "/"@, 6);
    assert(ci_eq(entries[7].name@, "divide"@));
    lemma_entry_index_first(entries, "divide"@, 7);
    assert(ci_eq(entries[8].name@, "%"@));
    lemma_entry_index_first(entries, "%"@, 8);
    assert(ci_eq(entries[9].name@, "modulo"@));
    lemma_entry_index_first(entries, "modulo"@, 9);
    assert(ci_eq(entries[15].name@, "!="@));
    lemma_entry_index_first(entries, "!="@, 15);
    assert(ci_eq(entries[16].name@, "<>"@));
    lemma_entry_index_first(entries, "<>"@, 16);
}

impl FunctionFactory {
    pub closed spec fn view(&self) -> Seq<FactoryEntry> {
        self.entries@
    }

    fn add(&mut self, name: &str, creator: FactoryCreator)
        ensures
            final (self)@.len() == old(self)@.len() + 1,
            forall|i: int| 0 <= i < old(self)@.len() ==> final (self)@[i] == old(self)@[i],
            final (self)@.last().name@ == name@,
            final (self)@.last().creator == creator,
    {
        self.entries.push(FactoryEntry { name: name.to_owned(), creator });
    }

    /// Builds the registry from the fixed set of built-in families,
    /// family by family, keeping registration order: the result holds
    /// exactly the bootstrap entries.
    pub fn create() -> (f: FunctionFactory)
        ensures
            bootstrap_entries(f@),
    {
        let mut f = FunctionFactory { entries: Vec::new() };
        ArithmeticFunction::register(&mut f);
        ComparisonFunction::register(&mut f);
        LogicFunction::register(&mut f);
        StringFunction::register(&mut f);
        UdfFunction::register(&mut f);
        HashesFunction::register(&mut f);
        f
    }

    /// Finds the constructor registered under a name, without regard
    /// to case, and applies it to the argument schema. An unknown name
    /// is an `UnknownFunction` error; a known one succeeds exactly when
    /// its constructor accepts the argument schema, binding that
    /// constructor's result type and nullability.
    #[verifier::loop_isolation(false)]
    pub fn get(&self, name: &str, argument: Vec<DataField>) -> (res: Result<
        FunctionImpl,
        ErrorCode,
    >)
        ensures
            (match res {
                Ok(f) => entry_index(self@, name@) >= 0 && creator_args_ok(
                    self@[entry_index(self@, name@)].creator,
                    fields_pairs(argument@),
                ) && f.spec_return_type() == creator_type(
                    self@[entry_index(self@, name@)].creator,
                    fields_pairs(argument@),
                ) && f.spec_nullable() == creator_nullable(
                    self@[entry_index(self@, name@)].creator,
                    fields_pairs(argument@),
                ),
                Err(e) => if entry_index(self@, name@) < 0 {
                    e.kind() == ErrorKind::UnknownFunction
                } else {
                    !creator_args_ok(
                        self@[entry_index(self@, name@)].creator,
                        fields_pairs(argument@),
                    ) && e.kind() != ErrorKind::UnknownFunction
                },
            }),
    {
        let n = self.entries.len();
        for i in 0..n
            invariant
                forall|j: int| 0 <= j < i ==> !ci_eq((#[trigger] self@[j]).name@, name@),
        {
            if ci_equal(self.entries[i].name.as_str(), name) {
                proof {
                    lemma_entry_index_first(self@, name@, i as int);
                }
                let creator = self.entries[i].creator;
                return Self::apply(creator, name, argument);
            }
        }
        proof {
            lemma_entry_index_valid(self@, name@);
        }
        Err(ErrorCode::unknown_function("no function is registered under this name".to_owned()))
    }

    /// Applies one constructor; no constructor reports an unknown name,
    /// and each succeeds exactly when it accepts the argument schema.
    fn apply(creator: FactoryCreator, name: &str, argument: Vec<DataField>) -> (res: Result<
        FunctionImpl,
        ErrorCode,
    >)
        ensures
            (match res {
                Ok(f) => creator_args_ok(creator, fields_pairs(argument@))
                    && f.spec_return_type() == creator_type(creator, fields_pairs(argument@))
                    && f.spec_nullable() == creator_nullable(creator, fields_pairs(argument@)),
                Err(e) => !creator_args_ok(creator, fields_pairs(argument@)) && e.kind()
                    != ErrorKind::UnknownFunction,
            }),
    {
        match creator {
            FactoryCreator::CompEq => ComparisonEqFunction::try_create_func(name, argument),
            FactoryCreator::CompNotEq => ComparisonNotEqFunction::try_create_func(name, argument),
            FactoryCreator::CompGt => ComparisonGtFunction::try_create_func(name, argument),
            FactoryCreator::CompGtEq => ComparisonGtEqFunction::try_create_func(name, argument),
            FactoryCreator::CompLt => ComparisonLtFunction::try_create_func(name, argument),
            FactoryCreator::CompLtEq => ComparisonLtEqFunction::try_create_func(name, argument),
            FactoryCreator::CompLike => ComparisonLikeFunction::try_create_func(name, argument),
            FactoryCreator::CompNotLike => ComparisonNotLikeFunction::try_create_func(
                name,
                argument,
            ),
            FactoryCreator::ArithPlus => ArithmeticPlusFunction::try_create_func(name, argument),
            FactoryCreator::ArithMinus => ArithmeticMinusFunction::try_create_func(name, argument),
            FactoryCreator::ArithMul => ArithmeticMulFunction::try_create_func(name, argument),
            FactoryCreator::ArithDiv => ArithmeticDivFunction::try_create_func(name, argument),
            FactoryCreator::ArithModulo => ArithmeticModuloFunction::try_create_func(
                name,
                argument,
            ),
            FactoryCreator::LogicAnd => LogicAndFunction::try_create_func(name, argument),
            FactoryCreator::LogicOr => LogicOrFunction::try_create_func(name, argument),
            FactoryCreator::LogicNot => LogicNotFunction::try_create_func(name, argument),
            FactoryCreator::StrSubstring => SubstringFunction::try_create(name, argument),
            FactoryCreator::UdfExample => UdfExampleFunction::try_create(name, argument),
            FactoryCreator::UdfToTypeName => ToTypeNameFunction::try_create(name, argument),
            FactoryCreator::UdfDatabase => DatabaseFunction::try_create(name, argument),
            FactoryCreator::UdfVersion => VersionFunction::try_create(name, argument),
            FactoryCreator::UdfSleep => SleepFunction::try_create(name, argument),
            FactoryCreator::UdfCrashMe => CrashMeFunction::try_create(name, argument),
            FactoryCreator::UdfIf => ConditionFunction::try_create(name, argument),
            FactoryCreator::HashSip => SipHashFunction::try_create(name, argument),
        }
    }

    /// Whether some function is registered under the name, without
    /// regard to case.
    #[verifier::loop_isolation(false)]
    pub fn check(&self, name: &str) -> (r: bool)
        ensures
            r == (entry_index(self@, name@) >= 0),
    {
        let n = self.entries.len();
        for i in 0..n
            invariant
                forall|j: int| 0 <= j < i ==> !ci_eq((#[trigger] self@[j]).name@, name@),
        {
            if ci_equal(self.entries[i].name.as_str(), name) {
                proof {
                    lemma_entry_index_first(self@, name@, i as int);
                }
                return true;
            }
        }
        proof {
            lemma_entry_index_valid(self@, name@);
        }
        false
    }

    /// The registered names, in registration order.
    #[verifier::loop_isolation(false)]
    pub fn registered_names(&self) -> (r: Vec<String>)
        ensures
            r@.len() == self@.len(),
            forall|i: int| 0 <= i < r@.len() ==> (#[trigger] r@[i])@ == self@[i].name@,
    {
        let mut out: Vec<String> = Vec::new();
        let n = self.entries.len();
        for i in 0..n
            invariant
                out@.len() == i,
                forall|j: int| 0 <= j < i ==> (#[trigger] out@[j])@ == self@[j].name@,
        {
            out.push(self.entries[i].name.clone());
        }
        out
    }
}

impl ArithmeticFunction {
    /// Registers the arithmetic operators and their word aliases.
    pub fn register(factory: &mut FunctionFactory)
        ensures
            final (factory)@.len() == old(factory)@.len() + 10,
            forall|i: int| 0 <= i < old(factory)@.len() ==> final (factory)@[i] == old(
                factory,
            )@[i],
            final (factory)@[old(factory)@.len() as int + 0].name@ == "+"@,
            final (factory)@[old(factory)@.len() as int + 0].creator == FactoryCreator::ArithPlus,
            final (factory)@[old(factory)@.len() as int + 1].name@ == "plus"@,
            final (factory)@[old(factory)@.len() as int + 1].creator == FactoryCreator::ArithPlus,
            final (factory)@[old(factory)@.len() as int + 2].name@ == "-"@,
            final (factory)@[old(factory)@.len() as int + 2].creator == FactoryCreator::ArithMinus,
            final (factory)@[old(factory)@.len() as int + 3].name@ == "minus"@,
            final (factory)@[old(factory)@.len() as int + 3].creator == FactoryCreator::ArithMinus,
            final (factory)@[old(factory)@.len() as int + 4].name@ == "*"@,
            final (factory)@[old(factory)@.len() as int + 4].creator == FactoryCreator::ArithMul,
            final (factory)@[old(factory)@.len() as int + 5].name@ == "multiply"@,
            final (factory)@[old(factory)@.len() as int + 5].creator == FactoryCreator::ArithMul,
            final (factory)@[old(factory)@.len() as int + 6].name@ == "/"@,
            final (factory)@[old(factory)@.len() as int + 6].creator == FactoryCreator::ArithDiv,
            final (factory)@[old(factory)@.len() as int + 7].name@ == "divide"@,
            final (factory)@[old(factory)@.len() as int + 7].creator == FactoryCreator::ArithDiv,
            final (factory)@[old(factory)@.len() as int + 8].name@ == "%"@,
            final (factory)@[old(factory)@.len() as int + 8].creator == FactoryCreator::ArithModulo,
            final (factory)@[old(factory)@.len() as int + 9].name@ == "modulo"@,
            final (factory)@[old(factory)@.len() as int + 9].creator == FactoryCreator::ArithModulo,
    {
        factory.add("+", FactoryCreator::ArithPlus);
        factory.add("plus", FactoryCreator::ArithPlus);
        factory.add("-", FactoryCreator::ArithMinus);
        factory.add("minus", FactoryCreator::ArithMinus);
        factory.add("*", FactoryCreator::ArithMul);
        factory.add("multiply", FactoryCreator::ArithMul);
        factory.add("/", FactoryCreator::ArithDiv);
        factory.add("divide", FactoryCreator::ArithDiv);
        factory.add("%", FactoryCreator::ArithModulo);
        factory.add("modulo", FactoryCreator::ArithModulo);
    }
}

impl ComparisonFunction {
    /// Registers the comparison operators.
    pub fn register(factory: &mut FunctionFactory)
        ensures
            final (factory)@.len() == old(factory)@.len() + 9,
            forall|i: int| 0 <= i < old(factory)@.len() ==> final (factory)@[i] == old(
                factory,
            )@[i],
            final (factory)@[old(factory)@.len() as int + 0].name@ == "="@,
            final (factory)@[old(factory)@.len() as int + 0].creator == FactoryCreator::CompEq,
            final (factory)@[old(factory)@.len() as int + 1].name@ == "<"@,
            final (factory)@[old(factory)@.len() as int + 1].creator == FactoryCreator::CompLt,
            final (factory)@[old(factory)@.len() as int + 2].name@ == ">"@,
            final (factory)@[old(factory)@.len() as int + 2].creator == FactoryCreator::CompGt,
            final (factory)@[old(factory)@.len() as int + 3].name@ == "<="@,
            final (factory)@[old(factory)@.len() as int + 3].creator == FactoryCreator::CompLtEq,
            final (factory)@[old(factory)@.len() as int + 4].name@ == ">="@,
            final (factory)@[old(factory)@.len() as int + 4].creator == FactoryCreator::CompGtEq,
            final (factory)@[old(factory)@.len() as int + 5].name@ == "!="@,
            final (factory)@[old(factory)@.len() as int + 5].creator == FactoryCreator::CompNotEq,
            final (factory)@[old(factory)@.len() as int + 6].name@ == "<>"@,
            final (factory)@[old(factory)@.len() as int + 6].creator == FactoryCreator::CompNotEq,
            final (factory)@[old(factory)@.len() as int + 7].name@ == "like"@,
            final (factory)@[old(factory)@.len() as int + 7].creator == FactoryCreator::CompLike,
            final (factory)@[old(factory)@.len() as int + 8].name@ == "not like"@,
            final (factory)@[old(factory)@.len() as int + 8].creator == FactoryCreator::CompNotLike,
    {
        factory.add("=", FactoryCreator::CompEq);
        factory.add("<", FactoryCreator::CompLt);
        factory.add(">", FactoryCreator::CompGt);
        factory.add("<=", FactoryCreator::CompLtEq);
        factory.add(">=", FactoryCreator::CompGtEq);
        factory.add("!=", FactoryCreator::CompNotEq);
        factory.add("<>", FactoryCreator::CompNotEq);
        factory.add("like", FactoryCreator::CompLike);
        factory.add("not like", FactoryCreator::CompNotLike);
    }
}

impl LogicFunction {
    /// Registers the boolean connectives.
    pub fn register(factory: &mut FunctionFactory)
        ensures
            final (factory)@.len() == old(factory)@.len() + 3,
            forall|i: int| 0 <= i < old(factory)@.len() ==> final (factory)@[i] == old(
                factory,
            )@[i],
            final (factory)@[old(factory)@.len() as int + 0].name@ == "and"@,
            final (factory)@[old(factory)@.len() as int + 0].creator == FactoryCreator::LogicAnd,
            final (factory)@[old(factory)@.len() as int + 1].name@ == "or"@,
            final (factory)@[old(factory)@.len() as int + 1].creator == FactoryCreator::LogicOr,
            final (factory)@[old(factory)@.len() as int + 2].name@ == "not"@,
            final (factory)@[old(factory)@.len() as int + 2].creator == FactoryCreator::LogicNot,
    {
        factory.add("and", FactoryCreator::LogicAnd);
        factory.add("or", FactoryCreator::LogicOr);
        factory.add("not", FactoryCreator::LogicNot);
    }
}

impl StringFunction {
    /// Registers the string functions.
    pub fn register(factory: &mut FunctionFactory)
        ensures
            final (factory)@.len() == old(factory)@.len() + 1,
            forall|i: int| 0 <= i < old(factory)@.len() ==> final (factory)@[i] == old(
                factory,
            )@[i],
            final (factory)@[old(factory)@.len() as int + 0].name@ == "substring"@,
            final (factory)@[old(factory)@.len() as int + 0].creator == FactoryCreator::StrSubstring,
    {
        factory.add("substring", FactoryCreator::StrSubstring);
    }
}

impl UdfFunction {
    /// Registers the diagnostic and metadata functions.
    pub fn register(factory: &mut FunctionFactory)
        ensures
            final (factory)@.len() == old(factory)@.len() + 7,
            forall|i: int| 0 <= i < old(factory)@.len() ==> final (factory)@[i] == old(
                factory,
            )@[i],
            final (factory)@[old(factory)@.len() as int + 0].name@ == "example"@,
            final (factory)@[old(factory)@.len() as int + 0].creator == FactoryCreator::UdfExample,
            final (factory)@[old(factory)@.len() as int + 1].name@ == "totypename"@,
            final (factory)@[old(factory)@.len() as int + 1].creator == FactoryCreator::UdfToTypeName,
            final (factory)@[old(factory)@.len() as int + 2].name@ == "database"@,
            final (factory)@[old(factory)@.len() as int + 2].creator == FactoryCreator::UdfDatabase,
            final (factory)@[old(factory)@.len() as int + 3].name@ == "version"@,
            final (factory)@[old(factory)@.len() as int + 3].creator == FactoryCreator::UdfVersion,
            final (factory)@[old(factory)@.len() as int + 4].name@ == "sleep"@,
            final (factory)@[old(factory)@.len() as int + 4].creator == FactoryCreator::UdfSleep,
            final (factory)@[old(factory)@.len() as int + 5].name@ == "crashme"@,
            final (factory)@[old(factory)@.len() as int + 5].creator == FactoryCreator::UdfCrashMe,
            final (factory)@[old(factory)@.len() as int + 6].name@ == "if"@,
            final (factory)@[old(factory)@.len() as int + 6].creator == FactoryCreator::UdfIf,
    {
        factory.add("example", FactoryCreator::UdfExample);
        factory.add("totypename", FactoryCreator::UdfToTypeName);
        factory.add("database", FactoryCreator::UdfDatabase);
        factory.add("version", FactoryCreator::UdfVersion);
        factory.add("sleep", FactoryCreator::UdfSleep);
        factory.add("crashme", FactoryCreator::UdfCrashMe);
        factory.add("if", FactoryCreator::UdfIf);
    }
}

impl HashesFunction {
    /// Registers the hashing functions.
    pub fn register(factory: &mut FunctionFactory)
        ensures
            final (factory)@.len() == old(factory)@.len() + 1,
            forall|i: int| 0 <= i < old(factory)@.len() ==> final (factory)@[i] == old(
                factory,
            )@[i],
            final (factory)@[old(factory)@.len() as int + 0].name@ == "siphash"@,
            final (factory)@[old(factory)@.len() as int + 0].creator == FactoryCreator::HashSip,
    {
        factory.add("siphash", FactoryCreator::HashSip);
    }
}

} // verus!
