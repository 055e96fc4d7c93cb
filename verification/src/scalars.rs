//! The public constructors of the built-in scalar functions, one small
//! type per registry entry, each handing back a bound function
//! instance after checking what its family demands of the argument
//! schema.

use vstd::prelude::*;

use crate::compare::CompareOp;
use crate::error::ErrorCode;
use crate::error::ErrorKind;
use crate::functions::ArithmeticOp;
use crate::functions::FunctionImpl;
use crate::functions::LogicOp;
use crate::schema::DataField;
use crate::values::DataType;

verus! {

/// The comparison family, bound to one operator.
pub struct ComparisonFunction;

impl ComparisonFunction {
    pub fn try_create_func(op: CompareOp) -> (r: Result<FunctionImpl, ErrorCode>)
        ensures
            (match r {
                Ok(f) => f == FunctionImpl::Comparison(op),
                Err(_) => false,
            }),
    {
        Ok(FunctionImpl::Comparison(op))
    }
}

pub struct ComparisonEqFunction;

impl ComparisonEqFunction {
    pub fn try_create_func(_display_name: &str, _arguments: Vec<DataField>) -> (r: Result<
        FunctionImpl,
        ErrorCode,
    >)
        ensures
            (match r {
                Ok(f) => f == FunctionImpl::Comparison(CompareOp::Eq),
                Err(_) => false,
            }),
    {
        ComparisonFunction::try_create_func(CompareOp::Eq)
    }
}

pub struct ComparisonNotEqFunction;

impl ComparisonNotEqFunction {
    pub fn try_create_func(_display_name: &str, _arguments: Vec<DataField>) -> (r: Result<
        FunctionImpl,
        ErrorCode,
    >)
        ensures
            (match r {
                Ok(f) => f == FunctionImpl::Comparison(CompareOp::NotEq),
                Err(_) => false,
            }),
    {
        ComparisonFunction::try_create_func(CompareOp::NotEq)
    }
}

pub struct ComparisonGtFunction;

impl ComparisonGtFunction {
    pub fn try_create_func(_display_name: &str, _arguments: Vec<DataField>) -> (r: Result<
        FunctionImpl,
        ErrorCode,
    >)
        ensures
            (match r {
                Ok(f) => f == FunctionImpl::Comparison(CompareOp::Gt),
                Err(_) => false,
            }),
    {
        ComparisonFunction::try_create_func(CompareOp::Gt)
    }
}

pub struct ComparisonGtEqFunction;

impl ComparisonGtEqFunction {
    pub fn try_create_func(_display_name: &str, _arguments: Vec<DataField>) -> (r: Result<
        FunctionImpl,
        ErrorCode,
    >)
        ensures
            (match r {
                Ok(f) => f == FunctionImpl::Comparison(CompareOp::GtEq),
                Err(_) => false,
            }),
    {
        ComparisonFunction::try_create_func(CompareOp::GtEq)
    }
}

pub struct ComparisonLtFunction;

impl ComparisonLtFunction {
    pub fn try_create_func(_display_name: &str, _arguments: Vec<DataField>) -> (r: Result<
        FunctionImpl,
        ErrorCode,
    >)
        ensures
            (match r {
                Ok(f) => f == FunctionImpl::Comparison(CompareOp::Lt),
                Err(_) => false,
            }),
    {
        ComparisonFunction::try_create_func(CompareOp::Lt)
    }
}

pub struct ComparisonLtEqFunction;

impl ComparisonLtEqFunction {
    pub fn try_create_func(_display_name: &str, _arguments: Vec<DataField>) -> (r: Result<
        FunctionImpl,
        ErrorCode,
    >)
        ensures
            (match r {
                Ok(f) => f == FunctionImpl::Comparison(CompareOp::LtEq),
                Err(_) => false,
            }),
    {
        ComparisonFunction::try_create_func(CompareOp::LtEq)
    }
}

pub struct ComparisonLikeFunction;

impl ComparisonLikeFunction {
    pub fn try_create_func(_display_name: &str, _arguments: Vec<DataField>) -> (r: Result<
        FunctionImpl,
        ErrorCode,
    >)
        ensures
            (match r {
                Ok(f) => f == FunctionImpl::Comparison(CompareOp::Like),
                Err(_) => false,
            }),
    {
        ComparisonFunction::try_create_func(CompareOp::Like)
    }
}

pub struct ComparisonNotLikeFunction;

impl ComparisonNotLikeFunction {
    pub fn try_create_func(_display_name: &str, _arguments: Vec<DataField>) -> (r: Result<
        FunctionImpl,
        ErrorCode,
    >)
        ensures
            (match r {
                Ok(f) => f == FunctionImpl::Comparison(CompareOp::NotLike),
                Err(_) => false,
            }),
    {
        ComparisonFunction::try_create_func(CompareOp::NotLike)
    }
}

/// The arithmetic family, bound to one operator; the result type is the
/// operands' shared integer type.
pub struct ArithmeticFunction;

impl ArithmeticFunction {
    pub fn try_create_func(op: ArithmeticOp, arguments: Vec<DataField>) -> (r: Result<
        FunctionImpl,
        ErrorCode,
    >)
        ensures
            (match r {
                Ok(f) => (arguments@.len() == 1 || arguments@.len() == 2)
                    && arguments@[0].spec_data_type().spec_is_integer() && (arguments@.len() == 2
                    ==> arguments@[1].spec_data_type() == arguments@[0].spec_data_type()) && (f
                    matches FunctionImpl::Arithmetic(o, t) && o == op && t
                    == arguments@[0].spec_data_type()),
                Err(e) => (arguments@.len() == 0 || arguments@.len() > 2
                    || !arguments@[0].spec_data_type().spec_is_integer() || (arguments@.len() == 2
                    && arguments@[1].spec_data_type() != arguments@[0].spec_data_type())) && (
                e.kind() == ErrorKind::NumberArgumentsNotMatch || e.kind()
                    == ErrorKind::BadDataValueType),
            }),
    {
        if arguments.len() == 0 || arguments.len() > 2 {
            return Err(
                ErrorCode::number_arguments_not_match(
                    "arithmetic takes one or two arguments".to_owned(),
                ),
            );
        }
        let t0 = arguments[0].data_type().duplicate();
        if !t0.is_integer() {
            return Err(
                ErrorCode::bad_data_value_type(
                    "arithmetic needs integer-typed arguments".to_owned(),
                ),
            );
        }
        if arguments.len() == 2 && !arguments[1].data_type().same_as(&t0) {
            return Err(
                ErrorCode::bad_data_value_type(
                    "arithmetic needs two arguments of one type".to_owned(),
                ),
            );
        }
        Ok(FunctionImpl::Arithmetic(op, t0))
    }
}

pub struct ArithmeticPlusFunction;

impl ArithmeticPlusFunction {
    pub fn try_create_func(_display_name: &str, arguments: Vec<DataField>) -> (r: Result<
        FunctionImpl,
        ErrorCode,
    >)
        ensures
            (match r {
                Ok(f) => (arguments@.len() == 1 || arguments@.len() == 2)
                    && arguments@[0].spec_data_type().spec_is_integer() && (arguments@.len() == 2
                    ==> arguments@[1].spec_data_type() == arguments@[0].spec_data_type()) && (f
                    matches FunctionImpl::Arithmetic(o, t) && o == ArithmeticOp::Plus && t
                    == arguments@[0].spec_data_type()),
                Err(e) => !((arguments@.len() == 1 || arguments@.len() == 2)
                    && arguments@[0].spec_data_type().spec_is_integer() && (arguments@.len() == 2
                    ==> arguments@[1].spec_data_type() == arguments@[0].spec_data_type())) && (
                e.kind() == ErrorKind::NumberArgumentsNotMatch || e.kind()
                    == ErrorKind::BadDataValueType),
            }),
    {
        ArithmeticFunction::try_create_func(ArithmeticOp::Plus, arguments)
    }
}

pub struct ArithmeticMinusFunction;

impl ArithmeticMinusFunction {
    pub fn try_create_func(_display_name: &str, arguments: Vec<DataField>) -> (r: Result<
        FunctionImpl,
        ErrorCode,
    >)
        ensures
            (match r {
                Ok(f) => (arguments@.len() == 1 || arguments@.len() == 2)
                    && arguments@[0].spec_data_type().spec_is_integer() && (arguments@.len() == 2
                    ==> arguments@[1].spec_data_type() == arguments@[0].spec_data_type()) && (f
                    matches FunctionImpl::Arithmetic(o, t) && o == ArithmeticOp::Minus && t
                    == arguments@[0].spec_data_type()),
                Err(e) => !((arguments@.len() == 1 || arguments@.len() == 2)
                    && arguments@[0].spec_data_type().spec_is_integer() && (arguments@.len() == 2
                    ==> arguments@[1].spec_data_type() == arguments@[0].spec_data_type())) && (
                e.kind() == ErrorKind::NumberArgumentsNotMatch || e.kind()
                    == ErrorKind::BadDataValueType),
            }),
    {
        ArithmeticFunction::try_create_func(ArithmeticOp::Minus, arguments)
    }
}

pub struct ArithmeticMulFunction;

impl ArithmeticMulFunction {
    pub fn try_create_func(_display_name: &str, arguments: Vec<DataField>) -> (r: Result<
        FunctionImpl,
        ErrorCode,
    >)
        ensures
            (match r {
                Ok(f) => (arguments@.len() == 1 || arguments@.len() == 2)
                    && arguments@[0].spec_data_type().spec_is_integer() && (arguments@.len() == 2
                    ==> arguments@[1].spec_data_type() == arguments@[0].spec_data_type()) && (f
                    matches FunctionImpl::Arithmetic(o, t) && o == ArithmeticOp::Mul && t
                    == arguments@[0].spec_data_type()),
                Err(e) => !((arguments@.len() == 1 || arguments@.len() == 2)
                    && arguments@[0].spec_data_type().spec_is_integer() && (arguments@.len() == 2
                    ==> arguments@[1].spec_data_type() == arguments@[0].spec_data_type())) && (
                e.kind() == ErrorKind::NumberArgumentsNotMatch || e.kind()
                    == ErrorKind::BadDataValueType),
            }),
    {
        ArithmeticFunction::try_create_func(ArithmeticOp::Mul, arguments)
    }
}

pub struct ArithmeticDivFunction;

impl ArithmeticDivFunction {
    pub fn try_create_func(_display_name: &str, arguments: Vec<DataField>) -> (r: Result<
        FunctionImpl,
        ErrorCode,
    >)
        ensures
            (match r {
                Ok(f) => (arguments@.len() == 1 || arguments@.len() == 2)
                    && arguments@[0].spec_data_type().spec_is_integer() && (arguments@.len() == 2
                    ==> arguments@[1].spec_data_type() == arguments@[0].spec_data_type()) && (f
                    matches FunctionImpl::Arithmetic(o, t) && o == ArithmeticOp::Div && t
                    == arguments@[0].spec_data_type()),
                Err(e) => !((arguments@.len() == 1 || arguments@.len() == 2)
                    && arguments@[0].spec_data_type().spec_is_integer() && (arguments@.len() == 2
                    ==> arguments@[1].spec_data_type() == arguments@[0].spec_data_type())) && (
                e.kind() == ErrorKind::NumberArgumentsNotMatch || e.kind()
                    == ErrorKind::BadDataValueType),
            }),
    {
        ArithmeticFunction::try_create_func(ArithmeticOp::Div, arguments)
    }
}

pub struct ArithmeticModuloFunction;

impl ArithmeticModuloFunction {
    pub fn try_create_func(_display_name: &str, arguments: Vec<DataField>) -> (r: Result<
        FunctionImpl,
        ErrorCode,
    >)
        ensures
            (match r {
                Ok(f) => (arguments@.len() == 1 || arguments@.len() == 2)
                    && arguments@[0].spec_data_type().spec_is_integer() && (arguments@.len() == 2
                    ==> arguments@[1].spec_data_type() == arguments@[0].spec_data_type()) && (f
                    matches FunctionImpl::Arithmetic(o, t) && o == ArithmeticOp::Modulo && t
                    == arguments@[0].spec_data_type()),
                Err(e) => !((arguments@.len() == 1 || arguments@.len() == 2)
                    && arguments@[0].spec_data_type().spec_is_integer() && (arguments@.len() == 2
                    ==> arguments@[1].spec_data_type() == arguments@[0].spec_data_type())) && (
                e.kind() == ErrorKind::NumberArgumentsNotMatch || e.kind()
                    == ErrorKind::BadDataValueType),
            }),
    {
        ArithmeticFunction::try_create_func(ArithmeticOp::Modulo, arguments)
    }
}

/// The boolean connectives.
pub struct LogicFunction;

impl LogicFunction {
    pub fn try_create_func(op: LogicOp) -> (r: Result<FunctionImpl, ErrorCode>)
        ensures
            (match r {
                Ok(f) => f == FunctionImpl::Logic(op),
                Err(_) => false,
            }),
    {
        Ok(FunctionImpl::Logic(op))
    }
}

pub struct LogicAndFunction;

impl LogicAndFunction {
    pub fn try_create_func(_display_name: &str, _arguments: Vec<DataField>) -> (r: Result<
        FunctionImpl,
        ErrorCode,
    >)
        ensures
            (match r {
                Ok(f) => f == FunctionImpl::Logic(LogicOp::And),
                Err(_) => false,
            }),
    {
        LogicFunction::try_create_func(LogicOp::And)
    }
}

pub struct LogicOrFunction;

impl LogicOrFunction {
    pub fn try_create_func(_display_name: &str, _arguments: Vec<DataField>) -> (r: Result<
        FunctionImpl,
        ErrorCode,
    >)
        ensures
            (match r {
                Ok(f) => f == FunctionImpl::Logic(LogicOp::Or),
                Err(_) => false,
            }),
    {
        LogicFunction::try_create_func(LogicOp::Or)
    }
}

pub struct LogicNotFunction;

impl LogicNotFunction {
    pub fn try_create_func(_display_name: &str, _arguments: Vec<DataField>) -> (r: Result<
        FunctionImpl,
        ErrorCode,
    >)
        ensures
            (match r {
                Ok(f) => f == FunctionImpl::Logic(LogicOp::Not),
                Err(_) => false,
            }),
    {
        LogicFunction::try_create_func(LogicOp::Not)
    }
}

/// The string family.
pub struct StringFunction;

pub struct SubstringFunction;

impl SubstringFunction {
    pub fn try_create(display_name: &str, _arguments: Vec<DataField>) -> (r: Result<
        FunctionImpl,
        ErrorCode,
    >)
        ensures
            (match r {
                Ok(f) => f is Substring,
                Err(_) => false,
            }),
    {
        Ok(FunctionImpl::Substring(display_name.to_owned()))
    }
}

pub struct ToTypeNameFunction;

impl ToTypeNameFunction {
    pub fn try_create(display_name: &str, _arguments: Vec<DataField>) -> (r: Result<
        FunctionImpl,
        ErrorCode,
    >)
        ensures
            (match r {
                Ok(f) => f is ToTypeName,
                Err(_) => false,
            }),
    {
        Ok(FunctionImpl::ToTypeName(display_name.to_owned()))
    }
}

pub struct UdfExampleFunction;

impl UdfExampleFunction {
    pub fn try_create(display_name: &str, _arguments: Vec<DataField>) -> (r: Result<
        FunctionImpl,
        ErrorCode,
    >)
        ensures
            (match r {
                Ok(f) => f is UdfExample,
                Err(_) => false,
            }),
    {
        Ok(FunctionImpl::UdfExample(display_name.to_owned()))
    }
}

pub struct DatabaseFunction;

impl DatabaseFunction {
    pub fn try_create(_display_name: &str, _arguments: Vec<DataField>) -> (r: Result<
        FunctionImpl,
        ErrorCode,
    >)
        ensures
            (match r {
                Ok(f) => f is Database,
                Err(_) => false,
            }),
    {
        Ok(FunctionImpl::Database("database".to_owned()))
    }
}

pub struct VersionFunction;

impl VersionFunction {
    pub fn try_create(_display_name: &str, _arguments: Vec<DataField>) -> (r: Result<
        FunctionImpl,
        ErrorCode,
    >)
        ensures
            (match r {
                Ok(f) => f is Version,
                Err(_) => false,
            }),
    {
        Ok(FunctionImpl::Version("version".to_owned()))
    }
}

pub struct SleepFunction;

impl SleepFunction {
    pub fn try_create(display_name: &str, arguments: Vec<DataField>) -> (r: Result<
        FunctionImpl,
        ErrorCode,
    >)
        ensures
            (match r {
                Ok(f) => f is Sleep && arguments@.len() == 1
                    && arguments@[0].spec_data_type().spec_is_integer(),
                Err(e) => if arguments@.len() != 1 {
                    e.kind() == ErrorKind::NumberArgumentsNotMatch
                } else {
                    !arguments@[0].spec_data_type().spec_is_integer() && e.kind()
                        == ErrorKind::BadArguments
                },
            }),
    {
        if arguments.len() != 1 {
            return Err(
                ErrorCode::number_arguments_not_match(
                    "the sleep function takes one argument".to_owned(),
                ),
            );
        }
        if !arguments[0].data_type().is_integer() {
            return Err(
                ErrorCode::bad_arguments(
                    "the sleep argument must have an integer type".to_owned(),
                ),
            );
        }
        Ok(FunctionImpl::Sleep(display_name.to_owned()))
    }
}

pub struct CrashMeFunction;

impl CrashMeFunction {
    pub fn try_create(display_name: &str, _arguments: Vec<DataField>) -> (r: Result<
        FunctionImpl,
        ErrorCode,
    >)
        ensures
            (match r {
                Ok(f) => f is CrashMe,
                Err(_) => false,
            }),
    {
        Ok(FunctionImpl::CrashMe(display_name.to_owned()))
    }
}

pub struct SipHashFunction;

impl SipHashFunction {
    pub fn try_create(display_name: &str, arguments: Vec<DataField>) -> (r: Result<
        FunctionImpl,
        ErrorCode,
    >)
        ensures
            (match r {
                Ok(f) => f is SipHash && arguments@.len() >= 1
                    && crate::hashes::spec_sip_type_ok(arguments@[0].spec_data_type()),
                Err(e) => (arguments@.len() < 1 || !crate::hashes::spec_sip_type_ok(
                    arguments@[0].spec_data_type(),
                )) && e.kind() == ErrorKind::BadArguments,
            }),
    {
        if arguments.len() < 1 {
            return Err(
                ErrorCode::bad_arguments("the sip hash takes one argument".to_owned()),
            );
        }
        if !crate::hashes::sip_type_ok(arguments[0].data_type()) {
            return Err(
                ErrorCode::bad_arguments(
                    "the sip hash does not accept this argument type".to_owned(),
                ),
            );
        }
        Ok(FunctionImpl::SipHash(display_name.to_owned()))
    }
}

pub struct ConditionFunction;

impl ConditionFunction {
    pub fn try_create(display_name: &str, arguments: Vec<DataField>) -> (r: Result<
        FunctionImpl,
        ErrorCode,
    >)
        ensures
            (match r {
                Ok(f) => arguments@.len() == 3 && arguments@[0].spec_data_type()
                    == DataType::Boolean && arguments@[1].spec_data_type()
                    == arguments@[2].spec_data_type() && (f matches FunctionImpl::Condition(t, n)
                    && t == arguments@[1].spec_data_type() && n == (
                arguments@[1].spec_nullable() || arguments@[2].spec_nullable())),
                Err(e) => if arguments@.len() != 3 {
                    e.kind() == ErrorKind::NumberArgumentsNotMatch
                } else {
                    (arguments@[0].spec_data_type() != DataType::Boolean
                        || arguments@[1].spec_data_type() != arguments@[2].spec_data_type())
                        && e.kind() == ErrorKind::BadArguments
                },
            }),
    {
        if arguments.len() != 3 {
            return Err(
                ErrorCode::number_arguments_not_match(
                    "the conditional expects three arguments".to_owned(),
                ),
            );
        }
        if !matches!(arguments[0].data_type(), DataType::Boolean) {
            return Err(
                ErrorCode::bad_arguments("the conditional needs a boolean flag".to_owned()),
            );
        }
        if !arguments[1].data_type().same_as(arguments[2].data_type()) {
            return Err(
                ErrorCode::bad_arguments(
                    "the types of the two branches should be the same".to_owned(),
                ),
            );
        }
        let t = arguments[1].data_type().duplicate();
        let n = arguments[1].is_nullable() || arguments[2].is_nullable();
        Ok(FunctionImpl::Condition(t, n))
    }
}

/// The cast family, bound to its target type; its nullability is the
/// argument's.
pub struct CastFunction;

impl CastFunction {
    pub fn try_create(cast_type: DataType, arguments: Vec<DataField>) -> (r: Result<
        FunctionImpl,
        ErrorCode,
    >)
        ensures
            (match r {
                Ok(f) => arguments@.len() >= 1 && (f matches FunctionImpl::Cast(t, n) && t
                    == cast_type && n == arguments@[0].spec_nullable()),
                Err(e) => arguments@.len() == 0 && e.kind() == ErrorKind::NumberArgumentsNotMatch,
            }),
    {
        if arguments.len() == 0 {
            return Err(
                ErrorCode::number_arguments_not_match(
                    "the cast is bound to one argument field".to_owned(),
                ),
            );
        }
        Ok(FunctionImpl::Cast(cast_type, arguments[0].is_nullable()))
    }
}

pub struct ColumnFunction;

impl ColumnFunction {
    pub fn try_create(value: &str, arguments: Vec<DataField>) -> (r: Result<
        FunctionImpl,
        ErrorCode,
    >)
        ensures
            (match r {
                Ok(f) => arguments@.len() >= 1 && (f matches FunctionImpl::ColumnRef(_, t, n) && t
                    == arguments@[0].spec_data_type() && n == arguments@[0].spec_nullable()),
                Err(e) => arguments@.len() == 0 && e.kind() == ErrorKind::NumberArgumentsNotMatch,
            }),
    {
        if arguments.len() == 0 {
            return Err(
                ErrorCode::number_arguments_not_match(
                    "the column function is bound to one field".to_owned(),
                ),
            );
        }
        Ok(
            FunctionImpl::ColumnRef(
                value.to_owned(),
                arguments[0].data_type().duplicate(),
                arguments[0].is_nullable(),
            ),
        )
    }
}

pub struct AliasFunction;

impl AliasFunction {
    pub fn try_create(alias: String, arguments: Vec<DataField>) -> (r: Result<
        FunctionImpl,
        ErrorCode,
    >)
        ensures
            (match r {
                Ok(f) => arguments@.len() >= 1 && (f matches FunctionImpl::Alias(_, t) && t
                    == arguments@[0].spec_data_type()),
                Err(e) => arguments@.len() == 0 && e.kind() == ErrorKind::NumberArgumentsNotMatch,
            }),
    {
        if arguments.len() == 0 {
            return Err(
                ErrorCode::number_arguments_not_match(
                    "the alias function is bound to one field".to_owned(),
                ),
            );
        }
        Ok(FunctionImpl::Alias(alias, arguments[0].data_type().duplicate()))
    }
}

/// The diagnostic and metadata family.
pub struct UdfFunction;

/// The hashing family.
pub struct HashesFunction;

} // verus!
