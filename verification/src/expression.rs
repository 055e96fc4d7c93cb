//! The expression algebra: an immutable tree of column references,
//! literals, operators, function applications, sorts and casts, with
//! structural equality, a canonical display form used as the logical
//! column name, and static resolution of each node's result type and
//! nullability against a schema and the function registry.

use vstd::prelude::*;

use crate::error::ErrorCode;
use crate::error::ErrorKind;
use crate::factory::ci_eq;
use crate::factory::ci_equal;
use crate::factory::creator_args_ok;
use crate::factory::creator_nullable;
use crate::factory::creator_type;
use crate::factory::entry_index;
use crate::factory::fields_pairs;
use crate::factory::FactoryEntry;
use crate::factory::FunctionFactory;
use crate::numfmt::dec_digits;
use crate::numfmt::dec_int;
use crate::numfmt::i64_to_dec;
use crate::numfmt::u64_to_dec;
use crate::schema::field_index;
use crate::schema::DataField;
use crate::schema::DataSchema;
use crate::values::dv_eq;
use crate::values::DataType;
use crate::values::DataValue;

verus! {

/// One node of the expression tree.
#[derive(Debug)]
pub enum Expression {
    /// An expression under an alias name.
    Alias(String, Box<Expression>),
    /// A column reference by name.
    Column(String),
    /// A constant value.
    Literal(DataValue),
    /// A unary operator application.
    UnaryExpression { op: String, expr: Box<Expression> },
    /// A binary operator application.
    BinaryExpression { left: Box<Expression>, op: String, right: Box<Expression> },
    /// A scalar function application.
    ScalarFunction { op: String, args: Vec<Expression> },
    /// An aggregate function application.
    AggregateFunction { op: String, distinct: bool, args: Vec<Expression> },
    /// A sort direction around an expression.
    Sort { expr: Box<Expression>, asc: bool, nulls_first: bool },
    /// All fields of a schema; it carries no type of its own.
    Wildcard,
    /// A cast to a fixed type.
    Cast { expr: Box<Expression>, data_type: DataType },
}

/// Deep structural equality of two expression trees; nothing is
/// ignored.
pub open spec fn expr_eq(a: Expression, b: Expression) -> bool
    decreases a,
{
    match (a, b) {
        (Expression::Alias(n1, e1), Expression::Alias(n2, e2)) => n1@ == n2@ && expr_eq(*e1, *e2),
        (Expression::Column(n1), Expression::Column(n2)) => n1@ == n2@,
        (Expression::Literal(v1), Expression::Literal(v2)) => dv_eq(v1, v2),
        (
            Expression::UnaryExpression { op: o1, expr: e1 },
            Expression::UnaryExpression { op: o2, expr: e2 },
        ) => o1@ == o2@ && expr_eq(*e1, *e2),
        (
            Expression::BinaryExpression { left: l1, op: o1, right: r1 },
            Expression::BinaryExpression { left: l2, op: o2, right: r2 },
        ) => o1@ == o2@ && expr_eq(*l1, *l2) && expr_eq(*r1, *r2),
        (
            Expression::ScalarFunction { op: o1, args: a1 },
            Expression::ScalarFunction { op: o2, args: a2 },
        ) => o1@ == o2@ && a1@.len() == a2@.len() && (forall|i: int|
            0 <= i < a1@.len() ==> expr_eq(#[trigger] a1@[i], a2@[i])),
        (
            Expression::AggregateFunction { op: o1, distinct: d1, args: a1 },
            Expression::AggregateFunction { op: o2, distinct: d2, args: a2 },
        ) => o1@ == o2@ && d1 == d2 && a1@.len() == a2@.len() && (forall|i: int|
            0 <= i < a1@.len() ==> expr_eq(#[trigger] a1@[i], a2@[i])),
        (
            Expression::Sort { expr: e1, asc: s1, nulls_first: f1 },
            Expression::Sort { expr: e2, asc: s2, nulls_first: f2 },
        ) => s1 == s2 && f1 == f2 && expr_eq(*e1, *e2),
        (Expression::Wildcard, Expression::Wildcard) => true,
        (
            Expression::Cast { expr: e1, data_type: t1 },
            Expression::Cast { expr: e2, data_type: t2 },
        ) => t1 == t2 && expr_eq(*e1, *e2),
        _ => false,
    }
}

/// Exec structural equality, reflected into `expr_eq`.
#[verifier::loop_isolation(false)]
pub fn expr_equal(a: &Expression, b: &Expression) -> (r: bool)
    ensures
        r == expr_eq(*a, *b),
    decreases *a,
{
    match (a, b) {
        (Expression::Alias(n1, e1), Expression::Alias(n2, e2)) => n1.eq(n2) && expr_equal(e1, e2),
        (Expression::Column(n1), Expression::Column(n2)) => n1.eq(n2),
        (Expression::Literal(v1), Expression::Literal(v2)) => crate::values::val_equal(v1, v2),
        (
            Expression::UnaryExpression { op: o1, expr: e1 },
            Expression::UnaryExpression { op: o2, expr: e2 },
        ) => o1.eq(o2) && expr_equal(e1, e2),
        (
            Expression::BinaryExpression { left: l1, op: o1, right: r1 },
            Expression::BinaryExpression { left: l2, op: o2, right: r2 },
        ) => o1.eq(o2) && expr_equal(l1, l2) && expr_equal(r1, r2),
        (
            Expression::ScalarFunction { op: o1, args: a1 },
            Expression::ScalarFunction { op: o2, args: a2 },
        ) => {
            if !o1.eq(o2) || a1.len() != a2.len() {
                false
            } else {
                let n = a1.len();
                let mut ok = true;
                for i in 0..n
                    invariant
                        ok == (forall|j: int| 0 <= j < i ==> expr_eq(#[trigger] a1@[j], a2@[j])),
                {
                    proof {
                        assert(decreases_to!(*a => a1@[i as int]));
                    }
                    let e = expr_equal(&a1[i], &a2[i]);
                    ok = ok && e;
                }
                ok
            }
        },
        (
            Expression::AggregateFunction { op: o1, distinct: d1, args: a1 },
            Expression::AggregateFunction { op: o2, distinct: d2, args: a2 },
        ) => {
            if !o1.eq(o2) || *d1 != *d2 || a1.len() != a2.len() {
                false
            } else {
                let n = a1.len();
                let mut ok = true;
                for i in 0..n
                    invariant
                        ok == (forall|j: int| 0 <= j < i ==> expr_eq(#[trigger] a1@[j], a2@[j])),
                {
                    proof {
                        assert(decreases_to!(*a => a1@[i as int]));
                    }
                    let e = expr_equal(&a1[i], &a2[i]);
                    ok = ok && e;
                }
                ok
            }
        },
        (
            Expression::Sort { expr: e1, asc: s1, nulls_first: f1 },
            Expression::Sort { expr: e2, asc: s2, nulls_first: f2 },
        ) => *s1 == *s2 && *f1 == *f2 && expr_equal(e1, e2),
        (Expression::Wildcard, Expression::Wildcard) => true,
        (
            Expression::Cast { expr: e1, data_type: t1 },
            Expression::Cast { expr: e2, data_type: t2 },
        ) => t1.same_as(t2) && expr_equal(e1, e2),
        _ => false,
    }
}

/// The canonical rendering of a literal inside an expression's display
/// form.
pub open spec fn literal_chars(v: DataValue) -> Seq<char> {
    if v.spec_is_null() {
        "NULL"@
    } else {
        match v {
            DataValue::Boolean(Some(b)) => if b {
                "true"@
            } else {
                "false"@
            },
            DataValue::Int8(Some(x)) => dec_int(x as int),
            DataValue::Int16(Some(x)) => dec_int(x as int),
            DataValue::Int32(Some(x)) => dec_int(x as int),
            DataValue::Int64(Some(x)) => dec_int(x as int),
            DataValue::UInt8(Some(x)) => dec_digits(x as nat),
            DataValue::UInt16(Some(x)) => dec_digits(x as nat),
            DataValue::UInt32(Some(x)) => dec_digits(x as nat),
            DataValue::UInt64(Some(x)) => dec_digits(x as nat),
            DataValue::Utf8(Some(s)) => s@,
            DataValue::Binary(Some(_)) => "Binary"@,
            DataValue::Date32(Some(x)) => dec_int(x as int),
            DataValue::Date64(Some(x)) => dec_int(x as int),
            _ => "List"@,
        }
    }
}

/// The display form of an expression tree, also used as its logical
/// column name.
pub open spec fn expr_chars(e: Expression) -> Seq<char>
    decreases e,
{
    match e {
        Expression::Alias(name, inner) => expr_chars(*inner) + " as "@ + name@,
        Expression::Column(name) => name@,
        Expression::Literal(v) => literal_chars(v),
        Expression::UnaryExpression { op, expr } => "("@ + op@ + " "@ + expr_chars(*expr) + ")"@,
        Expression::BinaryExpression { left, op, right } => "("@ + expr_chars(*left) + " "@ + op@
            + " "@ + expr_chars(*right) + ")"@,
        Expression::ScalarFunction { op, args } => op@ + "("@ + args_chars(args@) + ")"@,
        Expression::AggregateFunction { op, distinct, args } => op@ + "("@ + (if distinct {
            "distinct "@
        } else {
            Seq::<char>::empty()
        }) + args_chars(args@) + ")"@,
        Expression::Sort { expr, asc, nulls_first } => expr_chars(*expr),
        Expression::Wildcard => "*"@,
        Expression::Cast { expr, data_type } => "cast("@ + expr_chars(*expr) + " as "@
            + data_type.type_name_chars() + ")"@,
    }
}

/// The comma-joined display of an argument list.
pub open spec fn args_chars(args: Seq<Expression>) -> Seq<char>
    decreases args,
{
    if args.len() == 0 {
        Seq::empty()
    } else if args.len() == 1 {
        expr_chars(args[0])
    } else {
        args_chars(args.drop_last()) + ", "@ + expr_chars(args.last())
    }
}

/// The logical column name of an expression: an alias stands under its
/// alias name; the zero-argument metadata functions render as a call;
/// everything else renders as its display form.
pub open spec fn column_name_spec(e: Expression) -> Seq<char> {
    match e {
        Expression::Alias(name, _) => name@,
        Expression::ScalarFunction { op, args } => if ci_eq(op@, "database"@) || ci_eq(
            op@,
            "version"@,
        ) {
            op@ + "()"@
        } else {
            expr_chars(e)
        },
        _ => expr_chars(e),
    }
}

/// Renders a literal.
fn literal_to_string(v: &DataValue) -> (r: String)
    ensures
        r@ == literal_chars(*v),
{
    if v.is_null() {
        return "NULL".to_owned();
    }
    match v {
        DataValue::Boolean(Some(b)) => if *b {
            "true".to_owned()
        } else {
            "false".to_owned()
        },
        DataValue::Int8(Some(x)) => i64_to_dec(*x as i64),
        DataValue::Int16(Some(x)) => i64_to_dec(*x as i64),
        DataValue::Int32(Some(x)) => i64_to_dec(*x as i64),
        DataValue::Int64(Some(x)) => i64_to_dec(*x),
        DataValue::UInt8(Some(x)) => u64_to_dec(*x as u64),
        DataValue::UInt16(Some(x)) => u64_to_dec(*x as u64),
        DataValue::UInt32(Some(x)) => u64_to_dec(*x as u64),
        DataValue::UInt64(Some(x)) => u64_to_dec(*x),
        DataValue::Utf8(Some(s)) => s.clone(),
        DataValue::Binary(Some(_)) => "Binary".to_owned(),
        DataValue::Date32(Some(x)) => i64_to_dec(*x as i64),
        DataValue::Date64(Some(x)) => i64_to_dec(*x),
        _ => "List".to_owned(),
    }
}

impl Expression {
    /// Renders the display form of the tree.
    #[verifier::loop_isolation(false)]
    pub fn display_string(&self) -> (r: String)
        ensures
            r@ == expr_chars(*self),
        decreases *self,
    {
        match self {
            Expression::Alias(name, inner) => {
                let mut r = inner.display_string();
                r.push_str(" as ");
                r.push_str(name.as_str());
                r
            },
            Expression::Column(name) => name.clone(),
            Expression::Literal(v) => literal_to_string(v),
            Expression::UnaryExpression { op, expr } => {
                let mut r = "(".to_owned();
                r.push_str(op.as_str());
                r.push_str(" ");
                let inner = expr.display_string();
                r.push_str(inner.as_str());
                r.push_str(")");
                r
            },
            Expression::BinaryExpression { left, op, right } => {
                let mut r = "(".to_owned();
                let ls = left.display_string();
                r.push_str(ls.as_str());
                r.push_str(" ");
                r.push_str(op.as_str());
                r.push_str(" ");
                let rs = right.display_string();
                r.push_str(rs.as_str());
                r.push_str(")");
                r
            },
            Expression::ScalarFunction { op, args } => {
                let mut r = op.clone();
                r.push_str("(");
                let joined = Self::args_string(self, args);
                r.push_str(joined.as_str());
                r.push_str(")");
                r
            },
            Expression::AggregateFunction { op, distinct, args } => {
                let mut r = op.clone();
                r.push_str("(");
                if *distinct {
                    r.push_str("distinct ");
                }
                let joined = Self::args_string(self, args);
                r.push_str(joined.as_str());
                r.push_str(")");
                r
            },
            Expression::Sort { expr, asc, nulls_first } => expr.display_string(),
            Expression::Wildcard => "*".to_owned(),
            Expression::Cast { expr, data_type } => {
                let mut r = "cast(".to_owned();
                let inner = expr.display_string();
                r.push_str(inner.as_str());
                r.push_str(" as ");
                let tn = data_type.display_name();
                r.push_str(tn.as_str());
                r.push_str(")");
                r
            },
        }
    }

    /// Renders a comma-joined argument list of a node's children.
    #[verifier::loop_isolation(false)]
    fn args_string(parent: &Expression, args: &Vec<Expression>) -> (r: String)
        requires
            decreases_to!(*parent => args@),
        ensures
            r@ == args_chars(args@),
        decreases *parent, 0nat,
    {
        let mut r = String::new();
        let n = args.len();
        for i in 0..n
            invariant
                r@ == args_chars(args@.subrange(0, i as int)),
        {
            if i > 0 {
                r.push_str(", ");
            }
            proof {
                assert(decreases_to!(args@ => args@[i as int]));
            }
            let piece = args[i].display_string();
            r.push_str(piece.as_str());
            proof {
                assert(args@.subrange(0, i + 1).drop_last() =~= args@.subrange(0, i as int));
                assert(args@.subrange(0, i + 1).last() == args@[i as int]);
                if i == 0 {
                    assert(args@.subrange(0, 1).len() == 1);
                    assert(args@.subrange(0, 1)[0] == args@[0]);
                }
            }
        }
        proof {
            assert(args@.subrange(0, n as int) =~= args@);
        }
        r
    }

    /// The logical column name: an alias name, a rendered call for the
    /// zero-argument metadata functions, or the display form.
    pub fn column_name(&self) -> (r: String)
        ensures
            r@ == column_name_spec(*self),
    {
        match self {
            Expression::Alias(name, _) => name.clone(),
            Expression::ScalarFunction { op, args } => {
                if ci_equal(op.as_str(), "database") || ci_equal(op.as_str(), "version") {
                    let mut r = op.clone();
                    r.push_str("()");
                    r
                } else {
                    self.display_string()
                }
            },
            _ => self.display_string(),
        }
    }
}



/// Whether every child resolved.
pub open spec fn all_pairs_some(ps: Seq<Option<(DataType, bool)>>) -> bool {
    forall|i: int| 0 <= i < ps.len() ==> (#[trigger] ps[i]) is Some
}

/// The resolved children, once all of them did.
pub open spec fn unwrap_pairs(ps: Seq<Option<(DataType, bool)>>) -> Seq<(DataType, bool)> {
    Seq::new(ps.len(), |i: int| ps[i]->0)
}

/// The aggregate registry key: the operator name, with a distinct
/// suffix where asked.
pub open spec fn agg_key(op: Seq<char>, distinct: bool) -> Seq<char> {
    if distinct {
        op + "Distinct"@
    } else {
        op
    }
}

/// What an aggregate key resolves to over its argument pairs: a row
/// count to a non-null unsigned count; a value aggregate to its
/// argument's type, nullable on empty groups; anything else to
/// nothing.
pub open spec fn agg_resolve(key: Seq<char>, fs: Seq<(DataType, bool)>) -> Option<(
    DataType,
    bool,
)> {
    if ci_eq(key, "count"@) || ci_eq(key, "countdistinct"@) {
        Some((DataType::UInt64, false))
    } else if ci_eq(key, "sum"@) || ci_eq(key, "sumdistinct"@) || ci_eq(key, "min"@) || ci_eq(
        key,
        "mindistinct"@,
    ) || ci_eq(key, "max"@) || ci_eq(key, "maxdistinct"@) {
        if fs.len() >= 1 {
            Some((fs[0].0, true))
        } else {
            None
        }
    } else {
        None
    }
}

/// The resolutions of a list of child expressions.
pub open spec fn args_pairs(
    args: Seq<Expression>,
    fields: Seq<DataField>,
    reg: Seq<FactoryEntry>,
) -> Seq<Option<(DataType, bool)>>
    decreases args, 3nat,
{
    Seq::new(
        args.len(),
        |i: int|
            if 0 <= i < args.len() {
                resolved_pair(args[i], fields, reg)
            } else {
                None
            },
    )
}

/// The function-node step of resolution: the registry entry under the
/// operator name, applied to the resolved argument pairs.
pub open spec fn resolve_call(
    op: Seq<char>,
    fs: Seq<(DataType, bool)>,
    reg: Seq<FactoryEntry>,
) -> Option<(DataType, bool)> {
    let idx = entry_index(reg, op);
    if idx < 0 {
        None
    } else if creator_args_ok(reg[idx].creator, fs) {
        Some((creator_type(reg[idx].creator, fs), creator_nullable(reg[idx].creator, fs)))
    } else {
        None
    }
}

/// The statically resolved result type of a node, or nothing where
/// resolution fails: a missing column, an unknown or misapplied
/// function, a wildcard.
pub open spec fn resolved_type(
    e: Expression,
    fields: Seq<DataField>,
    reg: Seq<FactoryEntry>,
) -> Option<DataType>
    decreases e, 1nat,
{
    match e {
        Expression::Alias(_, inner) => resolved_type(*inner, fields, reg),
        Expression::Column(name) => if field_index(fields, name@) >= 0 {
            Some(fields[field_index(fields, name@)].spec_data_type())
        } else {
            None
        },
        Expression::Literal(v) => Some(v.spec_data_type()),
        Expression::UnaryExpression { op, expr } => (match resolved_pair(*expr, fields, reg) {
            None => None,
            Some(q0) => (match resolve_call(op@, seq![q0], reg) {
                Some(p) => Some(p.0),
                None => None,
            }),
        }),
        Expression::BinaryExpression { left, op, right } => (match (
            resolved_pair(*left, fields, reg),
            resolved_pair(*right, fields, reg),
        ) {
            (Some(q0), Some(q1)) => (match resolve_call(op@, seq![q0, q1], reg) {
                Some(p) => Some(p.0),
                None => None,
            }),
            _ => None,
        }),
        Expression::ScalarFunction { op, args } => {
            let ps = args_pairs(args@, fields, reg);
            if !all_pairs_some(ps) {
                None
            } else {
                match resolve_call(op@, unwrap_pairs(ps), reg) {
                    Some(p) => Some(p.0),
                    None => None,
                }
            }
        },
        Expression::AggregateFunction { op, distinct, args } => {
            let ps = args_pairs(args@, fields, reg);
            if !all_pairs_some(ps) {
                None
            } else {
                match agg_resolve(agg_key(op@, distinct), unwrap_pairs(ps)) {
                    Some(p) => Some(p.0),
                    None => None,
                }
            }
        },
        Expression::Sort { expr, asc, nulls_first } => resolved_type(*expr, fields, reg),
        Expression::Wildcard => None,
        Expression::Cast { expr, data_type } => Some(data_type),
    }
}

/// The statically resolved nullability of a node; a cast keeps its
/// inner expression's.
pub open spec fn resolved_nullable(
    e: Expression,
    fields: Seq<DataField>,
    reg: Seq<FactoryEntry>,
) -> Option<bool>
    decreases e, 1nat,
{
    match e {
        Expression::Alias(_, inner) => resolved_nullable(*inner, fields, reg),
        Expression::Column(name) => if field_index(fields, name@) >= 0 {
            Some(fields[field_index(fields, name@)].spec_nullable())
        } else {
            None
        },
        Expression::Literal(v) => Some(v.spec_is_null()),
        Expression::UnaryExpression { op, expr } => (match resolved_pair(*expr, fields, reg) {
            None => None,
            Some(q0) => (match resolve_call(op@, seq![q0], reg) {
                Some(p) => Some(p.1),
                None => None,
            }),
        }),
        Expression::BinaryExpression { left, op, right } => (match (
            resolved_pair(*left, fields, reg),
            resolved_pair(*right, fields, reg),
        ) {
            (Some(q0), Some(q1)) => (match resolve_call(op@, seq![q0, q1], reg) {
                Some(p) => Some(p.1),
                None => None,
            }),
            _ => None,
        }),
        Expression::ScalarFunction { op, args } => {
            let ps = args_pairs(args@, fields, reg);
            if !all_pairs_some(ps) {
                None
            } else {
                match resolve_call(op@, unwrap_pairs(ps), reg) {
                    Some(p) => Some(p.1),
                    None => None,
                }
            }
        },
        Expression::AggregateFunction { op, distinct, args } => {
            let ps = args_pairs(args@, fields, reg);
            if !all_pairs_some(ps) {
                None
            } else {
                match agg_resolve(agg_key(op@, distinct), unwrap_pairs(ps)) {
                    Some(p) => Some(p.1),
                    None => None,
                }
            }
        },
        Expression::Sort { expr, asc, nulls_first } => resolved_nullable(*expr, fields, reg),
        Expression::Wildcard => None,
        Expression::Cast { expr, data_type } => resolved_nullable(*expr, fields, reg),
    }
}

/// A node's resolved type and nullability together, where both
/// resolve.
pub open spec fn resolved_pair(
    e: Expression,
    fields: Seq<DataField>,
    reg: Seq<FactoryEntry>,
) -> Option<(DataType, bool)>
    decreases e, 2nat,
{
    match (resolved_type(e, fields, reg), resolved_nullable(e, fields, reg)) {
        (Some(t), Some(n)) => Some((t, n)),
        _ => None,
    }
}

/// What an aggregate function statically resolves to.
#[derive(Debug)]
pub struct AggregateFunctionDesc {
    pub return_type: DataType,
    pub nullable: bool,
}

/// The registry of aggregate functions, keyed by name with an optional
/// distinct suffix.
pub struct AggregateFunctionFactory;

impl AggregateFunctionFactory {
    /// Resolves an aggregate function name against its argument
    /// schema, exactly as the aggregate model says: a row count
    /// aggregates to a non-null unsigned count; the value aggregates
    /// keep their argument's type and may be null on empty groups.
    pub fn get(name: &str, fields: Vec<DataField>) -> (res: Result<
        AggregateFunctionDesc,
        ErrorCode,
    >)
        ensures
            (match res {
                Ok(d) => agg_resolve(name@, fields_pairs(fields@)) == Some(
                    (d.return_type, d.nullable),
                ),
                Err(e) => agg_resolve(name@, fields_pairs(fields@)) is None && (e.kind()
                    == ErrorKind::UnknownFunction || e.kind()
                    == ErrorKind::NumberArgumentsNotMatch),
            }),
    {
        if ci_equal(name, "count") || ci_equal(name, "countdistinct") {
            return Ok(AggregateFunctionDesc { return_type: DataType::UInt64, nullable: false });
        }
        let known = ci_equal(name, "sum") || ci_equal(name, "sumdistinct") || ci_equal(name, "min")
            || ci_equal(name, "mindistinct") || ci_equal(name, "max") || ci_equal(
            name,
            "maxdistinct",
        );
        if !known {
            return Err(
                ErrorCode::unknown_function(
                    "no aggregate function is registered under this name".to_owned(),
                ),
            );
        }
        if fields.len() < 1 {
            return Err(
                ErrorCode::number_arguments_not_match(
                    "this aggregate function takes one argument".to_owned(),
                ),
            );
        }
        let d = AggregateFunctionDesc {
            return_type: fields[0].data_type().duplicate(),
            nullable: true,
        };
        proof {
            assert(fields_pairs(fields@)[0].0 == fields@[0].spec_data_type());
        }
        Ok(d)
    }
}

impl Expression {
    /// Statically resolves the node's result type by a bottom-up walk,
    /// consulting the function registry at operator and function
    /// nodes, exactly as the resolution model says. A wildcard has no
    /// type; a cast is typed by its target regardless of its inner
    /// expression.
    #[verifier::loop_isolation(false)]
    pub fn to_data_type(&self, input_schema: &DataSchema, factory: &FunctionFactory) -> (res:
        Result<DataType, ErrorCode>)
        ensures
            (match res {
                Ok(t) => resolved_type(*self, input_schema.spec_fields(), factory@) == Some(t),
                Err(e) => resolved_type(*self, input_schema.spec_fields(), factory@) is None && (
                *self is Wildcard ==> e.kind() == ErrorKind::IllegalDataType),
            }),
        decreases *self, 1nat,
    {
        let ghost fields = input_schema.spec_fields();
        let ghost reg = factory@;
        match self {
            Expression::Alias(_, expr) => expr.to_data_type(input_schema, factory),
            Expression::Column(name) => match input_schema.field_with_name(name) {
                Some(f) => Ok(f.data_type().duplicate()),
                None => Err(
                    ErrorCode::bad_arguments("the schema has no field under that name".to_owned()),
                ),
            },
            Expression::Literal(v) => Ok(v.data_type()),
            Expression::UnaryExpression { op, expr } => {
                proof {
                    assert(decreases_to!(*self => *expr));
                }
                let f0 = match expr.to_data_field(input_schema, factory) {
                    Ok(f) => f,
                    Err(e) => {
                        return Err(e);
                    },
                };
                let ghost q0 = (f0.spec_data_type(), f0.spec_nullable());
                let mut arg_fields: Vec<DataField> = Vec::new();
                arg_fields.push(f0);
                proof {
                    assert(fields_pairs(arg_fields@) =~= seq![q0]);
                }
                let func = match factory.get(op.as_str(), arg_fields) {
                    Ok(f) => f,
                    Err(e) => {
                        return Err(e);
                    },
                };
                func.return_type()
            },
            Expression::BinaryExpression { left, op, right } => {
                proof {
                    assert(decreases_to!(*self => *left));
                    assert(decreases_to!(*self => *right));
                }
                let f0 = match left.to_data_field(input_schema, factory) {
                    Ok(f) => f,
                    Err(e) => {
                        return Err(e);
                    },
                };
                let f1 = match right.to_data_field(input_schema, factory) {
                    Ok(f) => f,
                    Err(e) => {
                        return Err(e);
                    },
                };
                let ghost q0 = (f0.spec_data_type(), f0.spec_nullable());
                let ghost q1 = (f1.spec_data_type(), f1.spec_nullable());
                let mut arg_fields: Vec<DataField> = Vec::new();
                arg_fields.push(f0);
                arg_fields.push(f1);
                proof {
                    assert(fields_pairs(arg_fields@) =~= seq![q0, q1]);
                }
                let func = match factory.get(op.as_str(), arg_fields) {
                    Ok(f) => f,
                    Err(e) => {
                        return Err(e);
                    },
                };
                func.return_type()
            },
            Expression::ScalarFunction { op, args } => {
                let ghost ps = args_pairs(args@, fields, reg);
                let mut arg_fields: Vec<DataField> = Vec::new();
                let n = args.len();
                for i in 0..n
                    invariant
                        arg_fields@.len() == i,
                        forall|j: int|
                            0 <= j < i ==> ps[j] == Some(
                                (
                                    (#[trigger] arg_fields@[j]).spec_data_type(),
                                    arg_fields@[j].spec_nullable(),
                                ),
                            ),
                {
                    proof {
                        assert(decreases_to!(*self => args@[i as int]));
                        assert(ps[i as int] == resolved_pair(args@[i as int], fields, reg));
                    }
                    let f0 = match args[i].to_data_field(input_schema, factory) {
                        Ok(f) => f,
                        Err(e) => {
                            proof {
                                assert(ps[i as int] is None);
                                assert(!all_pairs_some(ps));
                            }
                            return Err(e);
                        },
                    };
                    arg_fields.push(f0);
                }
                proof {
                    assert forall|j: int| 0 <= j < ps.len() implies (#[trigger] ps[j]) is Some by {
                        assert(ps[j] == Some(
                            (arg_fields@[j].spec_data_type(), arg_fields@[j].spec_nullable()),
                        ));
                    }
                    assert forall|j: int| 0 <= j < ps.len() implies #[trigger] unwrap_pairs(ps)[j]
                        == fields_pairs(arg_fields@)[j] by {
                        assert(ps[j] == Some(
                            (arg_fields@[j].spec_data_type(), arg_fields@[j].spec_nullable()),
                        ));
                    }
                    assert(unwrap_pairs(ps) =~= fields_pairs(arg_fields@));
                }
                let func = match factory.get(op.as_str(), arg_fields) {
                    Ok(f) => f,
                    Err(e) => {
                        return Err(e);
                    },
                };
                func.return_type()
            },
            Expression::AggregateFunction { op, distinct, args } => {
                let desc = match self.to_aggregate_function(input_schema, factory) {
                    Ok(d) => d,
                    Err(e) => {
                        return Err(e);
                    },
                };
                Ok(desc.return_type)
            },
            Expression::Sort { expr, asc, nulls_first } => expr.to_data_type(
                input_schema,
                factory,
            ),
            Expression::Wildcard => Err(
                ErrorCode::illegal_data_type(
                    "a wildcard expression has no result type".to_owned(),
                ),
            ),
            Expression::Cast { expr, data_type } => Ok(data_type.duplicate()),
        }
    }

    /// Statically resolves the node's nullability by the same walk,
    /// exactly as the resolution model says; a cast keeps its inner
    /// expression's nullability.
    #[verifier::loop_isolation(false)]
    pub fn nullable(&self, input_schema: &DataSchema, factory: &FunctionFactory) -> (res: Result<
        bool,
        ErrorCode,
    >)
        ensures
            (match res {
                Ok(n) => resolved_nullable(*self, input_schema.spec_fields(), factory@) == Some(n),
                Err(e) => resolved_nullable(*self, input_schema.spec_fields(), factory@) is None
                    && (*self is Wildcard ==> e.kind() == ErrorKind::IllegalDataType),
            }),
        decreases *self, 1nat,
    {
        let ghost fields = input_schema.spec_fields();
        let ghost reg = factory@;
        match self {
            Expression::Alias(_, expr) => expr.nullable(input_schema, factory),
            Expression::Column(name) => match input_schema.field_with_name(name) {
                Some(f) => Ok(f.is_nullable()),
                None => Err(
                    ErrorCode::bad_arguments("the schema has no field under that name".to_owned()),
                ),
            },
            Expression::Literal(v) => Ok(v.is_null()),
            Expression::UnaryExpression { op, expr } => {
                proof {
                    assert(decreases_to!(*self => *expr));
                }
                let f0 = match expr.to_data_field(input_schema, factory) {
                    Ok(f) => f,
                    Err(e) => {
                        return Err(e);
                    },
                };
                let ghost q0 = (f0.spec_data_type(), f0.spec_nullable());
                let mut arg_fields: Vec<DataField> = Vec::new();
                arg_fields.push(f0);
                proof {
                    assert(fields_pairs(arg_fields@) =~= seq![q0]);
                }
                let func = match factory.get(op.as_str(), arg_fields) {
                    Ok(f) => f,
                    Err(e) => {
                        return Err(e);
                    },
                };
                func.nullable()
            },
            Expression::BinaryExpression { left, op, right } => {
                proof {
                    assert(decreases_to!(*self => *left));
                    assert(decreases_to!(*self => *right));
                }
                let f0 = match left.to_data_field(input_schema, factory) {
                    Ok(f) => f,
                    Err(e) => {
                        return Err(e);
                    },
                };
                let f1 = match right.to_data_field(input_schema, factory) {
                    Ok(f) => f,
                    Err(e) => {
                        return Err(e);
                    },
                };
                let ghost q0 = (f0.spec_data_type(), f0.spec_nullable());
                let ghost q1 = (f1.spec_data_type(), f1.spec_nullable());
                let mut arg_fields: Vec<DataField> = Vec::new();
                arg_fields.push(f0);
                arg_fields.push(f1);
                proof {
                    assert(fields_pairs(arg_fields@) =~= seq![q0, q1]);
                }
                let func = match factory.get(op.as_str(), arg_fields) {
                    Ok(f) => f,
                    Err(e) => {
                        return Err(e);
                    },
                };
                func.nullable()
            },
            Expression::ScalarFunction { op, args } => {
                let ghost ps = args_pairs(args@, fields, reg);
                let mut arg_fields: Vec<DataField> = Vec::new();
                let n = args.len();
                for i in 0..n
                    invariant
                        arg_fields@.len() == i,
                        forall|j: int|
                            0 <= j < i ==> ps[j] == Some(
                                (
                                    (#[trigger] arg_fields@[j]).spec_data_type(),
                                    arg_fields@[j].spec_nullable(),
                                ),
                            ),
                {
                    proof {
                        assert(decreases_to!(*self => args@[i as int]));
                        assert(ps[i as int] == resolved_pair(args@[i as int], fields, reg));
                    }
                    let f0 = match args[i].to_data_field(input_schema, factory) {
                        Ok(f) => f,
                        Err(e) => {
                            proof {
                                assert(ps[i as int] is None);
                                assert(!all_pairs_some(ps));
                            }
                            return Err(e);
                        },
                    };
                    arg_fields.push(f0);
                }
                proof {
                    assert forall|j: int| 0 <= j < ps.len() implies (#[trigger] ps[j]) is Some by {
                        assert(ps[j] == Some(
                            (arg_fields@[j].spec_data_type(), arg_fields@[j].spec_nullable()),
                        ));
                    }
                    assert forall|j: int| 0 <= j < ps.len() implies #[trigger] unwrap_pairs(ps)[j]
                        == fields_pairs(arg_fields@)[j] by {
                        assert(ps[j] == Some(
                            (arg_fields@[j].spec_data_type(), arg_fields@[j].spec_nullable()),
                        ));
                    }
                    assert(unwrap_pairs(ps) =~= fields_pairs(arg_fields@));
                }
                let func = match factory.get(op.as_str(), arg_fields) {
                    Ok(f) => f,
                    Err(e) => {
                        return Err(e);
                    },
                };
                func.nullable()
            },
            Expression::AggregateFunction { .. } => {
                let desc = match self.to_aggregate_function(input_schema, factory) {
                    Ok(d) => d,
                    Err(e) => {
                        return Err(e);
                    },
                };
                Ok(desc.nullable)
            },
            Expression::Sort { expr, asc, nulls_first } => expr.nullable(input_schema, factory),
            Expression::Wildcard => Err(
                ErrorCode::illegal_data_type(
                    "a wildcard expression has no nullability".to_owned(),
                ),
            ),
            Expression::Cast { expr, data_type } => expr.nullable(input_schema, factory),
        }
    }

    /// Resolves the node into a schema field: its logical column name,
    /// result type and nullability.
    pub fn to_data_field(&self, input_schema: &DataSchema, factory: &FunctionFactory) -> (res:
        Result<DataField, ErrorCode>)
        ensures
            (match res {
                Ok(f) => f.spec_name() == column_name_spec(*self) && resolved_pair(
                    *self,
                    input_schema.spec_fields(),
                    factory@,
                ) == Some((f.spec_data_type(), f.spec_nullable())),
                Err(_) => resolved_pair(*self, input_schema.spec_fields(), factory@) is None,
            }),
        decreases *self, 2nat,
    {
        let name = self.column_name();
        let t = match self.to_data_type(input_schema, factory) {
            Ok(t) => t,
            Err(e) => {
                return Err(e);
            },
        };
        let n = match self.nullable(input_schema, factory) {
            Ok(n) => n,
            Err(e) => {
                return Err(e);
            },
        };
        Ok(DataField::new(name.as_str(), t, n))
    }

    /// Resolves an aggregate node through the aggregate registry, keyed
    /// by the operator name with a distinct suffix, exactly as the
    /// aggregate model says. Any other node is a `LogicalError`.
    #[verifier::loop_isolation(false)]
    pub fn to_aggregate_function(&self, schema: &DataSchema, factory: &FunctionFactory) -> (res:
        Result<AggregateFunctionDesc, ErrorCode>)
        ensures
            (match res {
                Ok(d) => *self is AggregateFunction && resolved_type(
                    *self,
                    schema.spec_fields(),
                    factory@,
                ) == Some(d.return_type) && resolved_nullable(
                    *self,
                    schema.spec_fields(),
                    factory@,
                ) == Some(d.nullable),
                Err(e) => if *self is AggregateFunction {
                    resolved_type(*self, schema.spec_fields(), factory@) is None
                } else {
                    e.kind() == ErrorKind::LogicalError
                },
            }),
        decreases *self, 0nat,
    {
        let ghost fields = schema.spec_fields();
        let ghost reg = factory@;
        match self {
            Expression::AggregateFunction { op, distinct, args } => {
                let mut func_name = op.clone();
                if *distinct {
                    func_name.push_str("Distinct");
                }
                proof {
                    assert(func_name@ == agg_key(op@, *distinct));
                }
                let ghost ps = args_pairs(args@, fields, reg);
                let mut arg_fields: Vec<DataField> = Vec::new();
                let n = args.len();
                for i in 0..n
                    invariant
                        arg_fields@.len() == i,
                        forall|j: int|
                            0 <= j < i ==> ps[j] == Some(
                                (
                                    (#[trigger] arg_fields@[j]).spec_data_type(),
                                    arg_fields@[j].spec_nullable(),
                                ),
                            ),
                {
                    proof {
                        assert(decreases_to!(*self => args@[i as int]));
                        assert(ps[i as int] == resolved_pair(args@[i as int], fields, reg));
                    }
                    let f0 = match args[i].to_data_field(schema, factory) {
                        Ok(f) => f,
                        Err(e) => {
                            proof {
                                assert(ps[i as int] is None);
                                assert(!all_pairs_some(ps));
                            }
                            return Err(e);
                        },
                    };
                    arg_fields.push(f0);
                }
                proof {
                    assert forall|j: int| 0 <= j < ps.len() implies (#[trigger] ps[j]) is Some by {
                        assert(ps[j] == Some(
                            (arg_fields@[j].spec_data_type(), arg_fields@[j].spec_nullable()),
                        ));
                    }
                    assert forall|j: int| 0 <= j < ps.len() implies #[trigger] unwrap_pairs(ps)[j]
                        == fields_pairs(arg_fields@)[j] by {
                        assert(ps[j] == Some(
                            (arg_fields@[j].spec_data_type(), arg_fields@[j].spec_nullable()),
                        ));
                    }
                    assert(unwrap_pairs(ps) =~= fields_pairs(arg_fields@));
                }
                AggregateFunctionFactory::get(func_name.as_str(), arg_fields)
            },
            _ => Err(
                ErrorCode::logical_error(
                    "only an aggregate node resolves through the aggregate registry".to_owned(),
                ),
            ),
        }
    }

    /// The logical column names of an aggregate node's arguments.
    #[verifier::loop_isolation(false)]
    pub fn to_aggregate_function_names(&self) -> (res: Result<Vec<String>, ErrorCode>)
        ensures
            (match res {
                Ok(names) => (*self matches Expression::AggregateFunction { op: _, distinct: _, args }
                    && names@.len() == args@.len() && (forall|i: int|
                    0 <= i < names@.len() ==> (#[trigger] names@[i])@ == column_name_spec(
                        args@[i],
                    ))),
                Err(e) => !(*self is AggregateFunction) && e.kind() == ErrorKind::LogicalError,
            }),
    {
        match self {
            Expression::AggregateFunction { op, distinct, args } => {
                let mut names: Vec<String> = Vec::new();
                let n = args.len();
                for i in 0..n
                    invariant
                        names@.len() == i,
                        forall|j: int|
                            0 <= j < i ==> (#[trigger] names@[j])@ == column_name_spec(args@[j]),
                {
                    names.push(args[i].column_name());
                }
                Ok(names)
            },
            _ => Err(
                ErrorCode::logical_error(
                    "only an aggregate node has aggregate argument names".to_owned(),
                ),
            ),
        }
    }
}

} // verus!
