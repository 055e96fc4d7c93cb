//! Tree rewriting: one generic pre-order traversal rebuilds an
//! expression applying a node-level substitution rule; a replaced node
//! is not descended into. The single primitive carries wildcard
//! expansion, alias resolution, rebasing onto upstream columns and
//! alias unwrapping.

use vstd::prelude::*;

use crate::error::ErrorCode;
use crate::error::ErrorKind;
use crate::expression::column_name_spec;
use crate::expression::expr_eq;
use crate::expression::expr_equal;
use crate::expression::Expression;
use crate::schema::field_index;
use crate::schema::DataSchema;
use crate::values::DataValue;

verus! {

/// The closed set of node-level substitution rules.
pub enum ReplacementRule<'a> {
    /// Turn any subtree equal to one of the base expressions into a
    /// plain column reference under its logical name.
    Rebase(&'a Vec<Expression>),
    /// Turn any subtree (but sorts, columns and aliases, which are
    /// descended into) whose logical name an upstream schema already
    /// holds into a plain column reference.
    FromInput(&'a DataSchema),
    /// Replace column references that name an alias by the aliased
    /// expression.
    Aliases(&'a Vec<(String, Expression)>),
    /// Replace an alias node by its inner expression.
    UnwrapAlias,
}

/// The position of the first alias binding under a name.
pub open spec fn alias_index(map: Seq<(String, Expression)>, name: Seq<char>) -> int
    decreases map.len(),
{
    if map.len() == 0 {
        -1
    } else if map[0].0@ == name {
        0
    } else {
        let r = alias_index(map.skip(1), name);
        if r < 0 {
            -1
        } else {
            r + 1
        }
    }
}

proof fn lemma_alias_index_valid(map: Seq<(String, Expression)>, name: Seq<char>)
    ensures
        alias_index(map, name) >= 0 ==> 0 <= alias_index(map, name) < map.len() && map[alias_index(
            map,
            name,
        )].0@ == name,
    decreases map.len(),
{
    if map.len() > 0 && map[0].0@ != name {
        lemma_alias_index_valid(map.skip(1), name);
    }
}

proof fn lemma_alias_index_first(map: Seq<(String, Expression)>, name: Seq<char>, i: int)
    requires
        0 <= i <= map.len(),
        forall|j: int| 0 <= j < i ==> (#[trigger] map[j]).0@ != name,
    ensures
        i < map.len() && map[i].0@ == name ==> alias_index(map, name) == i,
    decreases map.len(),
{
    if map.len() > 0 {
        if map[0].0@ == name {
        } else {
            lemma_alias_index_first(map.skip(1), name, if i > 0 {
                i - 1
            } else {
                0
            });
            assert(forall|j: int|
                0 <= j < i - 1 ==> (#[trigger] map.skip(1)[j]).0@ == map[j + 1].0@);
        }
    }
}

/// Whether the rule fires at this node.
pub open spec fn rule_matches(rule: ReplacementRule<'_>, e: Expression) -> bool {
    match rule {
        ReplacementRule::Rebase(base) => exists|i: int|
            0 <= i < base@.len() && expr_eq(#[trigger] base@[i], e),
        ReplacementRule::FromInput(schema) => !(e is Sort) && !(e is Column) && !(e is Alias)
            && field_index(schema.spec_fields(), column_name_spec(e)) >= 0,
        ReplacementRule::Aliases(map) => (e matches Expression::Column(name) && alias_index(
            map@,
            name@,
        ) >= 0),
        ReplacementRule::UnwrapAlias => e is Alias,
    }
}

/// What the replacement of one matched node must be.
pub open spec fn replacement_ok(rule: ReplacementRule<'_>, e: Expression, out: Expression) -> bool {
    match rule {
        ReplacementRule::Rebase(_) | ReplacementRule::FromInput(_) => if e is Column {
            expr_eq(out, e)
        } else {
            out matches Expression::Column(name) && name@ == column_name_spec(e)
        },
        ReplacementRule::Aliases(map) => (e matches Expression::Column(name) && expr_eq(
            out,
            map@[alias_index(map@, name@)].1,
        )),
        ReplacementRule::UnwrapAlias => (e matches Expression::Alias(_, inner) && expr_eq(
            out,
            *inner,
        )),
    }
}

/// What the rewritten tree must be: a matched node is its replacement
/// and is not descended into; any other node keeps its shape with
/// every child rewritten.
pub open spec fn rewrite_ok(rule: ReplacementRule<'_>, e: Expression, out: Expression) -> bool
    decreases e,
{
    if rule_matches(rule, e) {
        replacement_ok(rule, e, out)
    } else {
        match e {
            Expression::Alias(name, inner) => (out matches Expression::Alias(n2, i2) && n2@
                == name@ && rewrite_ok(rule, *inner, *i2)),
            Expression::Column(name) => (out matches Expression::Column(n2) && n2@ == name@),
            Expression::Literal(v) => (out matches Expression::Literal(v2) && crate::values::dv_eq(
                v2,
                v,
            )),
            Expression::UnaryExpression { op, expr } => (out matches Expression::UnaryExpression {
                op: o2,
                expr: e2,
            } && o2@ == op@ && rewrite_ok(rule, *expr, *e2)),
            Expression::BinaryExpression { left, op, right } => (out
                matches Expression::BinaryExpression { left: l2, op: o2, right: r2 } && o2@ == op@
                && rewrite_ok(rule, *left, *l2) && rewrite_ok(rule, *right, *r2)),
            Expression::ScalarFunction { op, args } => (out matches Expression::ScalarFunction {
                op: o2,
                args: a2,
            } && o2@ == op@ && a2@.len() == args@.len() && (forall|i: int|
                0 <= i < args@.len() ==> rewrite_ok(rule, #[trigger] args@[i], a2@[i]))),
            Expression::AggregateFunction { op, distinct, args } => (out
                matches Expression::AggregateFunction { op: o2, distinct: d2, args: a2 } && o2@
                == op@ && d2 == distinct && a2@.len() == args@.len() && (forall|i: int|
                0 <= i < args@.len() ==> rewrite_ok(rule, #[trigger] args@[i], a2@[i]))),
            Expression::Sort { expr, asc, nulls_first } => (out matches Expression::Sort {
                expr: e2,
                asc: s2,
                nulls_first: f2,
            } && s2 == asc && f2 == nulls_first && rewrite_ok(rule, *expr, *e2)),
            Expression::Wildcard => out is Wildcard,
            Expression::Cast { expr, data_type } => (out matches Expression::Cast {
                expr: e2,
                data_type: t2,
            } && t2 == data_type && rewrite_ok(rule, *expr, *e2)),
        }
    }
}

impl Expression {
    /// An exec deep copy, structurally equal to the source.
    #[verifier::loop_isolation(false)]
    pub fn duplicate(&self) -> (r: Expression)
        ensures
            expr_eq(r, *self),
        decreases *self,
    {
        match self {
            Expression::Alias(name, inner) => Expression::Alias(
                name.clone(),
                Box::new(inner.duplicate()),
            ),
            Expression::Column(name) => Expression::Column(name.clone()),
            Expression::Literal(v) => Expression::Literal(v.duplicate()),
            Expression::UnaryExpression { op, expr } => Expression::UnaryExpression {
                op: op.clone(),
                expr: Box::new(expr.duplicate()),
            },
            Expression::BinaryExpression { left, op, right } => Expression::BinaryExpression {
                left: Box::new(left.duplicate()),
                op: op.clone(),
                right: Box::new(right.duplicate()),
            },
            Expression::ScalarFunction { op, args } => {
                let mut out_args: Vec<Expression> = Vec::new();
                let n = args.len();
                for i in 0..n
                    invariant
                        out_args@.len() == i,
                        forall|j: int| 0 <= j < i ==> expr_eq(#[trigger] out_args@[j], args@[j]),
                {
                    proof {
                        assert(decreases_to!(*self => args@[i as int]));
                    }
                    out_args.push(args[i].duplicate());
                }
                Expression::ScalarFunction { op: op.clone(), args: out_args }
            },
            Expression::AggregateFunction { op, distinct, args } => {
                let mut out_args: Vec<Expression> = Vec::new();
                let n = args.len();
                for i in 0..n
                    invariant
                        out_args@.len() == i,
                        forall|j: int| 0 <= j < i ==> expr_eq(#[trigger] out_args@[j], args@[j]),
                {
                    proof {
                        assert(decreases_to!(*self => args@[i as int]));
                    }
                    out_args.push(args[i].duplicate());
                }
                Expression::AggregateFunction {
                    op: op.clone(),
                    distinct: *distinct,
                    args: out_args,
                }
            },
            Expression::Sort { expr, asc, nulls_first } => Expression::Sort {
                expr: Box::new(expr.duplicate()),
                asc: *asc,
                nulls_first: *nulls_first,
            },
            Expression::Wildcard => Expression::Wildcard,
            Expression::Cast { expr, data_type } => Expression::Cast {
                expr: Box::new(expr.duplicate()),
                data_type: data_type.duplicate(),
            },
        }
    }
}

/// Converts any expression to a plain column reference under its
/// logical name; a column reference is kept as it stands.
pub fn expr_as_column_expr(expr: &Expression) -> (res: Result<Expression, ErrorCode>)
    ensures
        (match res {
            Ok(out) => if *expr is Column {
                expr_eq(out, *expr)
            } else {
                out matches Expression::Column(name) && name@ == column_name_spec(*expr)
            },
            Err(_) => false,
        }),
{
    match expr {
        Expression::Column(_) => Ok(expr.duplicate()),
        _ => Ok(Expression::Column(expr.column_name())),
    }
}

/// Whether the rule fires at this node, decided at run time.
#[verifier::loop_isolation(false)]
fn rule_fires(rule: &ReplacementRule<'_>, e: &Expression) -> (r: bool)
    ensures
        r == rule_matches(*rule, *e),
{
    match rule {
        ReplacementRule::Rebase(base) => {
            let n = base.len();
            for i in 0..n
                invariant
                    forall|j: int| 0 <= j < i ==> !expr_eq(#[trigger] base@[j], *e),
            {
                if expr_equal(&base[i], e) {
                    return true;
                }
            }
            false
        },
        ReplacementRule::FromInput(schema) => {
            if matches!(e, Expression::Sort { .. }) || matches!(e, Expression::Column(_))
                || matches!(e, Expression::Alias(_, _)) {
                return false;
            }
            let name = e.column_name();
            match schema.index_of(&name) {
                Some(_) => true,
                None => false,
            }
        },
        ReplacementRule::Aliases(map) => {
            match e {
                Expression::Column(name) => {
                    let n = map.len();
                    for i in 0..n
                        invariant
                            forall|j: int| 0 <= j < i ==> (#[trigger] map@[j]).0@ != name@,
                    {
                        if map[i].0.eq(name) {
                            proof {
                                lemma_alias_index_first(map@, name@, i as int);
                            }
                            return true;
                        }
                    }
                    proof {
                        lemma_alias_index_valid(map@, name@);
                    }
                    false
                },
                _ => false,
            }
        },
        ReplacementRule::UnwrapAlias => matches!(e, Expression::Alias(_, _)),
    }
}

/// The replacement for one matched node.
#[verifier::loop_isolation(false)]
fn rule_replace(rule: &ReplacementRule<'_>, e: &Expression) -> (res: Result<Expression, ErrorCode>)
    requires
        rule_matches(*rule, *e),
    ensures
        (match res {
            Ok(out) => replacement_ok(*rule, *e, out),
            Err(_) => false,
        }),
{
    match rule {
        ReplacementRule::Rebase(_) => expr_as_column_expr(e),
        ReplacementRule::FromInput(_) => expr_as_column_expr(e),
        ReplacementRule::Aliases(map) => {
            match e {
                Expression::Column(name) => {
                    let n = map.len();
                    for i in 0..n
                        invariant
                            forall|j: int| 0 <= j < i ==> (#[trigger] map@[j]).0@ != name@,
                    {
                        if map[i].0.eq(name) {
                            proof {
                                lemma_alias_index_first(map@, name@, i as int);
                            }
                            return Ok(map[i].1.duplicate());
                        }
                    }
                    proof {
                        lemma_alias_index_valid(map@, name@);
                        assert(false);
                    }
                    Err(ErrorCode::logical_error("a branch the preconditions rule out".to_owned()))
                },
                _ => {
                    proof {
                        assert(false);
                    }
                    Err(ErrorCode::logical_error("a branch the preconditions rule out".to_owned()))
                },
            }
        },
        ReplacementRule::UnwrapAlias => {
            match e {
                Expression::Alias(_, inner) => Ok(inner.duplicate()),
                _ => {
                    proof {
                        assert(false);
                    }
                    Err(ErrorCode::logical_error("a branch the preconditions rule out".to_owned()))
                },
            }
        },
    }
}

/// Rebuilds an expression tree applying the substitution rule at every
/// node, in pre-order: a replaced node's children are not rewritten.
#[verifier::loop_isolation(false)]
pub fn clone_with_replacement(expr: &Expression, rule: &ReplacementRule<'_>) -> (res: Result<
    Expression,
    ErrorCode,
>)
    ensures
        (match res {
            Ok(out) => rewrite_ok(*rule, *expr, out),
            Err(_) => false,
        }),
    decreases *expr,
{
    if rule_fires(rule, expr) {
        return rule_replace(rule, expr);
    }
    match expr {
        Expression::Alias(name, inner) => {
            let i2 = clone_with_replacement(inner, rule)?;
            Ok(Expression::Alias(name.clone(), Box::new(i2)))
        },
        Expression::Column(name) => Ok(Expression::Column(name.clone())),
        Expression::Literal(v) => Ok(Expression::Literal(v.duplicate())),
        Expression::UnaryExpression { op, expr: inner } => {
            let i2 = clone_with_replacement(inner, rule)?;
            Ok(Expression::UnaryExpression { op: op.clone(), expr: Box::new(i2) })
        },
        Expression::BinaryExpression { left, op, right } => {
            let l2 = clone_with_replacement(left, rule)?;
            let r2 = clone_with_replacement(right, rule)?;
            Ok(
                Expression::BinaryExpression {
                    left: Box::new(l2),
                    op: op.clone(),
                    right: Box::new(r2),
                },
            )
        },
        Expression::ScalarFunction { op, args } => {
            let mut out_args: Vec<Expression> = Vec::new();
            let n = args.len();
            for i in 0..n
                invariant
                    out_args@.len() == i,
                    forall|j: int|
                        0 <= j < i ==> rewrite_ok(*rule, #[trigger] args@[j], out_args@[j]),
            {
                proof {
                    assert(decreases_to!(*expr => args@[i as int]));
                }
                let a2 = clone_with_replacement(&args[i], rule)?;
                out_args.push(a2);
            }
            Ok(Expression::ScalarFunction { op: op.clone(), args: out_args })
        },
        Expression::AggregateFunction { op, distinct, args } => {
            let mut out_args: Vec<Expression> = Vec::new();
            let n = args.len();
            for i in 0..n
                invariant
                    out_args@.len() == i,
                    forall|j: int|
                        0 <= j < i ==> rewrite_ok(*rule, #[trigger] args@[j], out_args@[j]),
            {
                proof {
                    assert(decreases_to!(*expr => args@[i as int]));
                }
                let a2 = clone_with_replacement(&args[i], rule)?;
                out_args.push(a2);
            }
            Ok(
                Expression::AggregateFunction {
                    op: op.clone(),
                    distinct: *distinct,
                    args: out_args,
                },
            )
        },
        Expression::Sort { expr: inner, asc, nulls_first } => {
            let i2 = clone_with_replacement(inner, rule)?;
            Ok(Expression::Sort { expr: Box::new(i2), asc: *asc, nulls_first: *nulls_first })
        },
        Expression::Wildcard => Ok(Expression::Wildcard),
        Expression::Cast { expr: inner, data_type } => {
            let i2 = clone_with_replacement(inner, rule)?;
            Ok(Expression::Cast { expr: Box::new(i2), data_type: data_type.duplicate() })
        },
    }
}

/// Rebuilds an expression as a projection on top of already computed
/// base expressions: any subtree that equals one of them becomes a
/// plain column reference.
pub fn rebase_expr(expr: &Expression, base_exprs: &Vec<Expression>) -> (res: Result<
    Expression,
    ErrorCode,
>)
    ensures
        (match res {
            Ok(out) => rewrite_ok(ReplacementRule::Rebase(base_exprs), *expr, out),
            Err(_) => false,
        }),
{
    let rule = ReplacementRule::Rebase(base_exprs);
    clone_with_replacement(expr, &rule)
}

/// Every subtree already computed upstream (but sorts, columns and
/// aliases) becomes a plain column reference against that schema.
pub fn rebase_expr_from_input(expr: &Expression, schema: &DataSchema) -> (res: Result<
    Expression,
    ErrorCode,
>)
    ensures
        (match res {
            Ok(out) => rewrite_ok(ReplacementRule::FromInput(schema), *expr, out),
            Err(_) => false,
        }),
{
    let rule = ReplacementRule::FromInput(schema);
    clone_with_replacement(expr, &rule)
}

/// Column references that name an alias become the aliased expression.
pub fn resolve_aliases_to_exprs(expr: &Expression, aliases: &Vec<(String, Expression)>) -> (res:
    Result<Expression, ErrorCode>)
    ensures
        (match res {
            Ok(out) => rewrite_ok(ReplacementRule::Aliases(aliases), *expr, out),
            Err(_) => false,
        }),
{
    let rule = ReplacementRule::Aliases(aliases);
    clone_with_replacement(expr, &rule)
}

/// Alias nodes give way to their inner expressions.
pub fn unwrap_alias_exprs(expr: &Expression) -> (res: Result<Expression, ErrorCode>)
    ensures
        (match res {
            Ok(out) => rewrite_ok(ReplacementRule::UnwrapAlias, *expr, out),
            Err(_) => false,
        }),
{
    clone_with_replacement(expr, &ReplacementRule::UnwrapAlias)
}

/// An exec deep copy of a list of expressions.
#[verifier::loop_isolation(false)]
pub fn duplicate_exprs(exprs: &Vec<Expression>) -> (out: Vec<Expression>)
    ensures
        out@.len() == exprs@.len(),
        forall|i: int| 0 <= i < exprs@.len() ==> expr_eq(#[trigger] out@[i], exprs@[i]),
{
    let mut out: Vec<Expression> = Vec::new();
    let n = exprs.len();
    for i in 0..n
        invariant
            n == exprs@.len(),
            out@.len() == i,
            forall|j: int| 0 <= j < i ==> expr_eq(#[trigger] out@[j], exprs@[j]),
    {
        out.push(exprs[i].duplicate());
    }
    out
}




/// Which node shapes the deep finder collects.
#[derive(Clone, Copy, PartialEq, Eq, Structural, Debug)]
pub enum FindTarget {
    Aggregates,
    Columns,
}

/// Whether a node is of the collected shape.
pub open spec fn target_matches(t: FindTarget, e: Expression) -> bool {
    match t {
        FindTarget::Aggregates => e is AggregateFunction,
        FindTarget::Columns => e is Column,
    }
}

fn target_fires(t: FindTarget, e: &Expression) -> (r: bool)
    ensures
        r == target_matches(t, *e),
{
    match t {
        FindTarget::Aggregates => matches!(e, Expression::AggregateFunction { .. }),
        FindTarget::Columns => matches!(e, Expression::Column(_)),
    }
}

/// The topmost matching subtrees of one tree, in pre-order: the
/// descent stops at a match, so matches nested inside a found subtree
/// are not listed.
pub open spec fn found_in(t: FindTarget, e: Expression) -> Seq<Expression>
    decreases e, 0int,
{
    if target_matches(t, e) {
        seq![e]
    } else {
        match e {
            Expression::Alias(_, inner) => found_in(t, *inner),
            Expression::Column(_) => Seq::empty(),
            Expression::Literal(_) => Seq::empty(),
            Expression::UnaryExpression { op, expr } => found_in(t, *expr),
            Expression::BinaryExpression { left, op, right } => found_in(t, *left) + found_in(
                t,
                *right,
            ),
            Expression::ScalarFunction { op, args } => found_in_args(t, args@, 0),
            Expression::AggregateFunction { op, distinct, args } => found_in_args(t, args@, 0),
            Expression::Sort { expr, asc, nulls_first } => found_in(t, *expr),
            Expression::Wildcard => Seq::empty(),
            Expression::Cast { expr, data_type } => found_in(t, *expr),
        }
    }
}

/// The concatenated topmost matches of the trees of a list, from
/// position `i` on.
pub open spec fn found_in_args(t: FindTarget, args: Seq<Expression>, i: int) -> Seq<Expression>
    decreases args, args.len() - i,
{
    if 0 <= i < args.len() {
        found_in(t, args[i]) + found_in_args(t, args, i + 1)
    } else {
        Seq::empty()
    }
}

/// Whether a structurally equal expression occurs in the sequence.
pub open spec fn expr_in(s: Seq<Expression>, e: Expression) -> bool {
    exists|i: int| 0 <= i < s.len() && expr_eq(#[trigger] s[i], e)
}

/// Folds new expressions into an accumulated list, keeping only the
/// first occurrence of each (up to structural equality) and the order
/// of first occurrence.
pub open spec fn dedup_append(acc: Seq<Expression>, s: Seq<Expression>) -> Seq<Expression>
    decreases s.len(),
{
    if s.len() == 0 {
        acc
    } else {
        let rest = dedup_append(acc, s.drop_last());
        if expr_in(rest, s.last()) {
            rest
        } else {
            rest.push(s.last())
        }
    }
}

/// Pointwise structural equality of two expression lists.
pub open spec fn seq_expr_eq(a: Seq<Expression>, b: Seq<Expression>) -> bool {
    a.len() == b.len() && (forall|i: int| 0 <= i < a.len() ==> expr_eq(#[trigger] a[i], b[i]))
}

/// Structural equality is reflexive.
pub proof fn lemma_expr_eq_refl(e: Expression)
    ensures
        expr_eq(e, e),
    decreases e,
{
    match e {
        Expression::Alias(_, inner) => lemma_expr_eq_refl(*inner),
        Expression::Literal(v) => crate::values::lemma_dv_eq_refl(v),
        Expression::UnaryExpression { op, expr } => lemma_expr_eq_refl(*expr),
        Expression::BinaryExpression { left, op, right } => {
            lemma_expr_eq_refl(*left);
            lemma_expr_eq_refl(*right);
        },
        Expression::ScalarFunction { op, args } => {
            assert forall|i: int| 0 <= i < args@.len() implies expr_eq(
                #[trigger] args@[i],
                args@[i],
            ) by {
                lemma_expr_eq_refl(args@[i]);
            }
        },
        Expression::AggregateFunction { op, distinct, args } => {
            assert forall|i: int| 0 <= i < args@.len() implies expr_eq(
                #[trigger] args@[i],
                args@[i],
            ) by {
                lemma_expr_eq_refl(args@[i]);
            }
        },
        Expression::Sort { expr, asc, nulls_first } => lemma_expr_eq_refl(*expr),
        Expression::Cast { expr, data_type } => lemma_expr_eq_refl(*expr),
        _ => {},
    }
}

/// Structural equality is symmetric.
pub proof fn lemma_expr_eq_symm(a: Expression, b: Expression)
    ensures
        expr_eq(a, b) == expr_eq(b, a),
    decreases a,
{
    match (a, b) {
        (Expression::Alias(n1, e1), Expression::Alias(n2, e2)) => lemma_expr_eq_symm(*e1, *e2),
        (Expression::Literal(v1), Expression::Literal(v2)) => crate::values::lemma_dv_eq_symm(
            v1,
            v2,
        ),
        (
            Expression::UnaryExpression { op: o1, expr: e1 },
            Expression::UnaryExpression { op: o2, expr: e2 },
        ) => lemma_expr_eq_symm(*e1, *e2),
        (
            Expression::BinaryExpression { left: l1, op: o1, right: r1 },
            Expression::BinaryExpression { left: l2, op: o2, right: r2 },
        ) => {
            lemma_expr_eq_symm(*l1, *l2);
            lemma_expr_eq_symm(*r1, *r2);
        },
        (
            Expression::ScalarFunction { op: o1, args: a1 },
            Expression::ScalarFunction { op: o2, args: a2 },
        ) => {
            assert forall|i: int| 0 <= i < a1@.len() && i < a2@.len() implies expr_eq(
                #[trigger] a1@[i],
                a2@[i],
            ) == expr_eq(a2@[i], a1@[i]) by {
                lemma_expr_eq_symm(a1@[i], a2@[i]);
            }
        },
        (
            Expression::AggregateFunction { op: o1, distinct: d1, args: a1 },
            Expression::AggregateFunction { op: o2, distinct: d2, args: a2 },
        ) => {
            assert forall|i: int| 0 <= i < a1@.len() && i < a2@.len() implies expr_eq(
                #[trigger] a1@[i],
                a2@[i],
            ) == expr_eq(a2@[i], a1@[i]) by {
                lemma_expr_eq_symm(a1@[i], a2@[i]);
            }
        },
        (
            Expression::Sort { expr: e1, asc: s1, nulls_first: f1 },
            Expression::Sort { expr: e2, asc: s2, nulls_first: f2 },
        ) => lemma_expr_eq_symm(*e1, *e2),
        (
            Expression::Cast { expr: e1, data_type: t1 },
            Expression::Cast { expr: e2, data_type: t2 },
        ) => lemma_expr_eq_symm(*e1, *e2),
        _ => {},
    }
}

/// Membership up to structural equality respects structural equality
/// of both the list and the element.
proof fn lemma_expr_in_congruent(a: Seq<Expression>, b: Seq<Expression>, x: Expression, y: Expression)
    requires
        seq_expr_eq(a, b),
        expr_eq(x, y),
    ensures
        expr_in(a, x) == expr_in(b, y),
{
    if expr_in(a, x) {
        let i = choose|i: int| 0 <= i < a.len() && expr_eq(#[trigger] a[i], x);
        lemma_expr_eq_symm(b[i], a[i]);
        lemma_expr_eq_trans_to(b[i], a[i], x);
        lemma_expr_eq_trans_to(b[i], x, y);
        assert(expr_in(b, y));
    }
    if expr_in(b, y) {
        let i = choose|i: int| 0 <= i < b.len() && expr_eq(#[trigger] b[i], y);
        lemma_expr_eq_symm(x, y);
        lemma_expr_eq_trans_to(a[i], b[i], y);
        lemma_expr_eq_trans_to(a[i], y, x);
        assert(expr_in(a, x));
    }
}

/// Pointwise structural equality of lists is transitive.
proof fn lemma_seq_expr_eq_trans(a: Seq<Expression>, b: Seq<Expression>, c: Seq<Expression>)
    requires
        seq_expr_eq(a, b),
        seq_expr_eq(b, c),
    ensures
        seq_expr_eq(a, c),
{
    assert forall|i: int| 0 <= i < a.len() implies expr_eq(#[trigger] a[i], c[i]) by {
        lemma_expr_eq_trans_to(a[i], b[i], c[i]);
    }
}

/// Pointwise structural equality of lists is reflexive.
proof fn lemma_seq_expr_eq_refl(a: Seq<Expression>)
    ensures
        seq_expr_eq(a, a),
{
    assert forall|i: int| 0 <= i < a.len() implies expr_eq(#[trigger] a[i], a[i]) by {
        lemma_expr_eq_refl(a[i]);
    }
}

/// First-occurrence folding goes through a concatenation one part at
/// a time.
proof fn lemma_dedup_append_concat(acc: Seq<Expression>, s: Seq<Expression>, r: Seq<Expression>)
    ensures
        dedup_append(acc, s + r) == dedup_append(dedup_append(acc, s), r),
    decreases r.len(),
{
    if r.len() == 0 {
        assert(s + r =~= s);
    } else {
        assert((s + r).drop_last() =~= s + r.drop_last());
        assert((s + r).last() == r.last());
        lemma_dedup_append_concat(acc, s, r.drop_last());
    }
}

/// First-occurrence folding respects structural equality of the
/// accumulator.
proof fn lemma_dedup_append_congruent(a: Seq<Expression>, b: Seq<Expression>, s: Seq<Expression>)
    requires
        seq_expr_eq(a, b),
    ensures
        seq_expr_eq(dedup_append(a, s), dedup_append(b, s)),
    decreases s.len(),
{
    if s.len() > 0 {
        lemma_dedup_append_congruent(a, b, s.drop_last());
        let ra = dedup_append(a, s.drop_last());
        let rb = dedup_append(b, s.drop_last());
        lemma_expr_eq_refl(s.last());
        lemma_expr_in_congruent(ra, rb, s.last(), s.last());
        if !expr_in(ra, s.last()) {
            assert(seq_expr_eq(ra.push(s.last()), rb.push(s.last())));
        }
    }
}

/// Whether a structurally equal expression is already in the list.
#[verifier::loop_isolation(false)]
pub fn exprs_contain(list: &Vec<Expression>, e: &Expression) -> (r: bool)
    ensures
        r == (exists|i: int| 0 <= i < list@.len() && expr_eq(#[trigger] list@[i], *e)),
{
    let n = list.len();
    for i in 0..n
        invariant
            forall|j: int| 0 <= j < i ==> !expr_eq(#[trigger] list@[j], *e),
    {
        if expr_equal(&list[i], e) {
            return true;
        }
    }
    false
}

/// Collects the matching nodes of one tree, in pre-order, stopping
/// the descent at a match and leaving out duplicates: the grown
/// accumulator is the first-occurrence fold of the tree's topmost
/// matches into the old one.
#[verifier::loop_isolation(false)]
fn find_in_expr(t: FindTarget, e: &Expression, acc: &mut Vec<Expression>)
    requires
        forall|i: int|
            0 <= i < old(acc)@.len() ==> target_matches(t, #[trigger] old(acc)@[i]),
    ensures
        final (acc)@.len() >= old(acc)@.len(),
        forall|i: int|
            0 <= i < old(acc)@.len() ==> final (acc)@[i] == old(acc)@[i],
        forall|i: int|
            0 <= i < final (acc)@.len() ==> target_matches(t, #[trigger] final (acc)@[i]),
        seq_expr_eq(final (acc)@, dedup_append(old(acc)@, found_in(t, *e))),
    decreases *e,
{
    proof {
        lemma_seq_expr_eq_refl(acc@);
    }
    if target_fires(t, e) {
        proof {
            assert(found_in(t, *e) =~= seq![*e]);
            assert(found_in(t, *e).drop_last() =~= Seq::<Expression>::empty());
            assert(found_in(t, *e).last() == *e);
            assert(dedup_append(old(acc)@, Seq::<Expression>::empty()) == old(acc)@);
        }
        if !exprs_contain(acc, e) {
            let d = e.duplicate();
            proof {
                lemma_expr_eq_same_shape(d, *e);
                assert(!expr_in(acc@, *e));
                assert(seq_expr_eq(acc@.push(d), acc@.push(*e)));
            }
            acc.push(d);
        } else {
            proof {
                assert(expr_in(acc@, *e));
            }
        }
        return ;
    }
    match e {
        Expression::Alias(_, inner) => find_in_expr(t, inner, acc),
        Expression::Column(_) => {},
        Expression::Literal(_) => {},
        Expression::UnaryExpression { op, expr } => find_in_expr(t, expr, acc),
        Expression::BinaryExpression { left, op, right } => {
            let ghost acc0 = acc@;
            find_in_expr(t, left, acc);
            let ghost acc1 = acc@;
            find_in_expr(t, right, acc);
            proof {
                lemma_dedup_append_congruent(acc1, dedup_append(acc0, found_in(t, **left)), found_in(t, **right));
                lemma_dedup_append_concat(acc0, found_in(t, **left), found_in(t, **right));
                lemma_seq_expr_eq_trans(
                    acc@,
                    dedup_append(acc1, found_in(t, **right)),
                    dedup_append(acc0, found_in(t, **left) + found_in(t, **right)),
                );
            }
        },
        Expression::ScalarFunction { op, args } => {
            let ghost acc0 = acc@;
            proof {
                lemma_seq_expr_eq_refl(dedup_append(acc0, found_in_args(t, args@, 0)));
            }
            let n = args.len();
            for i in 0..n
                invariant
                    acc@.len() >= acc0.len(),
                    forall|j: int| 0 <= j < acc0.len() ==> acc@[j] == acc0[j],
                    forall|j: int|
                        0 <= j < acc@.len() ==> target_matches(t, #[trigger] acc@[j]),
                    seq_expr_eq(
                        dedup_append(acc@, found_in_args(t, args@, i as int)),
                        dedup_append(acc0, found_in_args(t, args@, 0)),
                    ),
            {
                proof {
                    assert(decreases_to!(*e => args@[i as int]));
                }
                let ghost acci = acc@;
                find_in_expr(t, &args[i], acc);
                proof {
                    lemma_dedup_append_congruent(
                        acc@,
                        dedup_append(acci, found_in(t, args@[i as int])),
                        found_in_args(t, args@, i + 1),
                    );
                    lemma_dedup_append_concat(
                        acci,
                        found_in(t, args@[i as int]),
                        found_in_args(t, args@, i + 1),
                    );
                    assert(found_in(t, args@[i as int]) + found_in_args(t, args@, i + 1)
                        == found_in_args(t, args@, i as int));
                    lemma_seq_expr_eq_trans(
                        dedup_append(acc@, found_in_args(t, args@, i + 1)),
                        dedup_append(acci, found_in_args(t, args@, i as int)),
                        dedup_append(acc0, found_in_args(t, args@, 0)),
                    );
                }
            }
            proof {
                assert(found_in_args(t, args@, n as int) =~= Seq::<Expression>::empty());
                assert(dedup_append(acc@, found_in_args(t, args@, n as int)) == acc@);
            }
        },
        Expression::AggregateFunction { op, distinct, args } => {
            let ghost acc0 = acc@;
            proof {
                lemma_seq_expr_eq_refl(dedup_append(acc0, found_in_args(t, args@, 0)));
            }
            let n = args.len();
            for i in 0..n
                invariant
                    acc@.len() >= acc0.len(),
                    forall|j: int| 0 <= j < acc0.len() ==> acc@[j] == acc0[j],
                    forall|j: int|
                        0 <= j < acc@.len() ==> target_matches(t, #[trigger] acc@[j]),
                    seq_expr_eq(
                        dedup_append(acc@, found_in_args(t, args@, i as int)),
                        dedup_append(acc0, found_in_args(t, args@, 0)),
                    ),
            {
                proof {
                    assert(decreases_to!(*e => args@[i as int]));
                }
                let ghost acci = acc@;
                find_in_expr(t, &args[i], acc);
                proof {
                    lemma_dedup_append_congruent(
                        acc@,
                        dedup_append(acci, found_in(t, args@[i as int])),
                        found_in_args(t, args@, i + 1),
                    );
                    lemma_dedup_append_concat(
                        acci,
                        found_in(t, args@[i as int]),
                        found_in_args(t, args@, i + 1),
                    );
                    assert(found_in(t, args@[i as int]) + found_in_args(t, args@, i + 1)
                        == found_in_args(t, args@, i as int));
                    lemma_seq_expr_eq_trans(
                        dedup_append(acc@, found_in_args(t, args@, i + 1)),
                        dedup_append(acci, found_in_args(t, args@, i as int)),
                        dedup_append(acc0, found_in_args(t, args@, 0)),
                    );
                }
            }
            proof {
                assert(found_in_args(t, args@, n as int) =~= Seq::<Expression>::empty());
                assert(dedup_append(acc@, found_in_args(t, args@, n as int)) == acc@);
            }
        },
        Expression::Sort { expr, asc, nulls_first } => find_in_expr(t, expr, acc),
        Expression::Wildcard => {},
        Expression::Cast { expr, data_type } => find_in_expr(t, expr, acc),
    }
}

/// Structurally equal expressions share their node shape.
proof fn lemma_expr_eq_same_shape(a: Expression, b: Expression)
    requires
        expr_eq(a, b),
    ensures
        a is AggregateFunction <==> b is AggregateFunction,
        a is Column <==> b is Column,
{
}

/// Collects the matching nodes of every given tree, left to right:
/// the result is, up to structural equality, the first-occurrence
/// fold of all the trees' topmost matches — complete, in pre-order
/// first-occurrence order, without duplicates.
#[verifier::loop_isolation(false)]
fn find_in_exprs(t: FindTarget, exprs: &Vec<Expression>) -> (out: Vec<Expression>)
    ensures
        forall|i: int| 0 <= i < out@.len() ==> target_matches(t, #[trigger] out@[i]),
        seq_expr_eq(out@, dedup_append(Seq::empty(), found_in_args(t, exprs@, 0))),
{
    let mut acc: Vec<Expression> = Vec::new();
    proof {
        lemma_seq_expr_eq_refl(dedup_append(Seq::empty(), found_in_args(t, exprs@, 0)));
    }
    let n = exprs.len();
    for i in 0..n
        invariant
            forall|j: int| 0 <= j < acc@.len() ==> target_matches(t, #[trigger] acc@[j]),
            seq_expr_eq(
                dedup_append(acc@, found_in_args(t, exprs@, i as int)),
                dedup_append(Seq::empty(), found_in_args(t, exprs@, 0)),
            ),
    {
        let ghost acci = acc@;
        find_in_expr(t, &exprs[i], &mut acc);
        proof {
            lemma_dedup_append_congruent(
                acc@,
                dedup_append(acci, found_in(t, exprs@[i as int])),
                found_in_args(t, exprs@, i + 1),
            );
            lemma_dedup_append_concat(
                acci,
                found_in(t, exprs@[i as int]),
                found_in_args(t, exprs@, i + 1),
            );
            assert(found_in(t, exprs@[i as int]) + found_in_args(t, exprs@, i + 1)
                == found_in_args(t, exprs@, i as int));
            lemma_seq_expr_eq_trans(
                dedup_append(acc@, found_in_args(t, exprs@, i + 1)),
                dedup_append(acci, found_in_args(t, exprs@, i as int)),
                dedup_append(Seq::empty(), found_in_args(t, exprs@, 0)),
            );
        }
    }
    proof {
        assert(found_in_args(t, exprs@, n as int) =~= Seq::<Expression>::empty());
        assert(dedup_append(acc@, found_in_args(t, exprs@, n as int)) == acc@);
    }
    acc
}

/// Collects exactly the topmost aggregate nodes of the expressions:
/// every deeply nested aggregate is listed once, in pre-order
/// first-occurrence order; aggregates nested inside a found aggregate
/// are not listed separately.
pub fn find_aggregate_exprs(exprs: &Vec<Expression>) -> (out: Vec<Expression>)
    ensures
        forall|i: int| 0 <= i < out@.len() ==> (#[trigger] out@[i]) is AggregateFunction,
        seq_expr_eq(
            out@,
            dedup_append(Seq::empty(), found_in_args(FindTarget::Aggregates, exprs@, 0)),
        ),
{
    find_in_exprs(FindTarget::Aggregates, exprs)
}

/// Collects exactly the column references of the expressions: every
/// deeply nested reference is listed once, in pre-order
/// first-occurrence order.
pub fn find_column_exprs(exprs: &Vec<Expression>) -> (out: Vec<Expression>)
    ensures
        forall|i: int| 0 <= i < out@.len() ==> (#[trigger] out@[i]) is Column,
        seq_expr_eq(
            out@,
            dedup_append(Seq::empty(), found_in_args(FindTarget::Columns, exprs@, 0)),
        ),
{
    find_in_exprs(FindTarget::Columns, exprs)
}

/// Resolves a wildcard to one column reference per schema field;
/// anything else stands as it is.
#[verifier::loop_isolation(false)]
pub fn expand_wildcard(expr: &Expression, schema: &DataSchema) -> (out: Vec<Expression>)
    ensures
        *expr is Wildcard ==> out@.len() == schema.spec_fields().len() && (forall|i: int|
            0 <= i < out@.len() ==> ((#[trigger] out@[i]) matches Expression::Column(n) && n@
                == schema.spec_fields()[i].spec_name())),
        !(*expr is Wildcard) ==> out@.len() == 1 && expr_eq(out@[0], *expr),
{
    match expr {
        Expression::Wildcard => {
            let mut out: Vec<Expression> = Vec::new();
            let n = schema.num_fields();
            for i in 0..n
                invariant
                    out@.len() == i,
                    forall|j: int|
                        0 <= j < i ==> ((#[trigger] out@[j]) matches Expression::Column(nm) && nm@
                            == schema.spec_fields()[j].spec_name()),
            {
                out.push(Expression::Column(schema.field(i).name().clone()));
            }
            out
        },
        _ => {
            let mut out: Vec<Expression> = Vec::new();
            out.push(expr.duplicate());
            out
        },
    }
}

/// Replaces each aggregate node by its arguments, keeping everything
/// else, without duplicates.
#[verifier::loop_isolation(false)]
pub fn expand_aggregate_arg_exprs(exprs: &Vec<Expression>) -> (out: Vec<Expression>)
{
    let mut res: Vec<Expression> = Vec::new();
    let n = exprs.len();
    for i in 0..n
    {
        match &exprs[i] {
            Expression::AggregateFunction { op, distinct, args } => {
                let m = args.len();
                for k in 0..m
                {
                    if !exprs_contain(&res, &args[k]) {
                        res.push(args[k].duplicate());
                    }
                }
            },
            _ => {
                if !exprs_contain(&res, &exprs[i]) {
                    res.push(exprs[i].duplicate());
                }
            },
        }
    }
    res
}

/// The alias bindings among the expressions, in order.
#[verifier::loop_isolation(false)]
pub fn extract_aliases(exprs: &Vec<Expression>) -> (out: Vec<(String, Expression)>)
    ensures
        out@.len() <= exprs@.len(),
{
    let mut out: Vec<(String, Expression)> = Vec::new();
    let n = exprs.len();
    for i in 0..n
        invariant
            out@.len() <= i,
    {
        match &exprs[i] {
            Expression::Alias(name, inner) => {
                let pair = (name.clone(), inner.duplicate());
                out.push(pair);
            },
            _ => {},
        }
    }
    out
}

/// The inner expression of a sort node; anything else stands as it is.
pub fn sort_to_inner_expr(expr: &Expression) -> (out: Expression)
    ensures
        (match *expr {
            Expression::Sort { expr: inner, asc: _, nulls_first: _ } => expr_eq(out, *inner),
            _ => expr_eq(out, *expr),
        }),
{
    match expr {
        Expression::Sort { expr: inner, asc, nulls_first } => inner.duplicate(),
        _ => expr.duplicate(),
    }
}

/// The column references the expressions mention, one per distinct
/// reference, in pre-order first-occurrence order.
pub open spec fn referenced_columns(exprs: Seq<Expression>) -> Seq<Expression> {
    dedup_append(Seq::empty(), found_in_args(FindTarget::Columns, exprs, 0))
}

/// The position in `found` of the first expression that no element of
/// `cols` structurally equals; negative when every one is present.
pub open spec fn first_missing(cols: Seq<Expression>, found: Seq<Expression>) -> int
    decreases found.len(),
{
    if found.len() == 0 {
        -1
    } else if !expr_in(cols, found[0]) {
        0
    } else {
        let r = first_missing(cols, found.skip(1));
        if r < 0 {
            -1
        } else {
            r + 1
        }
    }
}

proof fn lemma_first_missing_valid(cols: Seq<Expression>, found: Seq<Expression>)
    ensures
        first_missing(cols, found) >= 0 ==> 0 <= first_missing(cols, found) < found.len()
            && !expr_in(cols, found[first_missing(cols, found)]),
        first_missing(cols, found) < 0 ==> (forall|j: int|
            0 <= j < found.len() ==> expr_in(cols, #[trigger] found[j])),
    decreases found.len(),
{
    if found.len() > 0 && expr_in(cols, found[0]) {
        lemma_first_missing_valid(cols, found.skip(1));
        assert(forall|j: int|
            0 <= j < found.len() - 1 ==> (#[trigger] found.skip(1)[j]) == found[j + 1]);
        if first_missing(cols, found) < 0 {
            assert forall|j: int| 0 <= j < found.len() implies expr_in(
                cols,
                #[trigger] found[j],
            ) by {
                if j > 0 {
                    assert(found.skip(1)[j - 1] == found[j]);
                    assert(expr_in(cols, found.skip(1)[j - 1]));
                }
            }
        }
    }
}

proof fn lemma_first_missing_first(cols: Seq<Expression>, found: Seq<Expression>, k: int)
    requires
        0 <= k <= found.len(),
        forall|j: int| 0 <= j < k ==> expr_in(cols, #[trigger] found[j]),
    ensures
        k < found.len() && !expr_in(cols, found[k]) ==> first_missing(cols, found) == k,
    decreases found.len(),
{
    if found.len() > 0 {
        if expr_in(cols, found[0]) {
            lemma_first_missing_first(cols, found.skip(1), if k > 0 {
                k - 1
            } else {
                0
            });
            assert(forall|j: int|
                0 <= j < found.len() - 1 ==> (#[trigger] found.skip(1)[j]) == found[j + 1]);
        }
    }
}

/// Checks that the columns are plain column references and finds the
/// first deeply nested column reference of the expressions that is not
/// among them: the first element of `referenced_columns` missing from
/// `columns`, or nothing exactly when every reference is present.
#[verifier::loop_isolation(false)]
pub fn find_columns_not_satisfy_exprs(columns: &Vec<Expression>, exprs: &Vec<Expression>) -> (res:
    Result<Option<Expression>, ErrorCode>)
    ensures
        (match res {
            Ok(r) => (forall|i: int| 0 <= i < columns@.len() ==> (#[trigger] columns@[i]) is Column)
                && (match r {
                Some(e) => {
                    &&& e is Column
                    &&& !(exists|i: int|
                        0 <= i < columns@.len() && expr_eq(#[trigger] columns@[i], e))
                    &&& first_missing(columns@, referenced_columns(exprs@)) >= 0
                    &&& expr_eq(
                        e,
                        referenced_columns(exprs@)[first_missing(
                            columns@,
                            referenced_columns(exprs@),
                        )],
                    )
                },
                None => first_missing(columns@, referenced_columns(exprs@)) < 0,
            }),
            Err(e) => e.kind() == ErrorKind::SyntaxException && (exists|i: int|
                0 <= i < columns@.len() && !((#[trigger] columns@[i]) is Column)),
        }),
{
    let n = columns.len();
    for i in 0..n
        invariant
            forall|j: int| 0 <= j < i ==> (#[trigger] columns@[j]) is Column,
    {
        if !matches!(&columns[i], Expression::Column(_)) {
            return Err(
                ErrorCode::syntax_exception(
                    "plain column references are required here".to_owned(),
                ),
            );
        }
    }
    let found = find_column_exprs(exprs);
    let ghost refd = referenced_columns(exprs@);
    proof {
        lemma_seq_expr_eq_refl(columns@);
    }
    let m = found.len();
    for k in 0..m
        invariant
            forall|j: int| 0 <= j < found@.len() ==> (#[trigger] found@[j]) is Column,
            seq_expr_eq(found@, refd),
            forall|j: int| 0 <= j < k ==> expr_in(columns@, #[trigger] refd[j]),
    {
        let present = exprs_contain(columns, &found[k]);
        proof {
            lemma_expr_in_congruent(columns@, columns@, found@[k as int], refd[k as int]);
            assert(present == expr_in(columns@, found@[k as int]));
        }
        if !present {
            let e = found[k].duplicate();
            proof {
                lemma_expr_eq_same_shape(e, found@[k as int]);
                lemma_first_missing_first(columns@, refd, k as int);
                lemma_expr_eq_trans_to(e, found@[k as int], refd[k as int]);
                assert forall|i2: int| 0 <= i2 < columns@.len() implies !expr_eq(
                    #[trigger] columns@[i2],
                    e,
                ) by {
                    if expr_eq(columns@[i2], e) {
                        lemma_expr_eq_trans_to(columns@[i2], e, found@[k as int]);
                    }
                }
            }
            return Ok(Some(e));
        }
    }
    proof {
        lemma_first_missing_valid(columns@, refd);
    }
    Ok(None)
}

/// Structural equality carries across a copy.
proof fn lemma_expr_eq_trans_to(a: Expression, b: Expression, c: Expression)
    requires
        expr_eq(a, b),
        expr_eq(b, c),
    ensures
        expr_eq(a, c),
    decreases a,
{
    match (a, b, c) {
        (
            Expression::Alias(n1, e1),
            Expression::Alias(n2, e2),
            Expression::Alias(n3, e3),
        ) => {
            lemma_expr_eq_trans_to(*e1, *e2, *e3);
        },
        (Expression::Literal(v1), Expression::Literal(v2), Expression::Literal(v3)) => {
            crate::values::lemma_dv_eq_trans(v1, v2, v3);
        },
        (
            Expression::UnaryExpression { op: o1, expr: e1 },
            Expression::UnaryExpression { op: o2, expr: e2 },
            Expression::UnaryExpression { op: o3, expr: e3 },
        ) => {
            lemma_expr_eq_trans_to(*e1, *e2, *e3);
        },
        (
            Expression::BinaryExpression { left: l1, op: o1, right: r1 },
            Expression::BinaryExpression { left: l2, op: o2, right: r2 },
            Expression::BinaryExpression { left: l3, op: o3, right: r3 },
        ) => {
            lemma_expr_eq_trans_to(*l1, *l2, *l3);
            lemma_expr_eq_trans_to(*r1, *r2, *r3);
        },
        (
            Expression::ScalarFunction { op: o1, args: a1 },
            Expression::ScalarFunction { op: o2, args: a2 },
            Expression::ScalarFunction { op: o3, args: a3 },
        ) => {
            if a1@.len() == a2@.len() && a2@.len() == a3@.len() {
                assert forall|i: int| 0 <= i < a1@.len() implies expr_eq(
                    #[trigger] a1@[i],
                    a3@[i],
                ) by {
                    lemma_expr_eq_trans_to(a1@[i], a2@[i], a3@[i]);
                }
            }
        },
        (
            Expression::AggregateFunction { op: o1, distinct: d1, args: a1 },
            Expression::AggregateFunction { op: o2, distinct: d2, args: a2 },
            Expression::AggregateFunction { op: o3, distinct: d3, args: a3 },
        ) => {
            if a1@.len() == a2@.len() && a2@.len() == a3@.len() {
                assert forall|i: int| 0 <= i < a1@.len() implies expr_eq(
                    #[trigger] a1@[i],
                    a3@[i],
                ) by {
                    lemma_expr_eq_trans_to(a1@[i], a2@[i], a3@[i]);
                }
            }
        },
        (
            Expression::Sort { expr: e1, asc: s1, nulls_first: f1 },
            Expression::Sort { expr: e2, asc: s2, nulls_first: f2 },
            Expression::Sort { expr: e3, asc: s3, nulls_first: f3 },
        ) => {
            lemma_expr_eq_trans_to(*e1, *e2, *e3);
        },
        (
            Expression::Cast { expr: e1, data_type: t1 },
            Expression::Cast { expr: e2, data_type: t2 },
            Expression::Cast { expr: e3, data_type: t3 },
        ) => {
            lemma_expr_eq_trans_to(*e1, *e2, *e3);
        },
        _ => {},
    }
}

} // verus!
