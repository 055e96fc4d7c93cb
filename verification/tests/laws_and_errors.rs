//! Concrete checks of the stated laws — null semantics, broadcasting,
//! the adapter behaviours, grouping — and one input for each error
//! kind the library raises.

use query_core::compare_scalars;
use query_core::val_equal;
use query_core::ArithmeticModuloFunction;
use query_core::ArithmeticPlusFunction;
use query_core::CompareOp;
use query_core::ComparisonEqFunction;
use query_core::CrashMeFunction;
use query_core::DataArray;
use query_core::DataArrayFilter;
use query_core::DataBlock;
use query_core::DataColumn;
use query_core::DataField;
use query_core::DataSchema;
use query_core::DataType;
use query_core::DataValue;
use query_core::ErrorKind;
use query_core::Expression;
use query_core::Function2Adapter;
use query_core::FunctionFactory;
use query_core::ReplacementRule;

fn arr_i64(vals: &[i64]) -> DataArray {
    let values: Vec<DataValue> = vals.iter().map(|v| DataValue::Int64(Some(*v))).collect();
    DataArray::try_create(DataType::Int64, values).unwrap()
}

fn arr_opt_i64(vals: &[Option<i64>]) -> DataArray {
    let values: Vec<DataValue> = vals.iter().map(|v| DataValue::Int64(*v)).collect();
    DataArray::try_create(DataType::Int64, values).unwrap()
}

fn arr_opt_bool(vals: &[Option<bool>]) -> DataArray {
    let values: Vec<DataValue> = vals.iter().map(|v| DataValue::Boolean(*v)).collect();
    DataArray::try_create(DataType::Boolean, values).unwrap()
}

fn arr_str(vals: &[&str]) -> DataArray {
    let values: Vec<DataValue> =
        vals.iter().map(|v| DataValue::Utf8(Some((*v).to_owned()))).collect();
    DataArray::try_create(DataType::Utf8, values).unwrap()
}

fn col(a: DataArray) -> DataColumn {
    DataColumn::Array(a)
}

#[test]
fn comparison_symmetry_and_trichotomy_on_values() {
    let a = DataValue::Int64(Some(3));
    let b = DataValue::Int64(Some(7));
    assert_eq!(val_equal(&a, &b), val_equal(&b, &a));
    let lt = query_core::val_lt(&a, &b);
    let gt = query_core::val_lt(&b, &a);
    let eq = val_equal(&a, &b);
    assert!(lt && !eq && !gt);

    let s1 = DataValue::Utf8(Some("abc".to_owned()));
    let s2 = DataValue::Utf8(Some("abd".to_owned()));
    let slt = query_core::val_lt(&s1, &s2);
    let sgt = query_core::val_lt(&s2, &s1);
    let seq = val_equal(&s1, &s2);
    assert!(slt && !seq && !sgt);
}

#[test]
fn eq_missing_is_reflexive_on_null() {
    let null_v = DataValue::Int64(None);
    let with_missing = compare_scalars(CompareOp::EqMissing, &null_v, &null_v);
    assert!(val_equal(&with_missing, &DataValue::Boolean(Some(true))));
    let plain = compare_scalars(CompareOp::Eq, &null_v, &null_v);
    assert!(val_equal(&plain, &DataValue::Boolean(None)));
}

#[test]
fn broadcast_one_element_equals_constant() {
    let data = col(arr_i64(&[1, 2, 3, 4]));
    let one = col(arr_i64(&[2]));
    let constant = DataColumn::Constant(DataValue::Int64(Some(2)), 4);
    let via_one = data.eq(&one).unwrap();
    let via_const = data.eq(&constant).unwrap();
    assert_eq!(via_one.len(), via_const.len());
    for i in 0..via_one.len() {
        assert!(val_equal(via_one.get(i), via_const.get(i)));
    }
    let via_gt_one = data.gt(&one).unwrap();
    let via_gt_const = data.gt(&constant).unwrap();
    for i in 0..via_gt_one.len() {
        assert!(val_equal(via_gt_one.get(i), via_gt_const.get(i)));
    }
}

#[test]
fn null_adapter_makes_rows_with_missing_arguments_missing() {
    let inner = ComparisonEqFunction::try_create_func("", Vec::new()).unwrap();
    let adapted = Function2Adapter::create(inner);
    let columns = vec![
        col(arr_opt_i64(&[Some(1), None, Some(3)])),
        DataColumn::Constant(DataValue::Int64(Some(3)), 3),
    ];
    let out = adapted.eval(&columns, 3).unwrap();
    assert!(!out.get(0).is_null());
    assert!(out.get(1).is_null());
    assert!(!out.get(2).is_null());
    assert!(val_equal(out.get(2), &DataValue::Boolean(Some(true))));
}

#[test]
fn constant_adapter_matches_materialized_evaluation() {
    let inner = ArithmeticPlusFunction::try_create_func(
        "",
        vec![
            DataField::new("x", DataType::Int64, false),
            DataField::new("y", DataType::Int64, false),
        ],
    )
    .unwrap();
    let adapted = Function2Adapter::create(inner);
    let constants = vec![
        DataColumn::Constant(DataValue::Int64(Some(2)), 5),
        DataColumn::Constant(DataValue::Int64(Some(3)), 5),
    ];
    let out_const = adapted.eval(&constants, 5).unwrap();
    assert!(out_const.is_const());

    let inner2 = ArithmeticPlusFunction::try_create_func(
        "",
        vec![
            DataField::new("x", DataType::Int64, false),
            DataField::new("y", DataType::Int64, false),
        ],
    )
    .unwrap();
    let arrays = vec![col(arr_i64(&[2, 2, 2, 2, 2])), col(arr_i64(&[3, 3, 3, 3, 3]))];
    let out_arr = inner2.eval(&arrays, 5).unwrap();

    assert_eq!(out_const.len(), out_arr.len());
    for i in 0..out_const.len() {
        assert!(val_equal(out_const.get(i), out_arr.get(i)));
        assert!(val_equal(out_const.get(i), &DataValue::Int64(Some(5))));
    }
}

fn modulo_block() -> DataBlock {
    let a = arr_i64(&[1, 2, 3, 4, 5]);
    let modulo = ArithmeticModuloFunction::try_create_func(
        "",
        vec![
            DataField::new("A", DataType::Int64, false),
            DataField::new("m", DataType::Int64, false),
        ],
    )
    .unwrap();
    let keyed = modulo
        .eval(
            &vec![col(arr_i64(&[1, 2, 3, 4, 5])), DataColumn::Constant(DataValue::Int64(Some(3)), 5)],
            5,
        )
        .unwrap();
    let schema = DataSchema::new(vec![
        DataField::new("A", DataType::Int64, false),
        DataField::new("key", DataType::Int64, false),
    ]);
    DataBlock::create(schema, vec![col(a), keyed], 5).unwrap()
}

#[test]
fn grouping_by_modulo_partitions_rows() {
    let block = modulo_block();
    let table = DataBlock::group_by_get_indices(&block, &vec!["key".to_owned()]).unwrap();
    assert_eq!(table.entries.len(), 3);

    let mut seen = vec![false; 5];
    for entry in &table.entries {
        let key = &entry.values[0];
        let expected_rows: Vec<u32> = match key {
            DataValue::Int64(Some(0)) => vec![2],
            DataValue::Int64(Some(1)) => vec![0, 3],
            DataValue::Int64(Some(2)) => vec![1, 4],
            _ => panic!("unexpected group key"),
        };
        assert_eq!(entry.indices, expected_rows);
        for r in &entry.indices {
            assert!(!seen[*r as usize]);
            seen[*r as usize] = true;
        }
    }
    assert!(seen.iter().all(|s| *s));
}

#[test]
fn group_by_slices_sub_blocks() {
    let block = modulo_block();
    let groups = DataBlock::group_by(&block, &vec!["key".to_owned()]).unwrap();
    assert_eq!(groups.len(), 3);
    let mut total_rows = 0;
    for g in &groups {
        total_rows += g.block.num_rows();
        assert_eq!(g.block.num_columns(), 2);
    }
    assert_eq!(total_rows, 5);

    let hashed =
        DataBlock::group_by_version(&block, &vec!["key".to_owned()], &vec!["key".to_owned()])
            .unwrap();
    assert_eq!(hashed.len(), 3);
}

#[test]
fn filtering_normalizes_null_predicates_to_false() {
    let column = arr_i64(&[1, 2, 3, 4, 5]);
    let predicate = arr_opt_bool(&[Some(true), Some(false), Some(true), None, None]);
    assert_eq!(DataArrayFilter::filter_count(&predicate), 2);
    let out = DataArrayFilter::filter(&column, &predicate).unwrap();
    assert_eq!(out.len(), 2);
    assert!(val_equal(out.get(0), &DataValue::Int64(Some(1))));
    assert!(val_equal(out.get(1), &DataValue::Int64(Some(3))));
}

#[test]
fn factory_lookup_is_case_insensitive_and_total() {
    let factory = FunctionFactory::create();
    assert!(factory.check("PLUS"));
    assert!(factory.check("like"));
    assert!(factory.check("SipHash"));
    assert!(!factory.check("no such function"));
    let names = factory.registered_names();
    assert!(names.len() >= 20);
    assert_eq!(names[0], "+".to_owned());

    let err = factory.get("no such function", Vec::new()).unwrap_err();
    assert_eq!(err.kind(), ErrorKind::UnknownFunction);

    let plus = factory
        .get(
            "+",
            vec![
                DataField::new("x", DataType::Int64, false),
                DataField::new("y", DataType::Int64, false),
            ],
        )
        .unwrap();
    let out = plus.eval(&vec![col(arr_i64(&[1, 2])), col(arr_i64(&[10, 20]))], 2).unwrap();
    assert!(val_equal(out.get(0), &DataValue::Int64(Some(11))));
    assert!(val_equal(out.get(1), &DataValue::Int64(Some(22))));
}

#[test]
fn error_kinds_have_witnesses() {
    // Comparing operands of two different types.
    let mixed = col(arr_i64(&[1])).eq(&col(arr_str(&["x"]))).unwrap_err();
    assert_eq!(mixed.kind(), ErrorKind::BadDataValueType);

    // Comparing operands of two lengths that cannot broadcast.
    let lens = col(arr_i64(&[1, 2])).eq(&col(arr_i64(&[1, 2, 3]))).unwrap_err();
    assert_eq!(lens.kind(), ErrorKind::NumberArgumentsNotMatch);

    // A wildcard has no type.
    let factory = FunctionFactory::create();
    let schema = DataSchema::new(vec![DataField::new("a", DataType::Int64, false)]);
    let wild = Expression::Wildcard.to_data_type(&schema, &factory).unwrap_err();
    assert_eq!(wild.kind(), ErrorKind::IllegalDataType);

    // The sleep argument must be constant.
    let varying = query_core::sleep_seconds(&col(arr_i64(&[1, 2]))).unwrap_err();
    assert_eq!(varying.kind(), ErrorKind::BadArguments);
    assert_eq!(query_core::sleep_seconds(&DataColumn::Constant(DataValue::Int64(Some(2)), 4)).unwrap(), 2);

    // The deliberate abort surfaces as a reported error.
    let crash = CrashMeFunction::try_create("crashme", Vec::new()).unwrap();
    let aborted = crash.eval(&vec![col(arr_i64(&[1]))], 1).unwrap_err();
    assert_eq!(aborted.kind(), ErrorKind::LogicalError);

    // Plain column references are required for projection checks.
    let cols = vec![Expression::Literal(DataValue::Int64(Some(1)))];
    let exprs = vec![Expression::Column("a".to_owned())];
    let syn = query_core::find_columns_not_satisfy_exprs(&cols, &exprs).unwrap_err();
    assert_eq!(syn.kind(), ErrorKind::SyntaxException);

    // An unknown function name misses the registry.
    let missing = factory.get("zzz", Vec::new()).unwrap_err();
    assert_eq!(missing.kind(), ErrorKind::UnknownFunction);
}

#[test]
fn expression_names_types_and_rewrites() {
    let factory = FunctionFactory::create();
    let schema = DataSchema::new(vec![
        DataField::new("a", DataType::Int64, false),
        DataField::new("b", DataType::Int64, true),
    ]);

    let sum = Expression::BinaryExpression {
        left: Box::new(Expression::Column("a".to_owned())),
        op: "+".to_owned(),
        right: Box::new(Expression::Column("b".to_owned())),
    };
    assert_eq!(sum.column_name(), "(a + b)".to_owned());
    assert_eq!(sum.to_data_type(&schema, &factory).unwrap(), DataType::Int64);

    let lit = Expression::Literal(DataValue::Int64(Some(-42)));
    assert_eq!(lit.column_name(), "-42".to_owned());
    assert_eq!(lit.to_data_type(&schema, &factory).unwrap(), DataType::Int64);
    assert_eq!(lit.nullable(&schema, &factory).unwrap(), false);

    let aliased = Expression::Alias("total".to_owned(), Box::new(sum.duplicate()));
    assert_eq!(aliased.column_name(), "total".to_owned());

    // Rebasing the aliased sum onto an upstream projection turns the
    // recognized subtree into a plain column reference.
    let base = vec![sum.duplicate()];
    let rebased = query_core::rebase_expr(&sum, &base).unwrap();
    match rebased {
        Expression::Column(name) => assert_eq!(name, "(a + b)".to_owned()),
        _ => panic!("the rebased expression should be a column reference"),
    }

    // Unwrapping the alias gives back the inner expression.
    let unwrapped = query_core::unwrap_alias_exprs(&aliased).unwrap();
    assert!(query_core::expr_equal(&unwrapped, &sum));

    // Resolving an alias name through the alias map substitutes the
    // aliased expression for the bare column reference.
    let aliases = vec![("total".to_owned(), sum.duplicate())];
    let resolved =
        query_core::resolve_aliases_to_exprs(&Expression::Column("total".to_owned()), &aliases)
            .unwrap();
    assert!(query_core::expr_equal(&resolved, &sum));

    // Wildcard expansion lists the schema's columns.
    let expanded = query_core::expand_wildcard(&Expression::Wildcard, &schema);
    assert_eq!(expanded.len(), 2);
    assert!(query_core::expr_equal(&expanded[0], &Expression::Column("a".to_owned())));

    // The metadata functions render as calls.
    let dbcall = Expression::ScalarFunction { op: "database".to_owned(), args: vec![] };
    assert_eq!(dbcall.column_name(), "database()".to_owned());
}

#[test]
fn decimal_rendering_is_exact() {
    assert_eq!(query_core::u64_to_dec(0), "0".to_owned());
    assert_eq!(query_core::u64_to_dec(1234567890), "1234567890".to_owned());
    assert_eq!(query_core::i64_to_dec(-7), "-7".to_owned());
    assert_eq!(query_core::i64_to_dec(i64::MIN), "-9223372036854775808".to_owned());
}

#[test]
fn eq_missing_and_like_through_columns() {
    let l = col(arr_opt_i64(&[Some(1), None, Some(3)]));
    let r = col(arr_opt_i64(&[Some(1), None, Some(4)]));
    let out = l.eq_missing(&r).unwrap();
    assert!(val_equal(out.get(0), &DataValue::Boolean(Some(true))));
    assert!(val_equal(out.get(1), &DataValue::Boolean(Some(true))));
    assert!(val_equal(out.get(2), &DataValue::Boolean(Some(false))));

    let data = col(arr_str(&["hello", "help", "halt"]));
    let pattern = col(arr_str(&["hel%"]));
    let liked = data.like(&pattern).unwrap();
    assert!(val_equal(liked.get(0), &DataValue::Boolean(Some(true))));
    assert!(val_equal(liked.get(1), &DataValue::Boolean(Some(true))));
    assert!(val_equal(liked.get(2), &DataValue::Boolean(Some(false))));
}

#[test]
fn rewrite_rule_skips_replaced_subtrees() {
    // Rebasing replaces a matched subtree and does not descend into it.
    let inner = Expression::BinaryExpression {
        left: Box::new(Expression::Column("a".to_owned())),
        op: "+".to_owned(),
        right: Box::new(Expression::Column("b".to_owned())),
    };
    let outer = Expression::BinaryExpression {
        left: Box::new(inner.duplicate()),
        op: "*".to_owned(),
        right: Box::new(Expression::Column("c".to_owned())),
    };
    let base = vec![inner.duplicate()];
    let rule = ReplacementRule::Rebase(&base);
    let rewritten = query_core::clone_with_replacement(&outer, &rule).unwrap();
    match rewritten {
        Expression::BinaryExpression { left, right, .. } => {
            match *left {
                Expression::Column(name) => assert_eq!(name, "(a + b)".to_owned()),
                _ => panic!("the matched subtree should have been replaced"),
            }
            match *right {
                Expression::Column(name) => assert_eq!(name, "c".to_owned()),
                _ => panic!("the unmatched child should survive"),
            }
        },
        _ => panic!("the outer shape should survive"),
    }
}

#[test]
fn arithmetic_edges_and_negation() {
    let factory = FunctionFactory::create();
    let div = factory
        .get(
            "/",
            vec![
                DataField::new("x", DataType::Int64, false),
                DataField::new("y", DataType::Int64, false),
            ],
        )
        .unwrap();
    let by_zero = div
        .eval(&vec![col(arr_i64(&[10])), col(arr_i64(&[0]))], 1)
        .unwrap_err();
    assert_eq!(by_zero.kind(), ErrorKind::BadArguments);

    let mixed = factory
        .get(
            "+",
            vec![
                DataField::new("x", DataType::Int64, false),
                DataField::new("y", DataType::Int32, false),
            ],
        )
        .unwrap_err();
    assert_eq!(mixed.kind(), ErrorKind::BadDataValueType);

    let neg = factory
        .get("-", vec![DataField::new("x", DataType::Int64, false)])
        .unwrap();
    let out = neg.eval(&vec![col(arr_i64(&[5, -2]))], 2).unwrap();
    assert!(val_equal(out.get(0), &DataValue::Int64(Some(-5))));
    assert!(val_equal(out.get(1), &DataValue::Int64(Some(2))));

    // A null-typed argument short-circuits the adapted evaluation.
    let plus = factory
        .get(
            "+",
            vec![
                DataField::new("x", DataType::Int64, false),
                DataField::new("y", DataType::Int64, false),
            ],
        )
        .unwrap();
    let adapted = Function2Adapter::create(plus);
    let out = adapted
        .eval(
            &vec![
                DataColumn::Constant(DataValue::Null, 3),
                DataColumn::Constant(DataValue::Int64(Some(1)), 3),
            ],
            3,
        )
        .unwrap();
    for i in 0..out.len() {
        assert!(out.get(i).is_null());
    }
}

#[test]
fn window_frame_shorthand_ends_at_current_row() {
    let frame = query_core::WindowFrame {
        frame_type: query_core::FrameType::Rows,
        start_bound: query_core::FrameBound::Preceding(Some(1)),
        end_bound: None,
    };
    assert_eq!(frame.effective_end_bound(), query_core::FrameBound::CurrentRow);
    let full = query_core::WindowFrame {
        frame_type: query_core::FrameType::Range,
        start_bound: query_core::FrameBound::Preceding(None),
        end_bound: Some(query_core::FrameBound::Following(Some(2))),
    };
    assert_eq!(full.effective_end_bound(), query_core::FrameBound::Following(Some(2)));
}

#[test]
fn group_keys_serialize_distinctly() {
    let block = modulo_block();
    let table = DataBlock::group_by_get_indices(&block, &vec!["key".to_owned()]).unwrap();
    for a in 0..table.entries.len() {
        for b in (a + 1)..table.entries.len() {
            assert_ne!(table.entries[a].key, table.entries[b].key);
        }
    }
}

#[test]
fn aggregate_nodes_resolve_through_their_registry() {
    let factory = FunctionFactory::create();
    let schema = DataSchema::new(vec![DataField::new("a", DataType::Int32, false)]);
    let count = Expression::AggregateFunction {
        op: "count".to_owned(),
        distinct: false,
        args: vec![Expression::Column("a".to_owned())],
    };
    assert_eq!(count.to_data_type(&schema, &factory).unwrap(), DataType::UInt64);
    assert_eq!(count.nullable(&schema, &factory).unwrap(), false);
    let names = count.to_aggregate_function_names().unwrap();
    assert_eq!(names, vec!["a".to_owned()]);

    let sum = Expression::AggregateFunction {
        op: "sum".to_owned(),
        distinct: true,
        args: vec![Expression::Column("a".to_owned())],
    };
    assert_eq!(sum.to_data_type(&schema, &factory).unwrap(), DataType::Int32);
    assert_eq!(sum.nullable(&schema, &factory).unwrap(), true);
}

#[test]
fn aggregate_display_keeps_the_distinct_marker() {
    let plain = Expression::AggregateFunction {
        op: "count".to_owned(),
        distinct: false,
        args: vec![Expression::Column("x".to_owned())],
    };
    let distinct = Expression::AggregateFunction {
        op: "count".to_owned(),
        distinct: true,
        args: vec![Expression::Column("x".to_owned())],
    };
    assert_eq!(plain.display_string(), "count(x)");
    assert_eq!(distinct.display_string(), "count(distinct x)");
    assert_ne!(plain.column_name(), distinct.column_name());
}

#[test]
fn row_hash_folds_per_row_and_keeps_zero_for_all_null_rows() {
    let hasher = query_core::RowHasher::new();
    let cols = vec![col(arr_opt_i64(&[Some(1), Some(2), Some(1), None]))];
    let out = query_core::row_hash_column(&hasher, &cols, 4).unwrap();
    assert_eq!(out.len(), 4);
    for i in 0..4 {
        assert!(!out.get(i).is_null());
    }
    // Equal cells hash equally under one hasher in one process.
    assert!(val_equal(out.get(0), out.get(2)));
    assert!(!val_equal(out.get(0), out.get(1)));
    // A row whose every cell is missing keeps the starting value.
    assert!(val_equal(out.get(3), &DataValue::UInt64(Some(0))));

    // Two key columns fold into one hash per row.
    let two = vec![
        col(arr_opt_i64(&[Some(1), Some(1)])),
        col(arr_str(&["a", "b"])),
    ];
    let folded = query_core::row_hash_column(&hasher, &two, 2).unwrap();
    assert!(!val_equal(folded.get(0), folded.get(1)));

    // An unsupported key type is rejected.
    let bad = vec![col(arr_opt_bool(&[Some(true)]))];
    assert!(query_core::row_hash_column(&hasher, &bad, 1).is_err());
}

#[test]
fn condition_constructor_correlates_error_kind_with_cause() {
    let two = vec![
        DataField::new("f", DataType::Boolean, false),
        DataField::new("t", DataType::Int64, false),
    ];
    let arity = query_core::ConditionFunction::try_create("if", two).unwrap_err();
    assert_eq!(arity.kind(), ErrorKind::NumberArgumentsNotMatch);

    let wrong_flag = vec![
        DataField::new("f", DataType::Int64, false),
        DataField::new("t", DataType::Int64, false),
        DataField::new("e", DataType::Int64, false),
    ];
    let bad = query_core::ConditionFunction::try_create("if", wrong_flag).unwrap_err();
    assert_eq!(bad.kind(), ErrorKind::BadArguments);
}

#[test]
fn bootstrap_registry_holds_builtins_and_alias_pairs() {
    let factory = FunctionFactory::create();
    let names = factory.registered_names();
    for expected in ["+", "plus", "-", "minus", "*", "multiply", "/", "divide", "%", "modulo",
        "=", "!=", "<>", "like", "not like", "and", "or", "not", "substring", "sleep", "if",
        "siphash"] {
        assert!(names.iter().any(|n| n.as_str() == expected), "missing {expected}");
    }
    // Both spellings of an aliased operator behave identically.
    let fields = || vec![
        DataField::new("a", DataType::Int64, false),
        DataField::new("b", DataType::Int64, false),
    ];
    let sym = factory.get("+", fields()).unwrap();
    let word = factory.get("plus", fields()).unwrap();
    let args = vec![col(arr_i64(&[1, 2])), col(arr_i64(&[30, 40]))];
    let r1 = sym.eval(&args, 2).unwrap();
    let r2 = word.eval(&args, 2).unwrap();
    for i in 0..2 {
        assert!(val_equal(r1.get(i), r2.get(i)));
    }
    assert!(val_equal(r1.get(0), &DataValue::Int64(Some(31))));
    let ne1 = factory.get("!=", fields()).unwrap();
    let ne2 = factory.get("<>", fields()).unwrap();
    let s1 = ne1.eval(&args, 2).unwrap();
    let s2 = ne2.eval(&args, 2).unwrap();
    for i in 0..2 {
        assert!(val_equal(s1.get(i), s2.get(i)));
    }
}

#[test]
fn first_missing_column_is_reported_in_preorder() {
    let columns = vec![Expression::Column("a".to_owned())];
    let exprs = vec![
        Expression::BinaryExpression {
            left: Box::new(Expression::Column("b".to_owned())),
            op: "+".to_owned(),
            right: Box::new(Expression::Column("a".to_owned())),
        },
        Expression::Column("c".to_owned()),
    ];
    let missing = query_core::find_columns_not_satisfy_exprs(&columns, &exprs).unwrap().unwrap();
    assert_eq!(missing.display_string(), "b");

    let satisfied = vec![
        Expression::Column("a".to_owned()),
        Expression::Column("b".to_owned()),
        Expression::Column("c".to_owned()),
    ];
    assert!(query_core::find_columns_not_satisfy_exprs(&satisfied, &exprs).unwrap().is_none());
}

#[test]
fn comparison_methods_reject_non_broadcastable_lengths() {
    let left = col(arr_i64(&[1, 2, 3, 4]));
    let right = col(arr_i64(&[1, 2, 3]));
    assert!(left.eq(&right).is_err());
    assert!(left.gt_eq(&right).is_err());
    assert!(left.lt(&right).is_err());
    let sl = col(arr_str(&["a", "b"]));
    let sr = col(arr_str(&["a", "b", "c"]));
    assert!(sl.like(&sr).is_err());
    assert!(sl.nlike(&sr).is_err());
    assert!(sl.eq_missing(&sr).is_err());
}

#[test]
fn batch_filter_rejects_a_mismatched_member() {
    let arrays = vec![arr_i64(&[1, 2, 3]), arr_i64(&[4, 5])];
    let predicate = arr_opt_bool(&[Some(true), Some(false), Some(true)]);
    assert!(DataArrayFilter::filter_batch_array(arrays, &predicate).is_err());
    let wrong_type = arr_i64(&[1, 2, 3]);
    assert!(
        DataArrayFilter::filter_batch_array(vec![arr_i64(&[1, 2, 3])], &wrong_type).is_err()
    );
}

#[test]
fn wildcard_nullability_errs_with_the_illegal_type_kind() {
    let factory = FunctionFactory::create();
    let schema = DataSchema::new(vec![DataField::new("a", DataType::Int64, false)]);
    let wild = Expression::Wildcard.nullable(&schema, &factory).unwrap_err();
    assert_eq!(wild.kind(), ErrorKind::IllegalDataType);
}

#[test]
fn cast_keeps_values_and_nulls_what_does_not_fit() {
    let f = query_core::CastFunction::try_create(
        DataType::Int8,
        vec![DataField::new("a", DataType::Int64, true)],
    )
    .unwrap();
    let cols = vec![col(arr_opt_i64(&[Some(1), Some(300), None, Some(-200)]))];
    let out = f.eval(&cols, 4).unwrap();
    assert!(val_equal(out.get(0), &DataValue::Int8(Some(1))));
    assert!(val_equal(out.get(1), &DataValue::Int8(None)));
    assert!(val_equal(out.get(2), &DataValue::Int8(None)));
    assert!(val_equal(out.get(3), &DataValue::Int8(None)));

    // A negative value cannot enter an unsigned type.
    let g = query_core::CastFunction::try_create(
        DataType::UInt64,
        vec![DataField::new("a", DataType::Int64, false)],
    )
    .unwrap();
    let neg = vec![col(arr_i64(&[-1, 7]))];
    let widened = g.eval(&neg, 2).unwrap();
    assert!(val_equal(widened.get(0), &DataValue::UInt64(None)));
    assert!(val_equal(widened.get(1), &DataValue::UInt64(Some(7))));

    // A non-integer source is refused.
    let strings = vec![col(arr_str(&["x"]))];
    assert_eq!(g.eval(&strings, 1).unwrap_err().kind(), ErrorKind::BadDataValueType);
}
