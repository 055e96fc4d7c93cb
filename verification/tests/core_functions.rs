//! The carried-over behaviour tests of the scalar functions and the
//! filter kernel, driven through the public library surface.

use query_core::val_equal;
use query_core::ColumnFunction;
use query_core::ComparisonEqFunction;
use query_core::ComparisonGtEqFunction;
use query_core::ComparisonGtFunction;
use query_core::ComparisonLikeFunction;
use query_core::ComparisonLtEqFunction;
use query_core::ComparisonLtFunction;
use query_core::ComparisonNotEqFunction;
use query_core::ComparisonNotLikeFunction;
use query_core::DataArray;
use query_core::DataArrayFilter;
use query_core::DataBlock;
use query_core::DataColumn;
use query_core::DataField;
use query_core::DataSchema;
use query_core::DataType;
use query_core::DataValue;
use query_core::FunctionImpl;
use query_core::LogicAndFunction;
use query_core::LogicNotFunction;
use query_core::LogicOrFunction;
use query_core::SipHashFunction;
use query_core::SubstringFunction;
use query_core::ToTypeNameFunction;
use query_core::UdfExampleFunction;

fn arr_i64(vals: &[i64]) -> DataArray {
    let values: Vec<DataValue> = vals.iter().map(|v| DataValue::Int64(Some(*v))).collect();
    DataArray::try_create(DataType::Int64, values).unwrap()
}

fn arr_bool(vals: &[bool]) -> DataArray {
    let values: Vec<DataValue> = vals.iter().map(|v| DataValue::Boolean(Some(*v))).collect();
    DataArray::try_create(DataType::Boolean, values).unwrap()
}

fn arr_opt_bool(vals: &[Option<bool>]) -> DataArray {
    let values: Vec<DataValue> = vals.iter().map(|v| DataValue::Boolean(*v)).collect();
    DataArray::try_create(DataType::Boolean, values).unwrap()
}

fn arr_str(vals: &[&str]) -> DataArray {
    let values: Vec<DataValue> =
        vals.iter().map(|v| DataValue::Utf8(Some((*v).to_owned()))).collect();
    DataArray::try_create(DataType::Utf8, values).unwrap()
}

fn col(a: DataArray) -> DataColumn {
    DataColumn::Array(a)
}

fn assert_column_equals(actual: &DataColumn, expected: &DataArray, name: &str) {
    assert_eq!(actual.len(), expected.len(), "length mismatch in {}", name);
    for i in 0..actual.len() {
        assert!(
            val_equal(actual.get(i), expected.get(i)),
            "row {} differs in {}: {:?} vs {:?}",
            i,
            name,
            actual.get(i),
            expected.get(i)
        );
    }
}

#[test]
fn test_comparison_function() {
    struct Test {
        name: &'static str,
        display: &'static str,
        nullable: bool,
        columns: Vec<DataColumn>,
        expect: DataArray,
        func: FunctionImpl,
    }

    let tests = vec![
        Test {
            name: "eq-passed",
            display: "=",
            nullable: false,
            func: ComparisonEqFunction::try_create_func("", Vec::new()).unwrap(),
            columns: vec![col(arr_i64(&[4, 3, 2, 4])), col(arr_i64(&[1, 2, 3, 4]))],
            expect: arr_bool(&[false, false, false, true]),
        },
        Test {
            name: "gt-passed",
            display: ">",
            nullable: false,
            func: ComparisonGtFunction::try_create_func("", Vec::new()).unwrap(),
            columns: vec![col(arr_i64(&[4, 3, 2, 4])), col(arr_i64(&[1, 2, 3, 4]))],
            expect: arr_bool(&[true, true, false, false]),
        },
        Test {
            name: "gt-eq-passed",
            display: ">=",
            nullable: false,
            func: ComparisonGtEqFunction::try_create_func("", Vec::new()).unwrap(),
            columns: vec![col(arr_i64(&[4, 3, 2, 4])), col(arr_i64(&[1, 2, 3, 4]))],
            expect: arr_bool(&[true, true, false, true]),
        },
        Test {
            name: "lt-passed",
            display: "<",
            nullable: false,
            func: ComparisonLtFunction::try_create_func("", Vec::new()).unwrap(),
            columns: vec![col(arr_i64(&[4, 3, 2, 4])), col(arr_i64(&[1, 2, 3, 4]))],
            expect: arr_bool(&[false, false, true, false]),
        },
        Test {
            name: "lt-eq-passed",
            display: "<=",
            nullable: false,
            func: ComparisonLtEqFunction::try_create_func("", Vec::new()).unwrap(),
            columns: vec![col(arr_i64(&[4, 3, 2, 4])), col(arr_i64(&[1, 2, 3, 4]))],
            expect: arr_bool(&[false, false, true, true]),
        },
        Test {
            name: "not-eq-passed",
            display: "!=",
            nullable: false,
            func: ComparisonNotEqFunction::try_create_func("", Vec::new()).unwrap(),
            columns: vec![col(arr_i64(&[4, 3, 2, 4])), col(arr_i64(&[1, 2, 3, 4]))],
            expect: arr_bool(&[true, true, true, false]),
        },
        Test {
            name: "like-passed",
            display: "LIKE",
            nullable: false,
            func: ComparisonLikeFunction::try_create_func("", Vec::new()).unwrap(),
            columns: vec![
                col(arr_str(&["abc", "abd", "abe", "abf"])),
                col(arr_str(&["a%", "_b_", "abe", "a"])),
            ],
            expect: arr_bool(&[true, true, true, false]),
        },
        Test {
            name: "not-like-passed",
            display: "NOT LIKE",
            nullable: false,
            func: ComparisonNotLikeFunction::try_create_func("", Vec::new()).unwrap(),
            columns: vec![
                col(arr_str(&["abc", "abd", "abe", "abf"])),
                col(arr_str(&["a%", "_b_", "abe", "a"])),
            ],
            expect: arr_bool(&[false, false, false, true]),
        },
    ];

    for t in tests {
        let rows = t.columns[0].len();
        let func = t.func;

        let actual_display = func.display_string();
        assert_eq!(t.display.to_owned(), actual_display, "{}", t.name);

        let actual_null = func.nullable().unwrap();
        assert_eq!(t.nullable, actual_null, "{}", t.name);

        let v = func.eval(&t.columns, rows).unwrap();
        let expect_type = func.return_type().unwrap();
        let actual_type = v.data_type();
        assert_eq!(expect_type, actual_type, "{}", t.name);

        assert_column_equals(&v, &t.expect, t.name);
    }
}

#[test]
fn test_logic_function() {
    struct Test {
        name: &'static str,
        display: &'static str,
        nullable: bool,
        columns: Vec<DataColumn>,
        expect: DataArray,
        func: FunctionImpl,
    }

    let tests = vec![
        Test {
            name: "and-passed",
            display: "and",
            nullable: false,
            func: LogicAndFunction::try_create_func("", Vec::new()).unwrap(),
            columns: vec![
                col(arr_bool(&[true, true, true, false])),
                col(arr_bool(&[true, false, true, true])),
            ],
            expect: arr_bool(&[true, false, true, false]),
        },
        Test {
            name: "or-passed",
            display: "or",
            nullable: false,
            func: LogicOrFunction::try_create_func("", Vec::new()).unwrap(),
            columns: vec![
                col(arr_bool(&[true, true, true, false])),
                col(arr_bool(&[true, false, true, true])),
            ],
            expect: arr_bool(&[true, true, true, true]),
        },
        Test {
            name: "not-passed",
            display: "not",
            nullable: false,
            func: LogicNotFunction::try_create_func("", Vec::new()).unwrap(),
            columns: vec![col(arr_bool(&[true, false]))],
            expect: arr_bool(&[false, true]),
        },
    ];

    for t in tests {
        let func = t.func;
        let rows = t.columns[0].len();

        let actual_display = func.display_string();
        assert_eq!(t.display.to_owned(), actual_display, "{}", t.name);

        let actual_null = func.nullable().unwrap();
        assert_eq!(t.nullable, actual_null, "{}", t.name);

        let v = func.eval(&t.columns, rows).unwrap();
        let expect_type = func.return_type().unwrap();
        let actual_type = v.data_type();
        assert_eq!(expect_type, actual_type, "{}", t.name);

        assert_column_equals(&v, &t.expect, t.name);
    }
}

#[test]
fn test_substring_function() {
    struct Test {
        name: &'static str,
        display: &'static str,
        nullable: bool,
        columns: Vec<DataColumn>,
        expect: DataArray,
        func: FunctionImpl,
    }

    fn data_fields() -> Vec<DataField> {
        vec![
            DataField::new("a", DataType::Utf8, false),
            DataField::new("b", DataType::Int64, false),
            DataField::new("c", DataType::UInt64, false),
        ]
    }

    fn arr_u64(vals: &[u64]) -> DataArray {
        let values: Vec<DataValue> = vals.iter().map(|v| DataValue::UInt64(Some(*v))).collect();
        DataArray::try_create(DataType::UInt64, values).unwrap()
    }

    let tests = vec![
        Test {
            name: "substring-abcde-passed",
            display: "SUBSTRING",
            nullable: false,
            columns: vec![
                col(arr_str(&["abcde"])),
                col(arr_i64(&[2])),
                col(arr_u64(&[3])),
            ],
            func: SubstringFunction::try_create("substring", data_fields()).unwrap(),
            expect: arr_str(&["bcd"]),
        },
        Test {
            name: "substring-abcde-passed",
            display: "SUBSTRING",
            nullable: false,
            columns: vec![
                col(arr_str(&["abcde"])),
                col(arr_i64(&[1])),
                col(arr_u64(&[3])),
            ],
            func: SubstringFunction::try_create("substring", data_fields()).unwrap(),
            expect: arr_str(&["abc"]),
        },
        Test {
            name: "substring-abcde-passed",
            display: "SUBSTRING",
            nullable: false,
            columns: vec![col(arr_str(&["abcde"])), col(arr_i64(&[2]))],
            func: SubstringFunction::try_create("substring", data_fields()).unwrap(),
            expect: arr_str(&["bcde"]),
        },
        Test {
            name: "substring-1234567890-passed",
            display: "SUBSTRING",
            nullable: false,
            columns: vec![
                col(arr_str(&["1234567890"])),
                col(arr_i64(&[-3])),
                col(arr_u64(&[3])),
            ],
            func: SubstringFunction::try_create("substring", data_fields()).unwrap(),
            expect: arr_str(&["890"]),
        },
    ];

    for t in tests {
        let func = t.func;
        let rows = t.columns[0].len();

        let actual_display = func.display_string();
        assert_eq!(t.display.to_owned(), actual_display, "{}", t.name);

        let actual_null = func.nullable().unwrap();
        assert_eq!(t.nullable, actual_null, "{}", t.name);

        let v = func.eval(&t.columns, rows).unwrap();
        let expect_type = func.return_type().unwrap();
        let actual_type = v.data_type();
        assert_eq!(expect_type, actual_type, "{}", t.name);

        assert_column_equals(&v, &t.expect, t.name);
    }
}

#[test]
fn test_to_type_name_function() {
    let func = ToTypeNameFunction::try_create("toTypeName", Vec::new()).unwrap();
    let columns = vec![col(arr_bool(&[true, true, true, false]))];
    let rows = columns[0].len();

    let actual_display = func.display_string();
    assert_eq!("toTypeName".to_owned(), actual_display);

    let actual_null = func.nullable().unwrap();
    assert_eq!(false, actual_null);

    let v = func.eval(&columns, rows).unwrap();
    let expect_type = func.return_type().unwrap();
    let actual_type = v.data_type();
    assert_eq!(expect_type, actual_type);

    let expect = arr_str(&["Boolean", "Boolean", "Boolean", "Boolean"]);
    assert_column_equals(&v, &expect, "to_type_name-example-passed");
}

#[test]
fn test_udf_example_function() {
    let func = UdfExampleFunction::try_create("example", Vec::new()).unwrap();
    let columns = vec![
        col(arr_bool(&[true, true, true, false])),
        col(arr_bool(&[true, false, true, true])),
    ];

    let actual_display = func.display_string();
    assert_eq!("example()".to_owned(), actual_display);

    let actual_null = func.nullable().unwrap();
    assert_eq!(false, actual_null);

    let v = func.eval(&columns, columns[0].len()).unwrap();
    let expect_type = func.return_type().unwrap();
    let actual_type = v.data_type();
    assert_eq!(expect_type, actual_type);

    let expect = arr_bool(&[true, true, true, true]);
    assert_column_equals(&v, &expect, "udf-example-passed");
}

#[test]
fn test_column_function() {
    let schema = DataSchema::new(vec![DataField::new("a", DataType::Boolean, false)]);
    let block =
        DataBlock::create_by_array(schema, vec![arr_bool(&[true, true, true, false])]).unwrap();

    let func =
        ColumnFunction::try_create("a", vec![DataField::new("a", DataType::Boolean, false)])
            .unwrap();
    let fetched = block.try_column_by_name(&"a".to_owned()).unwrap();
    let columns = vec![query_core::duplicate_column(fetched)];
    let out = func.eval(&columns, block.num_rows()).unwrap();
    assert_eq!(out.len(), 4);
}

#[test]
fn test_siphash_function() {
    struct Test {
        name: &'static str,
        data_field: Vec<DataField>,
        input_column: DataColumn,
        expect_output_column: DataArray,
    }

    fn arr_of(t: DataType, vals: Vec<DataValue>) -> DataArray {
        DataArray::try_create(t, vals).unwrap()
    }

    fn arr_u64(vals: &[u64]) -> DataArray {
        let values: Vec<DataValue> = vals.iter().map(|v| DataValue::UInt64(Some(*v))).collect();
        DataArray::try_create(DataType::UInt64, values).unwrap()
    }

    let tests = vec![
        Test {
            name: "Int8Array siphash",
            data_field: vec![DataField::new("", DataType::Int8, false)],
            input_column: col(arr_of(
                DataType::Int8,
                vec![
                    DataValue::Int8(Some(1)),
                    DataValue::Int8(Some(2)),
                    DataValue::Int8(Some(1)),
                ],
            )),
            expect_output_column: arr_u64(&[
                4952851536318644461,
                7220060526038107403,
                4952851536318644461,
            ]),
        },
        Test {
            name: "Int16Array siphash",
            data_field: vec![DataField::new("", DataType::Int16, false)],
            input_column: col(arr_of(
                DataType::Int16,
                vec![
                    DataValue::Int16(Some(1)),
                    DataValue::Int16(Some(2)),
                    DataValue::Int16(Some(1)),
                ],
            )),
            expect_output_column: arr_u64(&[
                10500823559348167161,
                4091451155859037844,
                10500823559348167161,
            ]),
        },
        Test {
            name: "Int32Array siphash",
            data_field: vec![DataField::new("", DataType::Int32, false)],
            input_column: col(arr_of(
                DataType::Int32,
                vec![
                    DataValue::Int32(Some(1)),
                    DataValue::Int32(Some(2)),
                    DataValue::Int32(Some(1)),
                ],
            )),
            expect_output_column: arr_u64(&[
                1742378985846435984,
                16336925911988107921,
                1742378985846435984,
            ]),
        },
        Test {
            name: "Int64Array siphash",
            data_field: vec![DataField::new("", DataType::Int64, false)],
            input_column: col(arr_i64(&[1, 2, 1])),
            expect_output_column: arr_u64(&[
                2206609067086327257,
                11876854719037224982,
                2206609067086327257,
            ]),
        },
        Test {
            name: "UInt8Array siphash",
            data_field: vec![DataField::new("", DataType::UInt8, false)],
            input_column: col(arr_of(
                DataType::UInt8,
                vec![
                    DataValue::UInt8(Some(1)),
                    DataValue::UInt8(Some(2)),
                    DataValue::UInt8(Some(1)),
                ],
            )),
            expect_output_column: arr_u64(&[
                4952851536318644461,
                7220060526038107403,
                4952851536318644461,
            ]),
        },
        Test {
            name: "UInt16Array siphash",
            data_field: vec![DataField::new("", DataType::UInt16, false)],
            input_column: col(arr_of(
                DataType::UInt16,
                vec![
                    DataValue::UInt16(Some(1)),
                    DataValue::UInt16(Some(2)),
                    DataValue::UInt16(Some(1)),
                ],
            )),
            expect_output_column: arr_u64(&[
                10500823559348167161,
                4091451155859037844,
                10500823559348167161,
            ]),
        },
        Test {
            name: "UInt32Array siphash",
            data_field: vec![DataField::new("", DataType::UInt32, false)],
            input_column: col(arr_of(
                DataType::UInt32,
                vec![
                    DataValue::UInt32(Some(1)),
                    DataValue::UInt32(Some(2)),
                    DataValue::UInt32(Some(1)),
                ],
            )),
            expect_output_column: arr_u64(&[
                1742378985846435984,
                16336925911988107921,
                1742378985846435984,
            ]),
        },
        Test {
            name: "UInt64Array siphash",
            data_field: vec![DataField::new("", DataType::UInt64, false)],
            input_column: col(arr_u64(&[1, 2, 1])),
            expect_output_column: arr_u64(&[
                2206609067086327257,
                11876854719037224982,
                2206609067086327257,
            ]),
        },
    ];

    for test in tests {
        let function = SipHashFunction::try_create("siphash", test.data_field).unwrap();
        let rows = test.input_column.len();
        let result_column = function.eval(&vec![test.input_column], rows).unwrap();
        assert_column_equals(&result_column, &test.expect_output_column, test.name);
    }
}

#[test]
fn filter_batch_array() {
    struct FilterArrayTest {
        name: &'static str,
        filter: DataArray,
        expect: Vec<DataArray>,
    }

    fn batch() -> Vec<DataArray> {
        vec![arr_i64(&[1, 2, 3, 4, 5]), arr_i64(&[6, 7, 8, 9, 10])]
    }

    let tests = vec![
        FilterArrayTest {
            name: "normal filter",
            filter: arr_bool(&[true, false, true, false, true]),
            expect: vec![arr_i64(&[1, 3, 5]), arr_i64(&[6, 8, 10])],
        },
        FilterArrayTest {
            name: "filter contain null",
            filter: arr_opt_bool(&[Some(true), Some(false), Some(true), None, None]),
            expect: vec![arr_i64(&[1, 3]), arr_i64(&[6, 8])],
        },
    ];

    for t in tests {
        let result = DataArrayFilter::filter_batch_array(batch(), &t.filter).unwrap();
        assert_eq!(t.expect.len(), result.len());
        for i in 0..t.expect.len() {
            let got = &result[i];
            let want = &t.expect[i];
            assert_eq!(got.len(), want.len(), "{}", t.name);
            for r in 0..got.len() {
                assert!(val_equal(got.get(r), want.get(r)), "{}", t.name);
            }
        }
    }
}
