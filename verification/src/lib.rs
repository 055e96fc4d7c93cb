//! Execution core of a vectorized SQL query engine: a columnar value model,
//! null- and broadcast-aware comparison and filter kernels, hash grouping,
//! a scalar-function registry with a null/constant evaluation adapter, and
//! an expression algebra with static type and nullability resolution.

mod adapter;
mod block;
mod columns;
mod compare;
mod error;
mod expression;
mod factory;
mod filter;
mod functions;
mod group;
mod hashes;
mod kernel;
mod laws;
mod numfmt;
mod rewrite;
mod rowhash;
mod scalars;
mod schema;
mod strutil;
mod values;
mod window;

pub use error::ErrorCode;
pub use error::ErrorKind;
pub use values::DataType;
pub use values::DataValue;
pub use values::val_equal;
pub use values::bytes_equal;
pub use columns::DataArray;
pub use columns::DataColumn;
pub use compare::CompareOp;
pub use compare::like_str;
pub use compare::val_lt;
pub use compare::compare_scalars;
pub use kernel::compare_columns;
pub use kernel::cmp_columns_spec;
pub use kernel::cmp_columns_ok;
pub use filter::DataArrayFilter;
pub use filter::filter_seq;
pub use filter::count_true;
pub use schema::DataField;
pub use schema::DataSchema;
pub use schema::field_index;
pub use block::DataBlock;
pub use rowhash::RowHasher;
pub use rowhash::combine_hashes;
pub use rowhash::row_hash_column;
pub use rowhash::row_hash_args_ok;
pub use group::GroupEntry;
pub use group::GroupIndicesTable;
pub use group::group_table_wf;
pub use group::row_key;
pub use group::group_cols;
pub use group::encode_key;
pub use group::encode_value;
pub use group::GroupBlock;
pub use group::HashGroupBlock;
pub use group::grouped_blocks_ok;
pub use group::group_args_ok;
pub use group::row_covered;
pub use laws::lemma_comparison_trichotomy;
pub use laws::lemma_null_equality;
pub use laws::lemma_broadcast_law;
pub use laws::lemma_grouping_partition;
pub use functions::ArithmeticOp;
pub use functions::LogicOp;
pub use functions::arith_row;
pub use functions::logic_row;
pub use functions::substring_spec;
pub use functions::cast_eval;
pub use functions::cast_cell;
pub use functions::cast_eval_ok;
pub use functions::cast_eval_spec;
pub use functions::int_value_of;
pub use functions::int_in_range;
pub use functions::int_dv_of;
pub use functions::bidx;
pub use functions::col_fits;
pub use hashes::sip_hash_of;
pub use hashes::sip_input;
pub use hashes::sip_cell;
pub use hashes::siphash_eval;
pub use functions::FunctionImpl;
pub use functions::eval_ok;
pub use functions::eval_post;
pub use functions::if_then_else;
pub use functions::if_then_else_u8;
pub use functions::sleep_seconds;
pub use functions::duplicate_array;
pub use columns::duplicate_column;
pub use scalars::ComparisonFunction;
pub use scalars::ComparisonEqFunction;
pub use scalars::ComparisonNotEqFunction;
pub use scalars::ComparisonGtFunction;
pub use scalars::ComparisonGtEqFunction;
pub use scalars::ComparisonLtFunction;
pub use scalars::ComparisonLtEqFunction;
pub use scalars::ComparisonLikeFunction;
pub use scalars::ComparisonNotLikeFunction;
pub use scalars::ArithmeticFunction;
pub use scalars::ArithmeticPlusFunction;
pub use scalars::ArithmeticMinusFunction;
pub use scalars::ArithmeticMulFunction;
pub use scalars::ArithmeticDivFunction;
pub use scalars::ArithmeticModuloFunction;
pub use scalars::LogicFunction;
pub use scalars::LogicAndFunction;
pub use scalars::LogicOrFunction;
pub use scalars::LogicNotFunction;
pub use scalars::StringFunction;
pub use scalars::SubstringFunction;
pub use scalars::ToTypeNameFunction;
pub use scalars::UdfExampleFunction;
pub use scalars::DatabaseFunction;
pub use scalars::VersionFunction;
pub use scalars::SleepFunction;
pub use scalars::CrashMeFunction;
pub use scalars::SipHashFunction;
pub use scalars::ConditionFunction;
pub use scalars::CastFunction;
pub use scalars::ColumnFunction;
pub use scalars::AliasFunction;
pub use scalars::UdfFunction;
pub use scalars::HashesFunction;
pub use factory::FunctionFactory;
pub use factory::bootstrap_entries;
pub use factory::entry_index;
pub use factory::lemma_bootstrap_alias_pairs;
pub use factory::FactoryCreator;
pub use factory::FactoryEntry;
pub use adapter::Function2Adapter;
pub use adapter::any_null_typed;
pub use adapter::any_has_null;
pub use adapter::arg_null_at;
pub use adapter::all_const;
pub use adapter::strip_cell_ok;
pub use adapter::stripped_of;
pub use adapter::merge_cell;
pub use adapter::stripped_merge_ok;
pub use adapter::one_rows_of;
pub use adapter::constant_rebroadcast_ok;
pub use numfmt::dec_digits;
pub use numfmt::dec_int;
pub use numfmt::u64_to_dec;
pub use numfmt::i64_to_dec;
pub use laws::lemma_constant_passthrough;
pub use laws::lemma_constant_adapter_output;
pub use laws::one_row_cols;
pub use laws::lemma_encode_value_congruent;
pub use laws::lemma_encode_key_congruent;
pub use laws::lemma_encode_fixed_injective;
pub use laws::lemma_encode_var_injective;
pub use expression::Expression;
pub use expression::expr_eq;
pub use expression::expr_equal;
pub use expression::expr_chars;
pub use expression::args_chars;
pub use expression::column_name_spec;
pub use expression::literal_chars;
pub use expression::AggregateFunctionDesc;
pub use expression::AggregateFunctionFactory;
pub use rewrite::ReplacementRule;
pub use rewrite::rewrite_ok;
pub use rewrite::rule_matches;
pub use rewrite::replacement_ok;
pub use rewrite::clone_with_replacement;
pub use rewrite::rebase_expr;
pub use rewrite::rebase_expr_from_input;
pub use rewrite::resolve_aliases_to_exprs;
pub use rewrite::unwrap_alias_exprs;
pub use rewrite::expr_as_column_expr;
pub use rewrite::duplicate_exprs;
pub use rewrite::find_aggregate_exprs;
pub use rewrite::find_column_exprs;
pub use rewrite::expand_wildcard;
pub use rewrite::expand_aggregate_arg_exprs;
pub use rewrite::extract_aliases;
pub use rewrite::sort_to_inner_expr;
pub use rewrite::find_columns_not_satisfy_exprs;
pub use rewrite::exprs_contain;
pub use rewrite::found_in;
pub use rewrite::found_in_args;
pub use rewrite::expr_in;
pub use rewrite::dedup_append;
pub use rewrite::seq_expr_eq;
pub use rewrite::referenced_columns;
pub use rewrite::first_missing;
pub use rewrite::lemma_expr_eq_refl;
pub use rewrite::lemma_expr_eq_symm;
pub use rewrite::FindTarget;
pub use window::FrameType;
pub use window::FrameBound;
pub use window::WindowFrame;
