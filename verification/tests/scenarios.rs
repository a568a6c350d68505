//! Concrete end-to-end scenarios through the public pipeline.

use cnlang::pipeline::{run_code, RunError};
use cnlang::errors::RuntimeError;

const FUEL: u64 = 100_000;

fn run(src: &str) -> Vec<String> {
    run_code(src, Vec::new(), FUEL).unwrap()
}

fn run_err(src: &str) -> RuntimeError {
    match run_code(src, Vec::new(), FUEL) {
        Err(RunError::Runtime(e)) => e,
        other => panic!("expected a runtime error, got {:?}", other),
    }
}

#[test]
fn addition_binds_and_reads_back() {
    let out = run("让 x = 3 + 4 打印(x)");
    assert_eq!(out, vec!["7".to_string()]);
}

#[test]
fn if_true_takes_then_branch() {
    let out = run("如果 真 { 打印(\"a\") } 否则 { 打印(\"b\") }");
    assert_eq!(out, vec!["a".to_string()]);
}

#[test]
fn if_false_takes_else_branch() {
    let out = run("如果 假 { 打印(\"a\") } 否则 { 打印(\"b\") }");
    assert_eq!(out, vec!["b".to_string()]);
}

#[test]
fn conditional_loop_counts_to_three() {
    let out = run("让 x = 0 循环 x < 3 { 打印(x) x = x + 1 }");
    assert_eq!(out, vec!["0".to_string(), "1".to_string(), "2".to_string()]);
}

#[test]
fn array_length_is_three() {
    let out = run("让 a = [1, 2, 3] 打印(a.长度())");
    assert_eq!(out, vec!["3".to_string()]);
}

#[test]
fn array_index_out_of_range_names_index_and_length() {
    let e = run_err("让 a = [1, 2, 3] 打印(a[5])");
    assert!(matches!(e, RuntimeError::IndexOutOfRange { index: 5, len: 3 }));
}

#[test]
fn string_plus_number_concatenates_decimal() {
    let out = run("打印(\"值: \" + 5)");
    assert_eq!(out, vec!["值: 5".to_string()]);
}

#[test]
fn string_plus_boolean_concatenates_word() {
    let out = run("打印(\"值: \" + 真)");
    assert_eq!(out, vec!["值: true".to_string()]);
}

#[test]
fn function_doubles_its_argument() {
    let out = run("函数 f(n) { 返回 n * 2 } 打印(f(5))");
    assert_eq!(out, vec!["10".to_string()]);
}

#[test]
fn generated_c_holds_the_doubling_function() {
    let c = cnlang::pipeline::compile_code(
        "函数 f(n) { 返回 n * 2 } 打印(f(5))",
        cnlang::codegen::OutputType::CSource,
    )
    .unwrap();
    assert!(c.contains("Value f(Value n) {"));
    assert!(c.contains("return multiply_values(n, (Value){VALUE_NUMBER, .as.number = 2});"));
    assert!(c.contains("int main() {"));
    assert!(c.contains("long long number;"));
    assert!(c.contains("builtin_print(f((Value){VALUE_NUMBER, .as.number = 5}));"));
}

#[test]
fn lexical_scoping_reads_the_defining_environment() {
    let out = run(
        "让 x = 1 函数 f() { 返回 x } 函数 g() { 让 x = 2 返回 f() } 打印(g())",
    );
    assert_eq!(out, vec!["1".to_string()]);
}

#[test]
fn logical_or_evaluates_both_operands() {
    let out = run("真 或 (打印(\"side-effect\") 且 真)");
    assert_eq!(out, vec!["side-effect".to_string()]);
}

#[test]
fn logical_and_evaluates_both_operands() {
    let out = run("假 且 打印(\"still-runs\")");
    assert_eq!(out, vec!["still-runs".to_string()]);
}

#[test]
fn division_by_zero_is_a_dedicated_error() {
    let e = run_err("打印(5 / 0)");
    assert!(matches!(e, RuntimeError::DivisionByZero));
}

#[test]
fn division_truncates_toward_zero() {
    let out = run("打印(7 / 2) 打印((0 - 7) / 2)");
    assert_eq!(out, vec!["3".to_string(), "-3".to_string()]);
}

#[test]
fn negative_index_is_out_of_range() {
    let e = run_err("让 a = [1, 2, 3] 打印(a[0 - 1])");
    assert!(matches!(e, RuntimeError::IndexOutOfRange { index: -1, len: 3 }));
}

#[test]
fn in_range_indexes_always_succeed() {
    let out = run("让 a = [10, 20, 30] 打印(a[0]) 打印(a[1]) 打印(a[2])");
    assert_eq!(out, vec!["10".to_string(), "20".to_string(), "30".to_string()]);
}

#[test]
fn append_yields_a_new_array_value() {
    let out = run("让 a = [1] 让 b = a.添加(2) 打印(a.长度()) 打印(b.长度())");
    assert_eq!(out, vec!["1".to_string(), "2".to_string()]);
}

#[test]
fn remove_at_shifts_elements_left() {
    let out = run("让 a = [1, 2, 3] 打印(a.删除(1))");
    assert_eq!(out, vec!["[1, 3]".to_string()]);
}

#[test]
fn remove_at_out_of_range_names_index_and_length() {
    let e = run_err("让 a = [1, 2] 打印(a.删除(7))");
    assert!(matches!(e, RuntimeError::IndexOutOfRange { index: 7, len: 2 }));
}

#[test]
fn equality_is_structural_and_cross_type_is_false() {
    let out = run("打印(1 == 1) 打印(1 == \"1\") 打印(\"a\" != \"b\")");
    assert_eq!(
        out,
        vec!["true".to_string(), "false".to_string(), "true".to_string()]
    );
}

#[test]
fn truthiness_of_empty_array_is_true() {
    let out = run("如果 [] { 打印(\"truthy\") } 否则 { 打印(\"falsy\") }");
    assert_eq!(out, vec!["truthy".to_string()]);
}

#[test]
fn truthiness_of_zero_and_empty_string_is_false() {
    let out = run("打印(非 0) 打印(非 \"\") 打印(非 \"x\")");
    assert_eq!(
        out,
        vec!["true".to_string(), "true".to_string(), "false".to_string()]
    );
}

#[test]
fn while_form_reevaluates_its_condition_before_each_body() {
    let out = run("让 n = 0 当 (n = n + 1) < 3 { 打印(n) }");
    assert_eq!(out, vec!["2".to_string(), "3".to_string()]);
}

#[test]
fn foreach_iterates_string_characters_and_binding_persists() {
    let out = run("对于 c 在 \"abc\" { 打印(c) } 打印(c)");
    assert_eq!(
        out,
        vec![
            "a".to_string(),
            "b".to_string(),
            "c".to_string(),
            "c".to_string()
        ]
    );
}

#[test]
fn foreach_over_a_number_is_not_iterable() {
    let e = run_err("对于 c 在 5 { 打印(c) }");
    assert!(matches!(e, RuntimeError::NotIterable));
}

#[test]
fn break_leaves_the_loop_and_continue_skips() {
    let out = run(
        "让 x = 0 循环 { 如果 x == 3 { 跳出 } 否则 { } x = x + 1 } 打印(x)",
    );
    assert_eq!(out, vec!["3".to_string()]);
}

#[test]
fn input_lines_are_read_in_order_then_empty() {
    let out = run_code(
        "打印(输入()) 打印(输入()) 打印(输入())",
        vec!["hi".to_string(), "there".to_string()],
        FUEL,
    )
    .unwrap();
    assert_eq!(
        out,
        vec!["hi".to_string(), "there".to_string(), "".to_string()]
    );
}

#[test]
fn infinite_loop_ends_in_out_of_fuel() {
    let e = match run_code("循环 { }", Vec::new(), 50) {
        Err(RunError::Runtime(e)) => e,
        other => panic!("expected out of fuel, got {:?}", other),
    };
    assert!(matches!(e, RuntimeError::OutOfFuel));
}

#[test]
fn stray_break_at_top_level_is_an_error() {
    let e = run_err("跳出");
    assert!(matches!(e, RuntimeError::StrayControlFlow));
}

#[test]
fn undefined_variable_read_names_it() {
    let e = run_err("打印(没有)");
    assert!(matches!(e, RuntimeError::UndefinedVariable(_)));
}

#[test]
fn assignment_only_touches_the_innermost_frame() {
    let e = run_err("让 x = 1 函数 f() { x = 2 返回 0 } f()");
    assert!(matches!(e, RuntimeError::UndefinedVariable(_)));
}

#[test]
fn arity_mismatch_names_expected_and_got() {
    let e = run_err("函数 f(a, b) { 返回 a } f(1)");
    assert!(matches!(e, RuntimeError::ArityMismatch { expected: 2, got: 1 }));
}

#[test]
fn addition_overflow_is_an_error() {
    let e = run_err("打印(9223372036854775807 + 1)");
    assert!(matches!(e, RuntimeError::Overflow));
}

#[test]
fn recursion_works_through_the_scope_chain() {
    let out = run(
        "函数 fact(n) { 如果 n < 2 { 返回 1 } 否则 { 返回 n * fact(n - 1) } } 打印(fact(6))",
    );
    assert_eq!(out, vec!["720".to_string()]);
}

#[test]
fn comments_are_skipped_to_end_of_line() {
    let out = run("让 x = 1 // 这是注释 let y\n打印(x)");
    assert_eq!(out, vec!["1".to_string()]);
}

#[test]
fn strings_inside_arrays_print_quoted() {
    let out = run("打印([\"a\", 1])");
    assert_eq!(out, vec!["[\"a\", 1]".to_string()]);
}

#[test]
fn identifiers_accept_other_letter_scripts() {
    let out = run("让 αβ = 41 让 вес = αβ + 1 打印(вес)");
    assert_eq!(out, vec!["42".to_string()]);
}

#[test]
fn unicode_spaces_are_insignificant() {
    let out = run("让\u{2003}x\u{2003}=\u{2003}5 打印(x)");
    assert_eq!(out, vec!["5".to_string()]);
}
