//! The stages one by one: the lexer's tokens and errors, the parser's
//! errors, the printer's round trip, and the generated C text.

use cnlang::codegen::{CodeGenerator, OutputType};
use cnlang::errors::{LexError, ParseError};
use cnlang::fmt::format_program;
use cnlang::lexer::{Lexer, TokenType};
use cnlang::parser::Parser;
use cnlang::pipeline::{compile_code, run_code, RunError};

fn tokens_of_source(src: &str) -> Vec<cnlang::lexer::Token> {
    Lexer::new(src).tokenize().unwrap()
}

fn lex_err(src: &str) -> LexError {
    Lexer::new(src).tokenize().unwrap_err()
}

fn parse_err(src: &str) -> ParseError {
    match run_code(src, Vec::new(), 1000) {
        Err(RunError::Parse(e)) => e,
        other => panic!("expected a parse error, got {:?}", other),
    }
}

fn reformat(src: &str) -> String {
    let tokens = tokens_of_source(src);
    let mut parser = Parser::new(tokens);
    let program = parser.parse().unwrap();
    format_program(&program)
}

#[test]
fn tokens_carry_lines_and_columns() {
    let ts = tokens_of_source("让 x = 1\n打印(x)");
    assert!(matches!(ts[0].token_type, TokenType::KwLet));
    assert_eq!((ts[0].line, ts[0].column), (1, 1));
    assert!(matches!(ts[1].token_type, TokenType::Ident(_)));
    assert_eq!((ts[1].line, ts[1].column), (1, 3));
    assert!(matches!(ts[2].token_type, TokenType::Assign));
    assert!(matches!(ts[3].token_type, TokenType::Num(1)));
    assert_eq!((ts[4].line, ts[4].column), (2, 1));
    assert!(matches!(ts.last().unwrap().token_type, TokenType::Eof));
}

#[test]
fn two_character_operators_need_one_lookahead() {
    let ts = tokens_of_source("== = >= > <= < !=");
    assert!(matches!(ts[0].token_type, TokenType::Eq));
    assert!(matches!(ts[1].token_type, TokenType::Assign));
    assert!(matches!(ts[2].token_type, TokenType::Ge));
    assert!(matches!(ts[3].token_type, TokenType::Gt));
    assert!(matches!(ts[4].token_type, TokenType::Le));
    assert!(matches!(ts[5].token_type, TokenType::Lt));
    assert!(matches!(ts[6].token_type, TokenType::Ne));
}

#[test]
fn a_lone_exclamation_mark_is_an_unknown_character() {
    let e = lex_err("让 x = ! 1");
    assert!(matches!(e, LexError::UnknownChar { ch: '!', line: 1, column: 7 }));
}

#[test]
fn string_escapes_decode() {
    let ts = tokens_of_source("\"a\\n\\t\\r\\\\\\\"z\"");
    match &ts[0].token_type {
        TokenType::Str(s) => assert_eq!(s, "a\n\t\r\\\"z"),
        other => panic!("expected a string token, got {:?}", other),
    }
}

#[test]
fn unknown_escapes_pass_through() {
    let ts = tokens_of_source("\"a\\qz\"");
    match &ts[0].token_type {
        TokenType::Str(s) => assert_eq!(s, "aqz"),
        other => panic!("expected a string token, got {:?}", other),
    }
}

#[test]
fn unterminated_string_is_a_lexical_error() {
    let e = lex_err("让 x = \"abc");
    assert!(matches!(e, LexError::UnterminatedString { line: 1, column: 8 }));
}

#[test]
fn unknown_character_is_a_lexical_error_with_position() {
    let e = lex_err("让 x = @");
    assert!(matches!(e, LexError::UnknownChar { ch: '@', line: 1, column: 7 }));
}

#[test]
fn zero_fraction_literal_reads_as_its_integer_part() {
    let out = run_code("打印(3.0)", Vec::new(), 1000).unwrap();
    assert_eq!(out, vec!["3".to_string()]);
}

#[test]
fn nonzero_fraction_literal_is_malformed() {
    let e = lex_err("让 x = 1.5");
    assert!(matches!(e, LexError::MalformedNumber { line: 1, column: 7 }));
}

#[test]
fn oversized_number_literal_is_malformed() {
    let e = lex_err("让 x = 99999999999999999999");
    assert!(matches!(e, LexError::MalformedNumber { .. }));
}

#[test]
fn keywords_need_exact_spellings() {
    let ts = tokens_of_source("如果x 如果 循环2");
    assert!(matches!(ts[0].token_type, TokenType::Ident(_)));
    assert!(matches!(ts[1].token_type, TokenType::KwIf));
    assert!(matches!(ts[2].token_type, TokenType::Ident(_)));
}

#[test]
fn missing_brace_is_a_syntax_error() {
    let e = parse_err("如果 真 { 打印(1)");
    assert!(matches!(e, ParseError::ExpectedRightBrace));
}

#[test]
fn declaration_needs_a_name() {
    let e = parse_err("让 = 1");
    assert!(matches!(e, ParseError::ExpectedVariableName));
}

#[test]
fn assignment_target_must_be_a_variable() {
    let e = parse_err("1 = 2");
    assert!(matches!(e, ParseError::InvalidAssignmentTarget));
}

#[test]
fn unknown_postfix_method_is_rejected() {
    let e = parse_err("让 a = [1] a.翻转()");
    assert!(matches!(e, ParseError::UnknownMethod));
}

#[test]
fn round_trip_is_idempotent_on_a_full_program() {
    let src = "让 x = 3 + 4\n函数 f(n, m) { 如果 n > m { 返回 n } 否则 { 返回 m } }\n循环 x < 9 { x = x + 1 }\n当 x > 0 { x = x - 1 }\n对于 c 在 \"ab\" { 打印(c) }\n让 a = [1, 2]\n打印(a.添加(3).删除(0))\n打印(非 真 或 假)\n打印(0 - x)";
    let once = reformat(src);
    let twice = reformat(&once);
    assert_eq!(once, twice);
}

#[test]
fn round_trip_is_idempotent_on_else_if_chains() {
    let src = "让 x = 2 如果 x == 1 { 打印(1) } 否则 如果 x == 2 { 打印(2) } 否则 { 打印(3) }";
    let once = reformat(src);
    let twice = reformat(&once);
    assert_eq!(once, twice);
}

#[test]
fn reformatted_program_behaves_identically() {
    let src = "让 x = 0 循环 x < 3 { 打印(x) x = x + 1 }";
    let printed = reformat(src);
    let a = run_code(src, Vec::new(), 10_000).unwrap();
    let b = run_code(&printed, Vec::new(), 10_000).unwrap();
    assert_eq!(a, b);
}

#[test]
fn generated_print_writes_strings_bare() {
    let gen = CodeGenerator::new(OutputType::CSource);
    let runtime = gen.generate_builtin_functions();
    assert!(runtime.contains("if (value.type == VALUE_STRING) {"));
    assert!(runtime.contains("printf(\"%s\\n\", value.as.string);"));
}

#[test]
fn generated_string_literals_are_escaped() {
    let c = compile_code("打印(\"a\\\"b\\\\c\")", OutputType::CSource).unwrap();
    assert!(c.contains("(Value){VALUE_STRING, .as.string = \"a\\\"b\\\\c\"}"));
}

#[test]
fn printed_string_literals_reescape_and_round_trip() {
    let src = "打印(\"a\\\"b\\\\c\\nd\")";
    let once = reformat(src);
    let twice = reformat(&once);
    assert_eq!(once, twice);
    let a = run_code(src, Vec::new(), 1000).unwrap();
    let b = run_code(&once, Vec::new(), 1000).unwrap();
    assert_eq!(a, b);
    assert_eq!(a, vec!["a\"b\\c\nd".to_string()]);
}

#[test]
fn not_equal_operator_compares() {
    let out = run_code("打印(1 != 2) 打印(1 != 1)", Vec::new(), 1000).unwrap();
    assert_eq!(out, vec!["true".to_string(), "false".to_string()]);
}

#[test]
fn generated_source_carries_the_runtime_library() {
    let gen = CodeGenerator::new(OutputType::CSource);
    let runtime = gen.generate_builtin_functions();
    assert!(runtime.contains("void builtin_print(Value value)"));
    assert!(runtime.contains("Value divide_values(Value a, Value b)"));
    assert!(runtime.contains("runtime_fail(\"除零错误\")"));
    assert!(runtime.contains("数组索引越界"));
    assert!(runtime.contains("Value logical_and(Value a, Value b)"));
}

#[test]
fn generated_truthiness_keeps_arrays_truthy() {
    let gen = CodeGenerator::new(OutputType::CSource);
    let runtime = gen.generate_builtin_functions();
    assert!(runtime.contains("default: return true;"));
    assert!(!runtime.contains("value.as.array.count > 0"));
}

#[test]
fn generated_statements_follow_the_value_rules() {
    let c = compile_code(
        "让 a = [1, 2] 让 b = a.添加(3) 如果 a { 打印(a[0]) } 否则 { }",
        OutputType::CSource,
    )
    .unwrap();
    assert!(c.contains(
        "Value a = array_append(array_append(create_array(), (Value){VALUE_NUMBER, .as.number = 1}), (Value){VALUE_NUMBER, .as.number = 2});"
    ));
    assert!(c.contains("Value b = array_append(a, (Value){VALUE_NUMBER, .as.number = 3});"));
    assert!(c.contains("if (is_truthy(a)) {"));
    assert!(c.contains("builtin_print(array_get(a, ((Value){VALUE_NUMBER, .as.number = 0}).as.number));"));
}

#[test]
fn generated_while_form_keeps_the_two_evaluation_quirk() {
    let c = compile_code("让 x = 1 当 x < 3 { x = x + 1 }", OutputType::CSource).unwrap();
    assert!(c.contains("Value _cond = "));
    assert!(c.contains("while (is_truthy(_cond)) {"));
    assert!(c.contains("_cond = (Value){VALUE_BOOLEAN, .as.boolean = number_compare(x, (Value){VALUE_NUMBER, .as.number = 3}) < 0};"));
}

#[test]
fn output_type_is_kept_for_the_toolchain_glue() {
    let gen = CodeGenerator::new(OutputType::Dll);
    assert!(matches!(gen.output_type(), OutputType::Dll));
}

#[test]
fn program_builder_appends_statements_in_order() {
    let mut program = cnlang::ast::Program::new();
    program.push_statement(cnlang::ast::Statement::Break);
    program.push_statement(cnlang::ast::Statement::Continue);
    assert_eq!(program.statements.len(), 2);
    assert!(matches!(program.statements[0], cnlang::ast::Statement::Break));
    assert!(matches!(program.statements[1], cnlang::ast::Statement::Continue));
}
