//! The code generator: it lowers a program into one freestanding C source
//! unit — a tagged runtime value, a small runtime support library, helper
//! functions mirroring the interpreter's value rules, one C function per
//! declared language function, and a `main` holding the other top-level
//! statements.
//!
//! The generated runtime follows the same canonical semantics the
//! interpreter is verified against: 64-bit integer numbers, truthiness with
//! arrays always truthy, value-semantics array append and remove, logical
//! operators that evaluate both operands, a hard stop on division by zero
//! and on an out-of-range index. Function parameters keep their source
//! names — an AST-level symbol table — instead of textual substitution.

use vstd::prelude::*;
use crate::ast::{BinOp, Expression, Program, Statement};
use crate::numfmt::{i64_to_string, int_chars};
use crate::strutil::{escape_chars, escape_string};

verus! {

/// The artifact kind the caller wants: an executable, a shared library, a
/// relocatable object, or the C source text itself. The text is the same
/// for all four; the surrounding glue chooses the toolchain flags.
#[derive(Debug, Clone, Copy, PartialEq, Eq, Structural)]
pub enum OutputType {
    Exe,
    Dll,
    Object,
    CSource,
}

/// The fixed C prelude: headers, the tagged value type, and the runtime
/// library's declarations.
pub open spec fn header_c_s() -> Seq<char> {
    ("#include <stdio.h>\n#include <stdlib.h>\n#include <string.h>\n#include <stdbool.h>\n\ntypedef enum {\n    VALUE_NUMBER,\n    VALUE_STRING,\n    VALUE_BOOLEAN,\n    VALUE_ARRAY,\n    VALUE_NULL\n} ValueType;\n\ntypedef struct Value Value;\n\nstruct Value {\n    ValueType type;\n    union {\n        long long number;\n        char* string;\n        bool boolean;\n        struct {\n            struct Value* values;\n            int count;\n            int capacity;\n        } array;\n    } as;\n};\n\nvoid builtin_print(Value value);\nValue builtin_input();\nValue create_null();\nValue create_array();\nValue array_append(Value array, Value value);\nValue array_removed(Value array, long long index);\nValue array_get(Value array, long long index);\nValue array_length_value(Value array);\nlong long string_length(Value value);\nValue string_char_at(Value value, long long index);\nbool is_truthy(Value value);\nlong long number_compare(Value a, Value b);\nValue values_equal(Value a, Value b);\nValue values_unequal(Value a, Value b);\nValue logical_and(Value a, Value b);\nValue logical_or(Value a, Value b);\nValue not_value(Value value);\nValue add_values(Value a, Value b);\nValue subtract_values(Value a, Value b);\nValue multiply_values(Value a, Value b);\nValue divide_values(Value a, Value b);\n\n")@
}

/// The runtime support library's implementation.
pub open spec fn runtime_c_s() -> Seq<char> {
    ("static void runtime_fail(const char* message) {\n    fprintf(stderr, \"%s\\n\", message);\n    exit(1);\n}\n\nstatic void print_inline(Value value) {\n    switch (value.type) {\n        case VALUE_NUMBER:\n            printf(\"%lld\", value.as.number);\n            break;\n        case VALUE_STRING:\n            printf(\"\\\"%s\\\"\", value.as.string);\n            break;\n        case VALUE_BOOLEAN:\n            printf(\"%s\", value.as.boolean ? \"true\" : \"false\");\n            break;\n        case VALUE_ARRAY:\n            printf(\"[\");\n            for (int i = 0; i < value.as.array.count; i++) {\n                if (i > 0) printf(\", \");\n                print_inline(value.as.array.values[i]);\n            }\n            printf(\"]\");\n            break;\n        case VALUE_NULL:\n            printf(\"空\");\n            break;\n    }\n}\n\nvoid builtin_print(Value value) {\n    if (value.type == VALUE_STRING) {\n        printf(\"%s\\n\", value.as.string);\n    } else {\n        print_inline(value);\n        printf(\"\\n\");\n    }\n}\n\nValue builtin_input() {\n    char buffer[1024];\n    Value v;\n    v.type = VALUE_STRING;\n    if (fgets(buffer, sizeof(buffer), stdin)) {\n        buffer[strcspn(buffer, \"\\n\")] = '\\0';\n        v.as.string = strdup(buffer);\n    } else {\n        v.as.string = \"\";\n    }\n    return v;\n}\n\nValue create_null() {\n    Value v;\n    v.type = VALUE_NULL;\n    return v;\n}\n\nValue create_array() {\n    Value v;\n    v.type = VALUE_ARRAY;\n    v.as.array.values = malloc(sizeof(Value) * 8);\n    v.as.array.count = 0;\n    v.as.array.capacity = 8;\n    return v;\n}\n\nstatic Value copy_array(Value array, int extra) {\n    Value v;\n    int capacity = array.as.array.count + extra;\n    if (capacity < 8) capacity = 8;\n    v.type = VALUE_ARRAY;\n    v.as.array.values = malloc(sizeof(Value) * capacity);\n    v.as.array.capacity = capacity;\n    v.as.array.count = array.as.array.count;\n    for (int i = 0; i < array.as.array.count; i++) {\n        v.as.array.values[i] = array.as.array.values[i];\n    }\n    return v;\n}\n\nValue array_append(Value array, Value value) {\n    if (array.type != VALUE_ARRAY) runtime_fail(\"添加操作需要数组\");\n    Value v = copy_array(array, 1);\n    v.as.array.values[v.as.array.count] = value;\n    v.as.array.count = v.as.array.count + 1;\n    return v;\n}\n\nValue array_removed(Value array, long long index) {\n    if (array.type != VALUE_ARRAY) runtime_fail(\"删除操作需要数组和数字索引\");\n    if (index < 0 || index >= array.as.array.count) {\n        fprintf(stderr, \"数组索引越界: 索引 %lld, 长度 %d\\n\", index, array.as.array.count);\n        exit(1);\n    }\n    Value v = copy_array(array, 0);\n    for (int i = (int)index; i < v.as.array.count - 1; i++) {\n        v.as.array.values[i] = v.as.array.values[i + 1];\n    }\n    v.as.array.count = v.as.array.count - 1;\n    return v;\n}\n\nValue array_get(Value array, long long index) {\n    if (array.type != VALUE_ARRAY) runtime_fail(\"索引操作需要数组和数字索引\");\n    if (index < 0 || index >= array.as.array.count) {\n        fprintf(stderr, \"数组索引越界: 索引 %lld, 长度 %d\\n\", index, array.as.array.count);\n        exit(1);\n    }\n    return array.as.array.values[index];\n}\n\nValue array_length_value(Value array) {\n    if (array.type != VALUE_ARRAY) runtime_fail(\"长度操作需要数组\");\n    Value v;\n    v.type = VALUE_NUMBER;\n    v.as.number = array.as.array.count;\n    return v;\n}\n\nlong long string_length(Value value) {\n    if (value.type != VALUE_STRING) runtime_fail(\"只能遍历字符串\");\n    long long n = 0;\n    for (const char* p = value.as.string; *p; p++) {\n        if (((unsigned char)*p & 0xC0) != 0x80) n++;\n    }\n    return n;\n}\n\nValue string_char_at(Value value, long long index) {\n    if (value.type != VALUE_STRING) runtime_fail(\"只能遍历字符串\");\n    const char* s = value.as.string;\n    long long seen = -1;\n    size_t start = 0;\n    size_t i = 0;\n    while (s[i] != '\\0') {\n        if (((unsigned char)s[i] & 0xC0) != 0x80) {\n            seen = seen + 1;\n            if (seen == index) start = i;\n            if (seen == index + 1) break;\n        }\n        i = i + 1;\n    }\n    if (seen < index) runtime_fail(\"数组索引越界\");\n    size_t end = i;\n    if (seen == index) end = strlen(s);\n    char* out = malloc(end - start + 1);\n    memcpy(out, s + start, end - start);\n    out[end - start] = '\\0';\n    Value v;\n    v.type = VALUE_STRING;\n    v.as.string = out;\n    return v;\n}\n\nbool is_truthy(Value value) {\n    switch (value.type) {\n        case VALUE_BOOLEAN: return value.as.boolean;\n        case VALUE_NUMBER: return value.as.number != 0;\n        case VALUE_STRING: return strlen(value.as.string) > 0;\n        case VALUE_NULL: return false;\n        default: return true;\n    }\n}\n\nlong long number_compare(Value a, Value b) {\n    if (a.type != VALUE_NUMBER || b.type != VALUE_NUMBER) runtime_fail(\"类型不匹配: 无法比较\");\n    if (a.as.number > b.as.number) return 1;\n    if (a.as.number < b.as.number) return -1;\n    return 0;\n}\n\nstatic bool equal_raw(Value a, Value b) {\n    if (a.type != b.type) return false;\n    switch (a.type) {\n        case VALUE_NUMBER: return a.as.number == b.as.number;\n        case VALUE_STRING: return strcmp(a.as.string, b.as.string) == 0;\n        case VALUE_BOOLEAN: return a.as.boolean == b.as.boolean;\n        case VALUE_NULL: return true;\n        default: return false;\n    }\n}\n\nstatic Value make_boolean(bool b) {\n    Value v;\n    v.type = VALUE_BOOLEAN;\n    v.as.boolean = b;\n    return v;\n}\n\nValue values_equal(Value a, Value b) {\n    return make_boolean(equal_raw(a, b));\n}\n\nValue values_unequal(Value a, Value b) {\n    return make_boolean(!equal_raw(a, b));\n}\n\nValue logical_and(Value a, Value b) {\n    return make_boolean(is_truthy(a) && is_truthy(b));\n}\n\nValue logical_or(Value a, Value b) {\n    return make_boolean(is_truthy(a) || is_truthy(b));\n}\n\nValue not_value(Value value) {\n    return make_boolean(!is_truthy(value));\n}\n\nstatic char* number_text(long long n) {\n    char* s = malloc(32);\n    snprintf(s, 32, \"%lld\", n);\n    return s;\n}\n\nstatic char* concat_text(const char* a, const char* b) {\n    char* s = malloc(strlen(a) + strlen(b) + 1);\n    strcpy(s, a);\n    strcat(s, b);\n    return s;\n}\n\nstatic char* render_text(Value value) {\n    if (value.type == VALUE_NUMBER) return number_text(value.as.number);\n    if (value.type == VALUE_STRING) return concat_text(\"\\\"\", concat_text(value.as.string, \"\\\"\"));\n    if (value.type == VALUE_BOOLEAN) return strdup(value.as.boolean ? \"true\" : \"false\");\n    if (value.type == VALUE_NULL) return strdup(\"空\");\n    char* s = strdup(\"[\");\n    for (int i = 0; i < value.as.array.count; i++) {\n        if (i > 0) s = concat_text(s, \", \");\n        s = concat_text(s, render_text(value.as.array.values[i]));\n    }\n    return concat_text(s, \"]\");\n}\n\nstatic Value make_string(char* s) {\n    Value v;\n    v.type = VALUE_STRING;\n    v.as.string = s;\n    return v;\n}\n\nValue add_values(Value a, Value b) {\n    if (a.type == VALUE_NUMBER && b.type == VALUE_NUMBER) {\n        Value v;\n        v.type = VALUE_NUMBER;\n        v.as.number = a.as.number + b.as.number;\n        return v;\n    }\n    if (a.type == VALUE_STRING && b.type == VALUE_STRING) return make_string(concat_text(a.as.string, b.as.string));\n    if (a.type == VALUE_STRING && b.type == VALUE_NUMBER) return make_string(concat_text(a.as.string, number_text(b.as.number)));\n    if (a.type == VALUE_NUMBER && b.type == VALUE_STRING) return make_string(concat_text(number_text(a.as.number), b.as.string));\n    if (a.type == VALUE_STRING && b.type == VALUE_BOOLEAN) return make_string(concat_text(a.as.string, b.as.boolean ? \"true\" : \"false\"));\n    if (a.type == VALUE_BOOLEAN && b.type == VALUE_STRING) return make_string(concat_text(a.as.boolean ? \"true\" : \"false\", b.as.string));\n    if (a.type == VALUE_STRING && b.type == VALUE_NULL) return make_string(concat_text(a.as.string, \"空\"));\n    if (a.type == VALUE_NULL && b.type == VALUE_STRING) return make_string(concat_text(\"空\", b.as.string));\n    if (a.type == VALUE_STRING && b.type == VALUE_ARRAY) return make_string(concat_text(a.as.string, render_text(b)));\n    if (a.type == VALUE_ARRAY && b.type == VALUE_STRING) return make_string(concat_text(render_text(a), b.as.string));\n    runtime_fail(\"类型不匹配: 无法相加\");\n    return create_null();\n}\n\nValue subtract_values(Value a, Value b) {\n    if (a.type != VALUE_NUMBER || b.type != VALUE_NUMBER) runtime_fail(\"类型不匹配: 无法相减\");\n    Value v;\n    v.type = VALUE_NUMBER;\n    v.as.number = a.as.number - b.as.number;\n    return v;\n}\n\nValue multiply_values(Value a, Value b) {\n    if (a.type != VALUE_NUMBER || b.type != VALUE_NUMBER) runtime_fail(\"类型不匹配: 无法相乘\");\n    Value v;\n    v.type = VALUE_NUMBER;\n    v.as.number = a.as.number * b.as.number;\n    return v;\n}\n\nValue divide_values(Value a, Value b) {\n    if (a.type != VALUE_NUMBER || b.type != VALUE_NUMBER) runtime_fail(\"类型不匹配: 无法相除\");\n    if (b.as.number == 0) runtime_fail(\"除零错误\");\n    Value v;\n    v.type = VALUE_NUMBER;\n    v.as.number = a.as.number / b.as.number;\n    return v;\n}\n\n")@
}

/// The C name a called name lowers to: the builtins map to their runtime
/// functions, every other name stands for itself.
pub open spec fn c_callee_s(n: Seq<char>) -> Seq<char> {
    if n == seq!['打', '印'] {
        ("builtin_print")@
    } else if n == seq!['输', '入'] {
        ("builtin_input")@
    } else if n == seq!['创', '建', '数', '组'] {
        ("create_array")@
    } else if n == seq!['数', '组', '长', '度'] {
        ("array_length_value")@
    } else if n == seq!['数', '组', '添', '加'] {
        ("array_append")@
    } else if n == seq!['数', '组', '删', '除'] {
        ("array_removed")@
    } else if n == seq!['数', '组', '索', '引'] {
        ("array_get")@
    } else {
        n
    }
}

/// The C expression a language expression lowers to.
pub open spec fn gen_expr_s(e: Expression) -> Seq<char>
    decreases e, 0int,
{
    match e {
        Expression::Number(n) => ("(Value){VALUE_NUMBER, .as.number = ")@ + int_chars(n as int)
            + ("}")@,
        Expression::Str(s) => ("(Value){VALUE_STRING, .as.string = \"")@ + escape_chars(s@) + ("\"}")@,
        Expression::BoolLit(b) => if b {
            ("(Value){VALUE_BOOLEAN, .as.boolean = true}")@
        } else {
            ("(Value){VALUE_BOOLEAN, .as.boolean = false}")@
        },
        Expression::Variable(name) => name@,
        Expression::Binary { left, op, right } => gen_binop_s(
            op,
            gen_expr_s(*left),
            gen_expr_s(*right),
        ),
        Expression::Unary { op: _, operand } => ("not_value(")@ + gen_expr_s(*operand) + (")")@,
        Expression::Call { callee, args } => c_callee_s(callee@) + ("(")@ + gen_args_s(args@) + (
        ")")@,
        Expression::Assign { target, value } => target@ + (" = ")@ + gen_expr_s(*value),
        Expression::ArrayLiteral(elements) => gen_array_lit_s(elements@),
        Expression::Index { array, index } => ("array_get(")@ + gen_expr_s(*array) + (", (")@ + (
        gen_expr_s(*index)) + (").as.number)")@,
        Expression::Length(array) => ("array_length_value(")@ + gen_expr_s(*array) + (")")@,
        Expression::Append { array, element } => ("array_append(")@ + gen_expr_s(*array) + (", ")@
            + gen_expr_s(*element) + (")")@,
        Expression::RemoveAt { array, index } => ("array_removed(")@ + gen_expr_s(*array) + (
        ", (")@ + gen_expr_s(*index) + (").as.number)")@,
    }
}

/// The C text of one binary operation over its lowered operands. Every
/// helper takes both operands as arguments, so both are always evaluated.
pub open spec fn gen_binop_s(op: BinOp, l: Seq<char>, r: Seq<char>) -> Seq<char> {
    match op {
        BinOp::Add => ("add_values(")@ + l + (", ")@ + r + (")")@,
        BinOp::Sub => ("subtract_values(")@ + l + (", ")@ + r + (")")@,
        BinOp::Mul => ("multiply_values(")@ + l + (", ")@ + r + (")")@,
        BinOp::Div => ("divide_values(")@ + l + (", ")@ + r + (")")@,
        BinOp::Eq => ("values_equal(")@ + l + (", ")@ + r + (")")@,
        BinOp::Ne => ("values_unequal(")@ + l + (", ")@ + r + (")")@,
        BinOp::Gt => ("(Value){VALUE_BOOLEAN, .as.boolean = number_compare(")@ + l + (", ")@ + r
            + (") > 0}")@,
        BinOp::Lt => ("(Value){VALUE_BOOLEAN, .as.boolean = number_compare(")@ + l + (", ")@ + r
            + (") < 0}")@,
        BinOp::Ge => ("(Value){VALUE_BOOLEAN, .as.boolean = number_compare(")@ + l + (", ")@ + r
            + (") >= 0}")@,
        BinOp::Le => ("(Value){VALUE_BOOLEAN, .as.boolean = number_compare(")@ + l + (", ")@ + r
            + (") <= 0}")@,
        BinOp::And => ("logical_and(")@ + l + (", ")@ + r + (")")@,
        BinOp::Or => ("logical_or(")@ + l + (", ")@ + r + (")")@,
    }
}

/// A lowered argument list, joined by `, `.
pub open spec fn gen_args_s(es: Seq<Expression>) -> Seq<char>
    decreases es, 1int,
{
    if es.len() == 0 {
        Seq::empty()
    } else if es.len() == 1 {
        gen_expr_s(es[0])
    } else {
        gen_args_s(es.drop_last()) + (", ")@ + gen_expr_s(es.last())
    }
}

/// An array literal lowers to nested value-semantics appends onto a fresh
/// array.
pub open spec fn gen_array_lit_s(es: Seq<Expression>) -> Seq<char>
    decreases es, 1int,
{
    if es.len() == 0 {
        ("create_array()")@
    } else {
        ("array_append(")@ + gen_array_lit_s(es.drop_last()) + (", ")@ + gen_expr_s(es.last()) + (
        ")")@
    }
}

/// The C text a statement lowers to, newline-terminated.
pub open spec fn gen_stmt_s(s: Statement) -> Seq<char>
    decreases s, 0int,
{
    match s {
        Statement::ExprStmt(e) => gen_expr_s(e) + (";\n")@,
        Statement::VarDecl { name, init, is_const } => (if is_const {
            ("const Value ")@
        } else {
            ("Value ")@
        }) + name@ + (" = ")@ + (match init {
            Some(e) => gen_expr_s(e),
            None => ("create_null()")@,
        }) + (";\n")@,
        Statement::FuncDecl { name, params, body: _ } => ("Value ")@ + name@ + ("(")@
            + gen_params_s(params@) + (");\n")@,
        Statement::If { condition, then_branch, else_branch } => ("if (is_truthy(")@ + gen_expr_s(
            condition,
        ) + (")) {\n")@ + gen_stmts_s(then_branch@) + ("} else {\n")@ + gen_stmts_s(else_branch@)
            + ("}\n")@,
        Statement::Loop { condition, body } => (match condition {
            Some(e) => ("while (is_truthy(")@ + gen_expr_s(e) + (")) {\n")@,
            None => ("while (1) {\n")@,
        }) + gen_stmts_s(body@) + ("}\n")@,
        Statement::While { condition, body } => ("{\nValue _cond = ")@ + gen_expr_s(condition) + (
        ";\nwhile (is_truthy(_cond)) {\n_cond = ")@ + gen_expr_s(condition) + (";\n")@
            + gen_stmts_s(body@) + ("}\n}\n")@,
        Statement::ForEach { variable, iterable, body } => ("{\nValue _iter = ")@ + gen_expr_s(
            iterable,
        ) + (";\nlong long _len = string_length(_iter);\nfor (long long _idx = 0; _idx < _len; _idx++) {\nValue ")@
            + variable@ + (" = string_char_at(_iter, _idx);\n")@ + gen_stmts_s(body@) + ("}\n}\n")@,
        Statement::Return(value) => (match value {
            Some(e) => ("return ")@ + gen_expr_s(e) + (";\n")@,
            None => ("return create_null();\n")@,
        }),
        Statement::Break => ("break;\n")@,
        Statement::Continue => ("continue;\n")@,
    }
}

/// The lowered text of a statement list, in order.
pub open spec fn gen_stmts_s(ss: Seq<Statement>) -> Seq<char>
    decreases ss, 1int,
{
    if ss.len() == 0 {
        Seq::empty()
    } else {
        gen_stmts_s(ss.drop_last()) + gen_stmt_s(ss.last())
    }
}

/// A C parameter list: each parameter keeps its source name.
pub open spec fn gen_params_s(ns: Seq<String>) -> Seq<char>
    decreases ns,
{
    if ns.len() == 0 {
        Seq::empty()
    } else if ns.len() == 1 {
        ("Value ")@ + ns[0]@
    } else {
        gen_params_s(ns.drop_last()) + (", Value ")@ + ns.last()@
    }
}

/// The C definition of one declared function.
pub open spec fn gen_funcdef_s(s: Statement) -> Seq<char>
    decreases s, 1int,
{
    match s {
        Statement::FuncDecl { name, params, body } => ("Value ")@ + name@ + ("(")@ + gen_params_s(
            params@,
        ) + (") {\n")@ + gen_stmts_s(body@) + ("return create_null();\n}\n\n")@,
        _ => Seq::empty(),
    }
}

/// The definitions of every top-level declared function, in order.
pub open spec fn gen_funcs_s(ss: Seq<Statement>) -> Seq<char>
    decreases ss, 2int,
{
    if ss.len() == 0 {
        Seq::empty()
    } else {
        gen_funcs_s(ss.drop_last()) + gen_funcdef_s(ss.last())
    }
}

/// The lowered text of every top-level statement that is not a function
/// declaration, in order: the body of `main`.
pub open spec fn gen_main_items_s(ss: Seq<Statement>) -> Seq<char>
    decreases ss, 2int,
{
    if ss.len() == 0 {
        Seq::empty()
    } else {
        gen_main_items_s(ss.drop_last()) + (match ss.last() {
            Statement::FuncDecl { .. } => Seq::<char>::empty(),
            _ => gen_stmt_s(ss.last()),
        })
    }
}

/// The whole generated source unit.
pub open spec fn gen_program_s(ss: Seq<Statement>) -> Seq<char> {
    header_c_s() + runtime_c_s() + gen_funcs_s(ss) + ("int main() {\n")@ + gen_main_items_s(ss)
        + ("return 0;\n}\n")@
}

/// Whether an owned name spells exactly `b`.
fn name_is(a: &String, b: &str) -> (r: bool)
    ensures
        r == (a@ == b@),
{
    let o: String = b.to_owned();
    *a == o
}

/// Lowers one expression per [`gen_expr_s`].
#[verifier::loop_isolation(false)]
pub fn generate_expression(e: &Expression) -> (r: String)
    ensures
        r@ == gen_expr_s(*e),
    decreases *e, 0int,
{
    match e {
        Expression::Number(n) => {
            let mut out = String::from_str("(Value){VALUE_NUMBER, .as.number = ");
            let t = i64_to_string(*n);
            out.append(t.as_str());
            out.append("}");
            proof {
                assert(out@ =~= gen_expr_s(*e));
            }
            out
        }
        Expression::Str(s) => {
            let mut out = String::from_str("(Value){VALUE_STRING, .as.string = \"");
            let esc = escape_string(s.as_str());
            out.append(esc.as_str());
            out.append("\"}");
            proof {
                assert(out@ =~= gen_expr_s(*e));
            }
            out
        }
        Expression::BoolLit(b) => {
            if *b {
                String::from_str("(Value){VALUE_BOOLEAN, .as.boolean = true}")
            } else {
                String::from_str("(Value){VALUE_BOOLEAN, .as.boolean = false}")
            }
        }
        Expression::Variable(name) => name.clone(),
        Expression::Binary { left, op, right } => {
            let l = generate_expression(left);
            let rr = generate_expression(right);
            let head = match op {
                BinOp::Add => "add_values(",
                BinOp::Sub => "subtract_values(",
                BinOp::Mul => "multiply_values(",
                BinOp::Div => "divide_values(",
                BinOp::Eq => "values_equal(",
                BinOp::Ne => "values_unequal(",
                BinOp::Gt => "(Value){VALUE_BOOLEAN, .as.boolean = number_compare(",
                BinOp::Lt => "(Value){VALUE_BOOLEAN, .as.boolean = number_compare(",
                BinOp::Ge => "(Value){VALUE_BOOLEAN, .as.boolean = number_compare(",
                BinOp::Le => "(Value){VALUE_BOOLEAN, .as.boolean = number_compare(",
                BinOp::And => "logical_and(",
                BinOp::Or => "logical_or(",
            };
            let tail = match op {
                BinOp::Gt => ") > 0}",
                BinOp::Lt => ") < 0}",
                BinOp::Ge => ") >= 0}",
                BinOp::Le => ") <= 0}",
                _ => ")",
            };
            let mut out = String::from_str(head);
            out.append(l.as_str());
            out.append(", ");
            out.append(rr.as_str());
            out.append(tail);
            proof {
                assert(out@ =~= gen_expr_s(*e));
            }
            out
        }
        Expression::Unary { op: _, operand } => {
            let mut out = String::from_str("not_value(");
            let o = generate_expression(operand);
            out.append(o.as_str());
            out.append(")");
            proof {
                assert(out@ =~= gen_expr_s(*e));
            }
            out
        }
        Expression::Call { callee, args } => {
            let mut out = if name_is(callee, "打印") {
                String::from_str("builtin_print")
            } else if name_is(callee, "输入") {
                String::from_str("builtin_input")
            } else if name_is(callee, "创建数组") {
                String::from_str("create_array")
            } else if name_is(callee, "数组长度") {
                String::from_str("array_length_value")
            } else if name_is(callee, "数组添加") {
                String::from_str("array_append")
            } else if name_is(callee, "数组删除") {
                String::from_str("array_removed")
            } else if name_is(callee, "数组索引") {
                String::from_str("array_get")
            } else {
                callee.clone()
            };
            proof {
                reveal_strlit("打印");
                reveal_strlit("输入");
                reveal_strlit("创建数组");
                reveal_strlit("数组长度");
                reveal_strlit("数组添加");
                reveal_strlit("数组删除");
                reveal_strlit("数组索引");
                assert("打印"@ =~= seq!['打', '印']);
                assert("输入"@ =~= seq!['输', '入']);
                assert("创建数组"@ =~= seq!['创', '建', '数', '组']);
                assert("数组长度"@ =~= seq!['数', '组', '长', '度']);
                assert("数组添加"@ =~= seq!['数', '组', '添', '加']);
                assert("数组删除"@ =~= seq!['数', '组', '删', '除']);
                assert("数组索引"@ =~= seq!['数', '组', '索', '引']);
                assert(out@ == c_callee_s(callee@));
            }
            out.append("(");
            let a = generate_arguments(args);
            out.append(a.as_str());
            out.append(")");
            proof {
                assert(out@ =~= gen_expr_s(*e));
            }
            out
        }
        Expression::Assign { target, value } => {
            let mut out = target.clone();
            out.append(" = ");
            let v = generate_expression(value);
            out.append(v.as_str());
            proof {
                assert(out@ =~= gen_expr_s(*e));
            }
            out
        }
        Expression::ArrayLiteral(elements) => generate_array_literal(elements),
        Expression::Index { array, index } => {
            let mut out = String::from_str("array_get(");
            let a = generate_expression(array);
            out.append(a.as_str());
            out.append(", (");
            let i = generate_expression(index);
            out.append(i.as_str());
            out.append(").as.number)");
            proof {
                assert(out@ =~= gen_expr_s(*e));
            }
            out
        }
        Expression::Length(array) => {
            let mut out = String::from_str("array_length_value(");
            let a = generate_expression(array);
            out.append(a.as_str());
            out.append(")");
            proof {
                assert(out@ =~= gen_expr_s(*e));
            }
            out
        }
        Expression::Append { array, element } => {
            let mut out = String::from_str("array_append(");
            let a = generate_expression(array);
            out.append(a.as_str());
            out.append(", ");
            let el = generate_expression(element);
            out.append(el.as_str());
            out.append(")");
            proof {
                assert(out@ =~= gen_expr_s(*e));
            }
            out
        }
        Expression::RemoveAt { array, index } => {
            let mut out = String::from_str("array_removed(");
            let a = generate_expression(array);
            out.append(a.as_str());
            out.append(", (");
            let i = generate_expression(index);
            out.append(i.as_str());
            out.append(").as.number)");
            proof {
                assert(out@ =~= gen_expr_s(*e));
            }
            out
        }
    }
}

/// Lowers an argument list per [`gen_args_s`].
#[verifier::loop_isolation(false)]
pub fn generate_arguments(es: &Vec<Expression>) -> (r: String)
    ensures
        r@ == gen_args_s(es@),
    decreases es@, 1int,
{
    let mut out = String::new();
    let mut i: usize = 0;
    while i < es.len()
        invariant
            i <= es@.len(),
            out@ == gen_args_s(es@.take(i as int)),
        decreases es@.len() - i,
    {
        if i > 0 {
            out.append(", ");
        }
        proof {
            assert(decreases_to!(es@ => es@[i as int]));
        }
        let piece = generate_expression(&es[i]);
        out.append(piece.as_str());
        proof {
            let t = es@.take(i + 1 as int);
            assert(t.drop_last() =~= es@.take(i as int));
            assert(t.last() == es@[i as int]);
            assert(out@ =~= gen_args_s(es@.take(i + 1 as int)));
        }
        i = i + 1;
    }
    proof {
        assert(es@.take(es@.len() as int) =~= es@);
    }
    out
}

/// Lowers an array literal per [`gen_array_lit_s`].
#[verifier::loop_isolation(false)]
pub fn generate_array_literal(es: &Vec<Expression>) -> (r: String)
    ensures
        r@ == gen_array_lit_s(es@),
    decreases es@, 1int,
{
    let mut out = String::from_str("create_array()");
    proof {
        assert(out@ =~= gen_array_lit_s(es@.take(0)));
    }
    let mut i: usize = 0;
    while i < es.len()
        invariant
            i <= es@.len(),
            out@ == gen_array_lit_s(es@.take(i as int)),
        decreases es@.len() - i,
    {
        proof {
            assert(decreases_to!(es@ => es@[i as int]));
        }
        let piece = generate_expression(&es[i]);
        let mut wrapped = String::from_str("array_append(");
        wrapped.append(out.as_str());
        wrapped.append(", ");
        wrapped.append(piece.as_str());
        wrapped.append(")");
        out = wrapped;
        proof {
            let t = es@.take(i + 1 as int);
            assert(t.drop_last() =~= es@.take(i as int));
            assert(t.last() == es@[i as int]);
            assert(out@ =~= gen_array_lit_s(es@.take(i + 1 as int)));
        }
        i = i + 1;
    }
    proof {
        assert(es@.take(es@.len() as int) =~= es@);
    }
    out
}

/// Lowers a parameter list per [`gen_params_s`].
#[verifier::loop_isolation(false)]
pub fn generate_parameters(ns: &Vec<String>) -> (r: String)
    ensures
        r@ == gen_params_s(ns@),
{
    let mut out = String::new();
    let mut i: usize = 0;
    while i < ns.len()
        invariant
            i <= ns@.len(),
            out@ == gen_params_s(ns@.take(i as int)),
        decreases ns@.len() - i,
    {
        if i > 0 {
            out.append(", Value ");
        } else {
            out.append("Value ");
        }
        out.append(ns[i].as_str());
        proof {
            let t = ns@.take(i + 1 as int);
            assert(t.drop_last() =~= ns@.take(i as int));
            assert(t.last() == ns@[i as int]);
            assert(out@ =~= gen_params_s(ns@.take(i + 1 as int)));
        }
        i = i + 1;
    }
    proof {
        assert(ns@.take(ns@.len() as int) =~= ns@);
    }
    out
}

/// Lowers one statement per [`gen_stmt_s`].
#[verifier::loop_isolation(false)]
pub fn generate_statement(s: &Statement) -> (r: String)
    ensures
        r@ == gen_stmt_s(*s),
    decreases *s, 0int,
{
    match s {
        Statement::ExprStmt(e) => {
            let mut out = generate_expression(e);
            out.append(";\n");
            proof {
                assert(out@ =~= gen_stmt_s(*s));
            }
            out
        }
        Statement::VarDecl { name, init, is_const } => {
            let mut out = if *is_const {
                String::from_str("const Value ")
            } else {
                String::from_str("Value ")
            };
            out.append(name.as_str());
            out.append(" = ");
            match init {
                Some(e) => {
                    let v = generate_expression(e);
                    out.append(v.as_str());
                }
                None => {
                    out.append("create_null()");
                }
            }
            out.append(";\n");
            proof {
                assert(out@ =~= gen_stmt_s(*s));
            }
            out
        }
        Statement::FuncDecl { name, params, body: _ } => {
            let mut out = String::from_str("Value ");
            out.append(name.as_str());
            out.append("(");
            let ps = generate_parameters(crate::value::rc_deref(params));
            out.append(ps.as_str());
            out.append(");\n");
            proof {
                assert(out@ =~= gen_stmt_s(*s));
            }
            out
        }
        Statement::If { condition, then_branch, else_branch } => {
            let mut out = String::from_str("if (is_truthy(");
            let c = generate_expression(condition);
            out.append(c.as_str());
            out.append(")) {\n");
            let t = generate_statements(then_branch);
            out.append(t.as_str());
            out.append("} else {\n");
            let el = generate_statements(else_branch);
            out.append(el.as_str());
            out.append("}\n");
            proof {
                assert(out@ =~= gen_stmt_s(*s));
            }
            out
        }
        Statement::Loop { condition, body } => {
            let mut out = match condition {
                Some(e) => {
                    let mut h = String::from_str("while (is_truthy(");
                    let c = generate_expression(e);
                    h.append(c.as_str());
                    h.append(")) {\n");
                    h
                }
                None => String::from_str("while (1) {\n"),
            };
            let b = generate_statements(body);
            out.append(b.as_str());
            out.append("}\n");
            proof {
                assert(out@ =~= gen_stmt_s(*s));
            }
            out
        }
        Statement::While { condition, body } => {
            let mut out = String::from_str("{\nValue _cond = ");
            let c = generate_expression(condition);
            out.append(c.as_str());
            out.append(";\nwhile (is_truthy(_cond)) {\n_cond = ");
            let c2 = generate_expression(condition);
            out.append(c2.as_str());
            out.append(";\n");
            let b = generate_statements(body);
            out.append(b.as_str());
            out.append("}\n}\n");
            proof {
                assert(out@ =~= gen_stmt_s(*s));
            }
            out
        }
        Statement::ForEach { variable, iterable, body } => {
            let mut out = String::from_str("{\nValue _iter = ");
            let it = generate_expression(iterable);
            out.append(it.as_str());
            out.append(
                ";\nlong long _len = string_length(_iter);\nfor (long long _idx = 0; _idx < _len; _idx++) {\nValue ",
            );
            out.append(variable.as_str());
            out.append(" = string_char_at(_iter, _idx);\n");
            let b = generate_statements(body);
            out.append(b.as_str());
            out.append("}\n}\n");
            proof {
                assert(out@ =~= gen_stmt_s(*s));
            }
            out
        }
        Statement::Return(value) => {
            match value {
                Some(e) => {
                    let mut out = String::from_str("return ");
                    let v = generate_expression(e);
                    out.append(v.as_str());
                    out.append(";\n");
                    proof {
                        assert(out@ =~= gen_stmt_s(*s));
                    }
                    out
                }
                None => String::from_str("return create_null();\n"),
            }
        }
        Statement::Break => String::from_str("break;\n"),
        Statement::Continue => String::from_str("continue;\n"),
    }
}

/// Lowers a statement list per [`gen_stmts_s`].
#[verifier::loop_isolation(false)]
pub fn generate_statements(ss: &Vec<Statement>) -> (r: String)
    ensures
        r@ == gen_stmts_s(ss@),
    decreases ss@, 1int,
{
    let mut out = String::new();
    let mut i: usize = 0;
    proof {
        assert(out@ =~= gen_stmts_s(ss@.take(0)));
    }
    while i < ss.len()
        invariant
            i <= ss@.len(),
            out@ == gen_stmts_s(ss@.take(i as int)),
        decreases ss@.len() - i,
    {
        proof {
            assert(decreases_to!(ss@ => ss@[i as int]));
        }
        let piece = generate_statement(&ss[i]);
        out.append(piece.as_str());
        proof {
            let t = ss@.take(i + 1 as int);
            assert(t.drop_last() =~= ss@.take(i as int));
            assert(t.last() == ss@[i as int]);
            assert(out@ =~= gen_stmts_s(ss@.take(i + 1 as int)));
        }
        i = i + 1;
    }
    proof {
        assert(ss@.take(ss@.len() as int) =~= ss@);
    }
    out
}

/// Lowers one declared function to its C definition per [`gen_funcdef_s`].
#[verifier::loop_isolation(false)]
pub fn generate_function_definition(s: &Statement) -> (r: String)
    ensures
        r@ == gen_funcdef_s(*s),
    decreases *s, 1int,
{
    match s {
        Statement::FuncDecl { name, params, body } => {
            let mut out = String::from_str("Value ");
            out.append(name.as_str());
            out.append("(");
            let ps = generate_parameters(crate::value::rc_deref(params));
            out.append(ps.as_str());
            out.append(") {\n");
            let b = generate_statements(crate::value::rc_deref(body));
            out.append(b.as_str());
            out.append("return create_null();\n}\n\n");
            proof {
                assert(out@ =~= gen_funcdef_s(*s));
            }
            out
        }
        _ => {
            let out = String::new();
            proof {
                assert(out@ =~= gen_funcdef_s(*s));
            }
            out
        }
    }
}

/// The code generator. The output kind only tells the surrounding glue
/// which toolchain invocation to use; the generated text is the same.
#[derive(Debug)]
pub struct CodeGenerator {
    output_type: OutputType,
}

impl CodeGenerator {
    /// The artifact kind this generator was made for.
    pub closed spec fn kind(self) -> OutputType {
        self.output_type
    }

    /// A generator for the given artifact kind.
    pub fn new(output_type: OutputType) -> (r: CodeGenerator)
        ensures
            r.kind() == output_type,
    {
        CodeGenerator { output_type }
    }

    /// The artifact kind, for the surrounding glue.
    pub fn output_type(&self) -> (r: OutputType)
        ensures
            r == self.kind(),
    {
        self.output_type
    }

    /// The runtime support library's C text.
    pub fn generate_builtin_functions(&self) -> (r: String)
        ensures
            r@ == runtime_c_s(),
    {
        String::from_str("static void runtime_fail(const char* message) {\n    fprintf(stderr, \"%s\\n\", message);\n    exit(1);\n}\n\nstatic void print_inline(Value value) {\n    switch (value.type) {\n        case VALUE_NUMBER:\n            printf(\"%lld\", value.as.number);\n            break;\n        case VALUE_STRING:\n            printf(\"\\\"%s\\\"\", value.as.string);\n            break;\n        case VALUE_BOOLEAN:\n            printf(\"%s\", value.as.boolean ? \"true\" : \"false\");\n            break;\n        case VALUE_ARRAY:\n            printf(\"[\");\n            for (int i = 0; i < value.as.array.count; i++) {\n                if (i > 0) printf(\", \");\n                print_inline(value.as.array.values[i]);\n            }\n            printf(\"]\");\n            break;\n        case VALUE_NULL:\n            printf(\"空\");\n            break;\n    }\n}\n\nvoid builtin_print(Value value) {\n    if (value.type == VALUE_STRING) {\n        printf(\"%s\\n\", value.as.string);\n    } else {\n        print_inline(value);\n        printf(\"\\n\");\n    }\n}\n\nValue builtin_input() {\n    char buffer[1024];\n    Value v;\n    v.type = VALUE_STRING;\n    if (fgets(buffer, sizeof(buffer), stdin)) {\n        buffer[strcspn(buffer, \"\\n\")] = '\\0';\n        v.as.string = strdup(buffer);\n    } else {\n        v.as.string = \"\";\n    }\n    return v;\n}\n\nValue create_null() {\n    Value v;\n    v.type = VALUE_NULL;\n    return v;\n}\n\nValue create_array() {\n    Value v;\n    v.type = VALUE_ARRAY;\n    v.as.array.values = malloc(sizeof(Value) * 8);\n    v.as.array.count = 0;\n    v.as.array.capacity = 8;\n    return v;\n}\n\nstatic Value copy_array(Value array, int extra) {\n    Value v;\n    int capacity = array.as.array.count + extra;\n    if (capacity < 8) capacity = 8;\n    v.type = VALUE_ARRAY;\n    v.as.array.values = malloc(sizeof(Value) * capacity);\n    v.as.array.capacity = capacity;\n    v.as.array.count = array.as.array.count;\n    for (int i = 0; i < array.as.array.count; i++) {\n        v.as.array.values[i] = array.as.array.values[i];\n    }\n    return v;\n}\n\nValue array_append(Value array, Value value) {\n    if (array.type != VALUE_ARRAY) runtime_fail(\"添加操作需要数组\");\n    Value v = copy_array(array, 1);\n    v.as.array.values[v.as.array.count] = value;\n    v.as.array.count = v.as.array.count + 1;\n    return v;\n}\n\nValue array_removed(Value array, long long index) {\n    if (array.type != VALUE_ARRAY) runtime_fail(\"删除操作需要数组和数字索引\");\n    if (index < 0 || index >= array.as.array.count) {\n        fprintf(stderr, \"数组索引越界: 索引 %lld, 长度 %d\\n\", index, array.as.array.count);\n        exit(1);\n    }\n    Value v = copy_array(array, 0);\n    for (int i = (int)index; i < v.as.array.count - 1; i++) {\n        v.as.array.values[i] = v.as.array.values[i + 1];\n    }\n    v.as.array.count = v.as.array.count - 1;\n    return v;\n}\n\nValue array_get(Value array, long long index) {\n    if (array.type != VALUE_ARRAY) runtime_fail(\"索引操作需要数组和数字索引\");\n    if (index < 0 || index >= array.as.array.count) {\n        fprintf(stderr, \"数组索引越界: 索引 %lld, 长度 %d\\n\", index, array.as.array.count);\n        exit(1);\n    }\n    return array.as.array.values[index];\n}\n\nValue array_length_value(Value array) {\n    if (array.type != VALUE_ARRAY) runtime_fail(\"长度操作需要数组\");\n    Value v;\n    v.type = VALUE_NUMBER;\n    v.as.number = array.as.array.count;\n    return v;\n}\n\nlong long string_length(Value value) {\n    if (value.type != VALUE_STRING) runtime_fail(\"只能遍历字符串\");\n    long long n = 0;\n    for (const char* p = value.as.string; *p; p++) {\n        if (((unsigned char)*p & 0xC0) != 0x80) n++;\n    }\n    return n;\n}\n\nValue string_char_at(Value value, long long index) {\n    if (value.type != VALUE_STRING) runtime_fail(\"只能遍历字符串\");\n    const char* s = value.as.string;\n    long long seen = -1;\n    size_t start = 0;\n    size_t i = 0;\n    while (s[i] != '\\0') {\n        if (((unsigned char)s[i] & 0xC0) != 0x80) {\n            seen = seen + 1;\n            if (seen == index) start = i;\n            if (seen == index + 1) break;\n        }\n        i = i + 1;\n    }\n    if (seen < index) runtime_fail(\"数组索引越界\");\n    size_t end = i;\n    if (seen == index) end = strlen(s);\n    char* out = malloc(end - start + 1);\n    memcpy(out, s + start, end - start);\n    out[end - start] = '\\0';\n    Value v;\n    v.type = VALUE_STRING;\n    v.as.string = out;\n    return v;\n}\n\nbool is_truthy(Value value) {\n    switch (value.type) {\n        case VALUE_BOOLEAN: return value.as.boolean;\n        case VALUE_NUMBER: return value.as.number != 0;\n        case VALUE_STRING: return strlen(value.as.string) > 0;\n        case VALUE_NULL: return false;\n        default: return true;\n    }\n}\n\nlong long number_compare(Value a, Value b) {\n    if (a.type != VALUE_NUMBER || b.type != VALUE_NUMBER) runtime_fail(\"类型不匹配: 无法比较\");\n    if (a.as.number > b.as.number) return 1;\n    if (a.as.number < b.as.number) return -1;\n    return 0;\n}\n\nstatic bool equal_raw(Value a, Value b) {\n    if (a.type != b.type) return false;\n    switch (a.type) {\n        case VALUE_NUMBER: return a.as.number == b.as.number;\n        case VALUE_STRING: return strcmp(a.as.string, b.as.string) == 0;\n        case VALUE_BOOLEAN: return a.as.boolean == b.as.boolean;\n        case VALUE_NULL: return true;\n        default: return false;\n    }\n}\n\nstatic Value make_boolean(bool b) {\n    Value v;\n    v.type = VALUE_BOOLEAN;\n    v.as.boolean = b;\n    return v;\n}\n\nValue values_equal(Value a, Value b) {\n    return make_boolean(equal_raw(a, b));\n}\n\nValue values_unequal(Value a, Value b) {\n    return make_boolean(!equal_raw(a, b));\n}\n\nValue logical_and(Value a, Value b) {\n    return make_boolean(is_truthy(a) && is_truthy(b));\n}\n\nValue logical_or(Value a, Value b) {\n    return make_boolean(is_truthy(a) || is_truthy(b));\n}\n\nValue not_value(Value value) {\n    return make_boolean(!is_truthy(value));\n}\n\nstatic char* number_text(long long n) {\n    char* s = malloc(32);\n    snprintf(s, 32, \"%lld\", n);\n    return s;\n}\n\nstatic char* concat_text(const char* a, const char* b) {\n    char* s = malloc(strlen(a) + strlen(b) + 1);\n    strcpy(s, a);\n    strcat(s, b);\n    return s;\n}\n\nstatic char* render_text(Value value) {\n    if (value.type == VALUE_NUMBER) return number_text(value.as.number);\n    if (value.type == VALUE_STRING) return concat_text(\"\\\"\", concat_text(value.as.string, \"\\\"\"));\n    if (value.type == VALUE_BOOLEAN) return strdup(value.as.boolean ? \"true\" : \"false\");\n    if (value.type == VALUE_NULL) return strdup(\"空\");\n    char* s = strdup(\"[\");\n    for (int i = 0; i < value.as.array.count; i++) {\n        if (i > 0) s = concat_text(s, \", \");\n        s = concat_text(s, render_text(value.as.array.values[i]));\n    }\n    return concat_text(s, \"]\");\n}\n\nstatic Value make_string(char* s) {\n    Value v;\n    v.type = VALUE_STRING;\n    v.as.string = s;\n    return v;\n}\n\nValue add_values(Value a, Value b) {\n    if (a.type == VALUE_NUMBER && b.type == VALUE_NUMBER) {\n        Value v;\n        v.type = VALUE_NUMBER;\n        v.as.number = a.as.number + b.as.number;\n        return v;\n    }\n    if (a.type == VALUE_STRING && b.type == VALUE_STRING) return make_string(concat_text(a.as.string, b.as.string));\n    if (a.type == VALUE_STRING && b.type == VALUE_NUMBER) return make_string(concat_text(a.as.string, number_text(b.as.number)));\n    if (a.type == VALUE_NUMBER && b.type == VALUE_STRING) return make_string(concat_text(number_text(a.as.number), b.as.string));\n    if (a.type == VALUE_STRING && b.type == VALUE_BOOLEAN) return make_string(concat_text(a.as.string, b.as.boolean ? \"true\" : \"false\"));\n    if (a.type == VALUE_BOOLEAN && b.type == VALUE_STRING) return make_string(concat_text(a.as.boolean ? \"true\" : \"false\", b.as.string));\n    if (a.type == VALUE_STRING && b.type == VALUE_NULL) return make_string(concat_text(a.as.string, \"空\"));\n    if (a.type == VALUE_NULL && b.type == VALUE_STRING) return make_string(concat_text(\"空\", b.as.string));\n    if (a.type == VALUE_STRING && b.type == VALUE_ARRAY) return make_string(concat_text(a.as.string, render_text(b)));\n    if (a.type == VALUE_ARRAY && b.type == VALUE_STRING) return make_string(concat_text(render_text(a), b.as.string));\n    runtime_fail(\"类型不匹配: 无法相加\");\n    return create_null();\n}\n\nValue subtract_values(Value a, Value b) {\n    if (a.type != VALUE_NUMBER || b.type != VALUE_NUMBER) runtime_fail(\"类型不匹配: 无法相减\");\n    Value v;\n    v.type = VALUE_NUMBER;\n    v.as.number = a.as.number - b.as.number;\n    return v;\n}\n\nValue multiply_values(Value a, Value b) {\n    if (a.type != VALUE_NUMBER || b.type != VALUE_NUMBER) runtime_fail(\"类型不匹配: 无法相乘\");\n    Value v;\n    v.type = VALUE_NUMBER;\n    v.as.number = a.as.number * b.as.number;\n    return v;\n}\n\nValue divide_values(Value a, Value b) {\n    if (a.type != VALUE_NUMBER || b.type != VALUE_NUMBER) runtime_fail(\"类型不匹配: 无法相除\");\n    if (b.as.number == 0) runtime_fail(\"除零错误\");\n    Value v;\n    v.type = VALUE_NUMBER;\n    v.as.number = a.as.number / b.as.number;\n    return v;\n}\n\n")
    }

    /// Lowers one statement, newline-terminated.
    pub fn generate_statement_c_code(&self, s: &Statement) -> (r: String)
        ensures
            r@ == gen_stmt_s(*s),
    {
        generate_statement(s)
    }

    /// Lowers one expression.
    pub fn generate_expression_c_code(&self, e: &Expression) -> (r: String)
        ensures
            r@ == gen_expr_s(*e),
    {
        generate_expression(e)
    }

    /// Lowers a whole program into one freestanding C source unit, per
    /// [`gen_program_s`]: prelude, runtime, one function definition per
    /// declared function, and `main` holding the other statements.
    #[verifier::loop_isolation(false)]
    pub fn generate_c_code(&self, program: &Program) -> (r: String)
        ensures
            r@ == gen_program_s(program.statements@),
    {
        let ss = &program.statements;
        let mut out = String::from_str("#include <stdio.h>\n#include <stdlib.h>\n#include <string.h>\n#include <stdbool.h>\n\ntypedef enum {\n    VALUE_NUMBER,\n    VALUE_STRING,\n    VALUE_BOOLEAN,\n    VALUE_ARRAY,\n    VALUE_NULL\n} ValueType;\n\ntypedef struct Value Value;\n\nstruct Value {\n    ValueType type;\n    union {\n        long long number;\n        char* string;\n        bool boolean;\n        struct {\n            struct Value* values;\n            int count;\n            int capacity;\n        } array;\n    } as;\n};\n\nvoid builtin_print(Value value);\nValue builtin_input();\nValue create_null();\nValue create_array();\nValue array_append(Value array, Value value);\nValue array_removed(Value array, long long index);\nValue array_get(Value array, long long index);\nValue array_length_value(Value array);\nlong long string_length(Value value);\nValue string_char_at(Value value, long long index);\nbool is_truthy(Value value);\nlong long number_compare(Value a, Value b);\nValue values_equal(Value a, Value b);\nValue values_unequal(Value a, Value b);\nValue logical_and(Value a, Value b);\nValue logical_or(Value a, Value b);\nValue not_value(Value value);\nValue add_values(Value a, Value b);\nValue subtract_values(Value a, Value b);\nValue multiply_values(Value a, Value b);\nValue divide_values(Value a, Value b);\n\n");
        out.append("static void runtime_fail(const char* message) {\n    fprintf(stderr, \"%s\\n\", message);\n    exit(1);\n}\n\nstatic void print_inline(Value value) {\n    switch (value.type) {\n        case VALUE_NUMBER:\n            printf(\"%lld\", value.as.number);\n            break;\n        case VALUE_STRING:\n            printf(\"\\\"%s\\\"\", value.as.string);\n            break;\n        case VALUE_BOOLEAN:\n            printf(\"%s\", value.as.boolean ? \"true\" : \"false\");\n            break;\n        case VALUE_ARRAY:\n            printf(\"[\");\n            for (int i = 0; i < value.as.array.count; i++) {\n                if (i > 0) printf(\", \");\n                print_inline(value.as.array.values[i]);\n            }\n            printf(\"]\");\n            break;\n        case VALUE_NULL:\n            printf(\"空\");\n            break;\n    }\n}\n\nvoid builtin_print(Value value) {\n    if (value.type == VALUE_STRING) {\n        printf(\"%s\\n\", value.as.string);\n    } else {\n        print_inline(value);\n        printf(\"\\n\");\n    }\n}\n\nValue builtin_input() {\n    char buffer[1024];\n    Value v;\n    v.type = VALUE_STRING;\n    if (fgets(buffer, sizeof(buffer), stdin)) {\n        buffer[strcspn(buffer, \"\\n\")] = '\\0';\n        v.as.string = strdup(buffer);\n    } else {\n        v.as.string = \"\";\n    }\n    return v;\n}\n\nValue create_null() {\n    Value v;\n    v.type = VALUE_NULL;\n    return v;\n}\n\nValue create_array() {\n    Value v;\n    v.type = VALUE_ARRAY;\n    v.as.array.values = malloc(sizeof(Value) * 8);\n    v.as.array.count = 0;\n    v.as.array.capacity = 8;\n    return v;\n}\n\nstatic Value copy_array(Value array, int extra) {\n    Value v;\n    int capacity = array.as.array.count + extra;\n    if (capacity < 8) capacity = 8;\n    v.type = VALUE_ARRAY;\n    v.as.array.values = malloc(sizeof(Value) * capacity);\n    v.as.array.capacity = capacity;\n    v.as.array.count = array.as.array.count;\n    for (int i = 0; i < array.as.array.count; i++) {\n        v.as.array.values[i] = array.as.array.values[i];\n    }\n    return v;\n}\n\nValue array_append(Value array, Value value) {\n    if (array.type != VALUE_ARRAY) runtime_fail(\"添加操作需要数组\");\n    Value v = copy_array(array, 1);\n    v.as.array.values[v.as.array.count] = value;\n    v.as.array.count = v.as.array.count + 1;\n    return v;\n}\n\nValue array_removed(Value array, long long index) {\n    if (array.type != VALUE_ARRAY) runtime_fail(\"删除操作需要数组和数字索引\");\n    if (index < 0 || index >= array.as.array.count) {\n        fprintf(stderr, \"数组索引越界: 索引 %lld, 长度 %d\\n\", index, array.as.array.count);\n        exit(1);\n    }\n    Value v = copy_array(array, 0);\n    for (int i = (int)index; i < v.as.array.count - 1; i++) {\n        v.as.array.values[i] = v.as.array.values[i + 1];\n    }\n    v.as.array.count = v.as.array.count - 1;\n    return v;\n}\n\nValue array_get(Value array, long long index) {\n    if (array.type != VALUE_ARRAY) runtime_fail(\"索引操作需要数组和数字索引\");\n    if (index < 0 || index >= array.as.array.count) {\n        fprintf(stderr, \"数组索引越界: 索引 %lld, 长度 %d\\n\", index, array.as.array.count);\n        exit(1);\n    }\n    return array.as.array.values[index];\n}\n\nValue array_length_value(Value array) {\n    if (array.type != VALUE_ARRAY) runtime_fail(\"长度操作需要数组\");\n    Value v;\n    v.type = VALUE_NUMBER;\n    v.as.number = array.as.array.count;\n    return v;\n}\n\nlong long string_length(Value value) {\n    if (value.type != VALUE_STRING) runtime_fail(\"只能遍历字符串\");\n    long long n = 0;\n    for (const char* p = value.as.string; *p; p++) {\n        if (((unsigned char)*p & 0xC0) != 0x80) n++;\n    }\n    return n;\n}\n\nValue string_char_at(Value value, long long index) {\n    if (value.type != VALUE_STRING) runtime_fail(\"只能遍历字符串\");\n    const char* s = value.as.string;\n    long long seen = -1;\n    size_t start = 0;\n    size_t i = 0;\n    while (s[i] != '\\0') {\n        if (((unsigned char)s[i] & 0xC0) != 0x80) {\n            seen = seen + 1;\n            if (seen == index) start = i;\n            if (seen == index + 1) break;\n        }\n        i = i + 1;\n    }\n    if (seen < index) runtime_fail(\"数组索引越界\");\n    size_t end = i;\n    if (seen == index) end = strlen(s);\n    char* out = malloc(end - start + 1);\n    memcpy(out, s + start, end - start);\n    out[end - start] = '\\0';\n    Value v;\n    v.type = VALUE_STRING;\n    v.as.string = out;\n    return v;\n}\n\nbool is_truthy(Value value) {\n    switch (value.type) {\n        case VALUE_BOOLEAN: return value.as.boolean;\n        case VALUE_NUMBER: return value.as.number != 0;\n        case VALUE_STRING: return strlen(value.as.string) > 0;\n        case VALUE_NULL: return false;\n        default: return true;\n    }\n}\n\nlong long number_compare(Value a, Value b) {\n    if (a.type != VALUE_NUMBER || b.type != VALUE_NUMBER) runtime_fail(\"类型不匹配: 无法比较\");\n    if (a.as.number > b.as.number) return 1;\n    if (a.as.number < b.as.number) return -1;\n    return 0;\n}\n\nstatic bool equal_raw(Value a, Value b) {\n    if (a.type != b.type) return false;\n    switch (a.type) {\n        case VALUE_NUMBER: return a.as.number == b.as.number;\n        case VALUE_STRING: return strcmp(a.as.string, b.as.string) == 0;\n        case VALUE_BOOLEAN: return a.as.boolean == b.as.boolean;\n        case VALUE_NULL: return true;\n        default: return false;\n    }\n}\n\nstatic Value make_boolean(bool b) {\n    Value v;\n    v.type = VALUE_BOOLEAN;\n    v.as.boolean = b;\n    return v;\n}\n\nValue values_equal(Value a, Value b) {\n    return make_boolean(equal_raw(a, b));\n}\n\nValue values_unequal(Value a, Value b) {\n    return make_boolean(!equal_raw(a, b));\n}\n\nValue logical_and(Value a, Value b) {\n    return make_boolean(is_truthy(a) && is_truthy(b));\n}\n\nValue logical_or(Value a, Value b) {\n    return make_boolean(is_truthy(a) || is_truthy(b));\n}\n\nValue not_value(Value value) {\n    return make_boolean(!is_truthy(value));\n}\n\nstatic char* number_text(long long n) {\n    char* s = malloc(32);\n    snprintf(s, 32, \"%lld\", n);\n    return s;\n}\n\nstatic char* concat_text(const char* a, const char* b) {\n    char* s = malloc(strlen(a) + strlen(b) + 1);\n    strcpy(s, a);\n    strcat(s, b);\n    return s;\n}\n\nstatic char* render_text(Value value) {\n    if (value.type == VALUE_NUMBER) return number_text(value.as.number);\n    if (value.type == VALUE_STRING) return concat_text(\"\\\"\", concat_text(value.as.string, \"\\\"\"));\n    if (value.type == VALUE_BOOLEAN) return strdup(value.as.boolean ? \"true\" : \"false\");\n    if (value.type == VALUE_NULL) return strdup(\"空\");\n    char* s = strdup(\"[\");\n    for (int i = 0; i < value.as.array.count; i++) {\n        if (i > 0) s = concat_text(s, \", \");\n        s = concat_text(s, render_text(value.as.array.values[i]));\n    }\n    return concat_text(s, \"]\");\n}\n\nstatic Value make_string(char* s) {\n    Value v;\n    v.type = VALUE_STRING;\n    v.as.string = s;\n    return v;\n}\n\nValue add_values(Value a, Value b) {\n    if (a.type == VALUE_NUMBER && b.type == VALUE_NUMBER) {\n        Value v;\n        v.type = VALUE_NUMBER;\n        v.as.number = a.as.number + b.as.number;\n        return v;\n    }\n    if (a.type == VALUE_STRING && b.type == VALUE_STRING) return make_string(concat_text(a.as.string, b.as.string));\n    if (a.type == VALUE_STRING && b.type == VALUE_NUMBER) return make_string(concat_text(a.as.string, number_text(b.as.number)));\n    if (a.type == VALUE_NUMBER && b.type == VALUE_STRING) return make_string(concat_text(number_text(a.as.number), b.as.string));\n    if (a.type == VALUE_STRING && b.type == VALUE_BOOLEAN) return make_string(concat_text(a.as.string, b.as.boolean ? \"true\" : \"false\"));\n    if (a.type == VALUE_BOOLEAN && b.type == VALUE_STRING) return make_string(concat_text(a.as.boolean ? \"true\" : \"false\", b.as.string));\n    if (a.type == VALUE_STRING && b.type == VALUE_NULL) return make_string(concat_text(a.as.string, \"空\"));\n    if (a.type == VALUE_NULL && b.type == VALUE_STRING) return make_string(concat_text(\"空\", b.as.string));\n    if (a.type == VALUE_STRING && b.type == VALUE_ARRAY) return make_string(concat_text(a.as.string, render_text(b)));\n    if (a.type == VALUE_ARRAY && b.type == VALUE_STRING) return make_string(concat_text(render_text(a), b.as.string));\n    runtime_fail(\"类型不匹配: 无法相加\");\n    return create_null();\n}\n\nValue subtract_values(Value a, Value b) {\n    if (a.type != VALUE_NUMBER || b.type != VALUE_NUMBER) runtime_fail(\"类型不匹配: 无法相减\");\n    Value v;\n    v.type = VALUE_NUMBER;\n    v.as.number = a.as.number - b.as.number;\n    return v;\n}\n\nValue multiply_values(Value a, Value b) {\n    if (a.type != VALUE_NUMBER || b.type != VALUE_NUMBER) runtime_fail(\"类型不匹配: 无法相乘\");\n    Value v;\n    v.type = VALUE_NUMBER;\n    v.as.number = a.as.number * b.as.number;\n    return v;\n}\n\nValue divide_values(Value a, Value b) {\n    if (a.type != VALUE_NUMBER || b.type != VALUE_NUMBER) runtime_fail(\"类型不匹配: 无法相除\");\n    if (b.as.number == 0) runtime_fail(\"除零错误\");\n    Value v;\n    v.type = VALUE_NUMBER;\n    v.as.number = a.as.number / b.as.number;\n    return v;\n}\n\n");
        let ghost funcs_base = out@;
        let mut i: usize = 0;
        proof {
            assert(out@ =~= funcs_base + gen_funcs_s(ss@.take(0)));
        }
        while i < ss.len()
            invariant
                i <= ss@.len(),
                out@ == funcs_base + gen_funcs_s(ss@.take(i as int)),
            decreases ss@.len() - i,
        {
            proof {
                assert(decreases_to!(ss@ => ss@[i as int]));
            }
            let piece = generate_function_definition(&ss[i]);
            out.append(piece.as_str());
            proof {
                let t = ss@.take(i + 1 as int);
                assert(t.drop_last() =~= ss@.take(i as int));
                assert(t.last() == ss@[i as int]);
                assert(out@ =~= funcs_base + gen_funcs_s(ss@.take(i + 1 as int)));
            }
            i = i + 1;
        }
        out.append("int main() {\n");
        let ghost main_base = out@;
        let mut j: usize = 0;
        proof {
            assert(ss@.take(ss@.len() as int) =~= ss@);
            assert(out@ =~= main_base + gen_main_items_s(ss@.take(0)));
        }
        while j < ss.len()
            invariant
                j <= ss@.len(),
                out@ == main_base + gen_main_items_s(ss@.take(j as int)),
            decreases ss@.len() - j,
        {
            let is_func = match &ss[j] {
                Statement::FuncDecl { .. } => true,
                _ => false,
            };
            if !is_func {
                proof {
                    assert(decreases_to!(ss@ => ss@[j as int]));
                }
                let piece = generate_statement(&ss[j]);
                out.append(piece.as_str());
            }
            proof {
                let t = ss@.take(j + 1 as int);
                assert(t.drop_last() =~= ss@.take(j as int));
                assert(t.last() == ss@[j as int]);
                assert(out@ =~= main_base + gen_main_items_s(ss@.take(j + 1 as int)));
            }
            j = j + 1;
        }
        out.append("return 0;\n}\n");
        proof {
            assert(ss@.take(ss@.len() as int) =~= ss@);
            assert(out@ =~= gen_program_s(ss@));
        }
        out
    }
}

} // verus!
