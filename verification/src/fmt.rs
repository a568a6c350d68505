//! The pretty-printer: each node renders to source text that the parser
//! reads back to the same tree, so printing a parse and re-parsing the
//! print is idempotent. Logical and unary operators print under their
//! keyword spellings, and the array methods print with their call
//! parentheses, for that reason.

use vstd::prelude::*;
use crate::ast::{BinOp, Expression, Program, Statement};
use crate::numfmt::{i64_to_string, int_chars};
use crate::strutil::{escape_chars, escape_string};

verus! {

/// The printed symbol of a binary operator.
pub open spec fn binop_chars(op: BinOp) -> Seq<char> {
    match op {
        BinOp::Add => seq!['+'],
        BinOp::Sub => seq!['-'],
        BinOp::Mul => seq!['*'],
        BinOp::Div => seq!['/'],
        BinOp::Eq => seq!['=', '='],
        BinOp::Ne => seq!['!', '='],
        BinOp::Gt => seq!['>'],
        BinOp::Lt => seq!['<'],
        BinOp::Ge => seq!['>', '='],
        BinOp::Le => seq!['<', '='],
        BinOp::And => seq!['且'],
        BinOp::Or => seq!['或'],
    }
}

/// The printed form of a boolean literal.
pub open spec fn bool_lit_chars(b: bool) -> Seq<char> {
    if b {
        seq!['真']
    } else {
        seq!['假']
    }
}

/// The printed form of an expression.
pub open spec fn format_expr_s(e: Expression) -> Seq<char>
    decreases e, 0int,
{
    match e {
        Expression::Number(n) => int_chars(n as int),
        Expression::Str(s) => seq!['"'] + escape_chars(s@) + seq!['"'],
        Expression::BoolLit(b) => bool_lit_chars(b),
        Expression::Variable(name) => name@,
        Expression::Binary { left, op, right } => seq!['('] + format_expr_s(*left) + seq![' ']
            + binop_chars(op) + seq![' '] + format_expr_s(*right) + seq![')'],
        Expression::Unary { op: _, operand } => seq!['非', ' '] + format_expr_s(*operand),
        Expression::Call { callee, args } => callee@ + seq!['('] + format_exprs_s(args@) + seq![
            ')',
        ],
        Expression::Assign { target, value } => target@ + seq![' ', '=', ' '] + format_expr_s(
            *value,
        ),
        Expression::ArrayLiteral(elements) => seq!['['] + format_exprs_s(elements@) + seq![']'],
        Expression::Index { array, index } => format_expr_s(*array) + seq!['['] + format_expr_s(
            *index,
        ) + seq![']'],
        Expression::Length(array) => format_expr_s(*array) + seq!['.', '长', '度', '(', ')'],
        Expression::Append { array, element } => format_expr_s(*array) + seq!['.', '添', '加', '(']
            + format_expr_s(*element) + seq![')'],
        Expression::RemoveAt { array, index } => format_expr_s(*array) + seq!['.', '删', '除', '(']
            + format_expr_s(*index) + seq![')'],
    }
}

/// The printed forms of an expression list, joined by `, `.
pub open spec fn format_exprs_s(es: Seq<Expression>) -> Seq<char>
    decreases es, 1int,
{
    if es.len() == 0 {
        Seq::empty()
    } else if es.len() == 1 {
        format_expr_s(es[0])
    } else {
        format_exprs_s(es.drop_last()) + seq![',', ' '] + format_expr_s(es.last())
    }
}

/// A parameter list, joined by `, `.
pub open spec fn format_names_s(ns: Seq<String>) -> Seq<char>
    decreases ns,
{
    if ns.len() == 0 {
        Seq::empty()
    } else if ns.len() == 1 {
        ns[0]@
    } else {
        format_names_s(ns.drop_last()) + seq![',', ' '] + ns.last()@
    }
}

/// The printed form of a statement. Bodies open with a brace, indent one
/// level, and close on their own line.
pub open spec fn format_stmt_s(s: Statement) -> Seq<char>
    decreases s, 0int,
{
    match s {
        Statement::ExprStmt(e) => format_expr_s(e),
        Statement::VarDecl { name, init, is_const } => (if is_const {
            seq!['常', '量', ' ']
        } else {
            seq!['让', ' ']
        }) + name@ + (match init {
            Some(e) => seq![' ', '=', ' '] + format_expr_s(e),
            None => Seq::empty(),
        }),
        Statement::FuncDecl { name, params, body } => seq!['函', '数', ' '] + name@ + seq!['(']
            + format_names_s(params@) + seq![')', ' '] + format_block_s(body@),
        Statement::If { condition, then_branch, else_branch } => seq!['如', '果', ' ']
            + format_expr_s(condition) + seq![' '] + format_block_s(then_branch@) + seq![
            ' ',
            '否',
            '则',
            ' ',
        ] + format_block_s(else_branch@),
        Statement::Loop { condition, body } => seq!['循', '环', ' '] + (match condition {
            Some(e) => format_expr_s(e) + seq![' '],
            None => Seq::empty(),
        }) + format_block_s(body@),
        Statement::While { condition, body } => seq!['当', ' '] + format_expr_s(condition) + seq![
            ' ',
        ] + format_block_s(body@),
        Statement::ForEach { variable, iterable, body } => seq!['对', '于', ' '] + variable@
            + seq![' ', '在', ' '] + format_expr_s(iterable) + seq![' '] + format_block_s(body@),
        Statement::Return(value) => seq!['返', '回'] + (match value {
            Some(e) => seq![' '] + format_expr_s(e),
            None => Seq::empty(),
        }),
        Statement::Break => seq!['跳', '出'],
        Statement::Continue => seq!['继', '续'],
    }
}

/// A braced statement list: `{`, one statement per indented line, `}`.
pub open spec fn format_block_s(ss: Seq<Statement>) -> Seq<char>
    decreases ss, 2int,
{
    seq!['{'] + format_block_items_s(ss) + seq!['\n', '}']
}

/// The indented lines of a block's statements.
pub open spec fn format_block_items_s(ss: Seq<Statement>) -> Seq<char>
    decreases ss, 1int,
{
    if ss.len() == 0 {
        Seq::empty()
    } else {
        format_block_items_s(ss.drop_last()) + seq!['\n', ' ', ' '] + format_stmt_s(ss.last())
    }
}

/// The printed form of a whole program: its statements, one per line.
pub open spec fn format_program_s(ss: Seq<Statement>) -> Seq<char>
    decreases ss,
{
    if ss.len() == 0 {
        Seq::empty()
    } else if ss.len() == 1 {
        format_stmt_s(ss[0])
    } else {
        format_program_s(ss.drop_last()) + seq!['\n'] + format_stmt_s(ss.last())
    }
}

/// Prints one expression per [`format_expr_s`].
pub fn format_expression(e: &Expression) -> (r: String)
    ensures
        r@ == format_expr_s(*e),
    decreases *e, 0int,
{
    match e {
        Expression::Number(n) => i64_to_string(*n),
        Expression::Str(s) => {
            let mut out = String::from_str("\"");
            let esc = escape_string(s.as_str());
            out.append(esc.as_str());
            out.append("\"");
            proof {
                reveal_strlit("\"");
                assert(out@ =~= format_expr_s(*e));
            }
            out
        }
        Expression::BoolLit(b) => {
            let out = if *b {
                String::from_str("真")
            } else {
                String::from_str("假")
            };
            proof {
                reveal_strlit("真");
                reveal_strlit("假");
                assert(out@ =~= format_expr_s(*e));
            }
            out
        }
        Expression::Variable(name) => name.clone(),
        Expression::Binary { left, op, right } => {
            let mut out = String::from_str("(");
            let l = format_expression(left);
            out.append(l.as_str());
            out.append(" ");
            out.append(
                match op {
                    BinOp::Add => "+",
                    BinOp::Sub => "-",
                    BinOp::Mul => "*",
                    BinOp::Div => "/",
                    BinOp::Eq => "==",
                    BinOp::Ne => "!=",
                    BinOp::Gt => ">",
                    BinOp::Lt => "<",
                    BinOp::Ge => ">=",
                    BinOp::Le => "<=",
                    BinOp::And => "且",
                    BinOp::Or => "或",
                },
            );
            out.append(" ");
            let rr = format_expression(right);
            out.append(rr.as_str());
            out.append(")");
            proof {
                reveal_strlit("(");
                reveal_strlit(" ");
                reveal_strlit(")");
                reveal_strlit("+");
                reveal_strlit("-");
                reveal_strlit("*");
                reveal_strlit("/");
                reveal_strlit("==");
                reveal_strlit("!=");
                reveal_strlit(">");
                reveal_strlit("<");
                reveal_strlit(">=");
                reveal_strlit("<=");
                reveal_strlit("且");
                reveal_strlit("或");
                assert(out@ =~= format_expr_s(*e));
            }
            out
        }
        Expression::Unary { op: _, operand } => {
            let mut out = String::from_str("非 ");
            let o = format_expression(operand);
            out.append(o.as_str());
            proof {
                reveal_strlit("非 ");
                assert(out@ =~= format_expr_s(*e));
            }
            out
        }
        Expression::Call { callee, args } => {
            let mut out = callee.clone();
            out.append("(");
            let a = format_expressions(args);
            out.append(a.as_str());
            out.append(")");
            proof {
                reveal_strlit("(");
                reveal_strlit(")");
                assert(out@ =~= format_expr_s(*e));
            }
            out
        }
        Expression::Assign { target, value } => {
            let mut out = target.clone();
            out.append(" = ");
            let v = format_expression(value);
            out.append(v.as_str());
            proof {
                reveal_strlit(" = ");
                assert(out@ =~= format_expr_s(*e));
            }
            out
        }
        Expression::ArrayLiteral(elements) => {
            let mut out = String::from_str("[");
            let a = format_expressions(elements);
            out.append(a.as_str());
            out.append("]");
            proof {
                reveal_strlit("[");
                reveal_strlit("]");
                assert(out@ =~= format_expr_s(*e));
            }
            out
        }
        Expression::Index { array, index } => {
            let mut out = format_expression(array);
            out.append("[");
            let i = format_expression(index);
            out.append(i.as_str());
            out.append("]");
            proof {
                reveal_strlit("[");
                reveal_strlit("]");
                assert(out@ =~= format_expr_s(*e));
            }
            out
        }
        Expression::Length(array) => {
            let mut out = format_expression(array);
            out.append(".长度()");
            proof {
                reveal_strlit(".长度()");
                assert(out@ =~= format_expr_s(*e));
            }
            out
        }
        Expression::Append { array, element } => {
            let mut out = format_expression(array);
            out.append(".添加(");
            let el = format_expression(element);
            out.append(el.as_str());
            out.append(")");
            proof {
                reveal_strlit(".添加(");
                reveal_strlit(")");
                assert(out@ =~= format_expr_s(*e));
            }
            out
        }
        Expression::RemoveAt { array, index } => {
            let mut out = format_expression(array);
            out.append(".删除(");
            let i = format_expression(index);
            out.append(i.as_str());
            out.append(")");
            proof {
                reveal_strlit(".删除(");
                reveal_strlit(")");
                assert(out@ =~= format_expr_s(*e));
            }
            out
        }
    }
}

/// Prints an expression list per [`format_exprs_s`].
#[verifier::loop_isolation(false)]
pub fn format_expressions(es: &Vec<Expression>) -> (r: String)
    ensures
        r@ == format_exprs_s(es@),
    decreases es@, 1int,
{
    let mut out = String::new();
    let mut i: usize = 0;
    while i < es.len()
        invariant
            i <= es@.len(),
            out@ == format_exprs_s(es@.take(i as int)),
        decreases es@.len() - i,
    {
        if i > 0 {
            out.append(", ");
        }
        proof {
            assert(decreases_to!(es@ => es@[i as int]));
        }
        let piece = format_expression(&es[i]);
        out.append(piece.as_str());
        proof {
            reveal_strlit(", ");
            let t = es@.take(i + 1 as int);
            assert(t.drop_last() =~= es@.take(i as int));
            assert(t.last() == es@[i as int]);
            assert(out@ =~= format_exprs_s(es@.take(i + 1 as int)));
        }
        i = i + 1;
    }
    proof {
        assert(es@.take(es@.len() as int) =~= es@);
    }
    out
}

/// Prints a parameter list per [`format_names_s`].
#[verifier::loop_isolation(false)]
pub fn format_names(ns: &Vec<String>) -> (r: String)
    ensures
        r@ == format_names_s(ns@),
{
    let mut out = String::new();
    let mut i: usize = 0;
    while i < ns.len()
        invariant
            i <= ns@.len(),
            out@ == format_names_s(ns@.take(i as int)),
        decreases ns@.len() - i,
    {
        if i > 0 {
            out.append(", ");
        }
        out.append(ns[i].as_str());
        proof {
            reveal_strlit(", ");
            let t = ns@.take(i + 1 as int);
            assert(t.drop_last() =~= ns@.take(i as int));
            assert(t.last() == ns@[i as int]);
            assert(out@ =~= format_names_s(ns@.take(i + 1 as int)));
        }
        i = i + 1;
    }
    proof {
        assert(ns@.take(ns@.len() as int) =~= ns@);
    }
    out
}

/// Prints one statement per [`format_stmt_s`].
pub fn format_statement(s: &Statement) -> (r: String)
    ensures
        r@ == format_stmt_s(*s),
    decreases *s, 0int,
{
    match s {
        Statement::ExprStmt(e) => format_expression(e),
        Statement::VarDecl { name, init, is_const } => {
            let mut out = if *is_const {
                String::from_str("常量 ")
            } else {
                String::from_str("让 ")
            };
            out.append(name.as_str());
            match init {
                Some(e) => {
                    out.append(" = ");
                    let v = format_expression(e);
                    out.append(v.as_str());
                }
                None => {}
            }
            proof {
                reveal_strlit("常量 ");
                reveal_strlit("让 ");
                reveal_strlit(" = ");
                assert(out@ =~= format_stmt_s(*s));
            }
            out
        }
        Statement::FuncDecl { name, params, body } => {
            let mut out = String::from_str("函数 ");
            out.append(name.as_str());
            out.append("(");
            let ps = format_names(crate::value::rc_deref(params));
            out.append(ps.as_str());
            out.append(") ");
            let b = format_block(crate::value::rc_deref(body));
            out.append(b.as_str());
            proof {
                reveal_strlit("函数 ");
                reveal_strlit("(");
                reveal_strlit(") ");
                assert(out@ =~= format_stmt_s(*s));
            }
            out
        }
        Statement::If { condition, then_branch, else_branch } => {
            let mut out = String::from_str("如果 ");
            let c = format_expression(condition);
            out.append(c.as_str());
            out.append(" ");
            let t = format_block(then_branch);
            out.append(t.as_str());
            out.append(" 否则 ");
            let el = format_block(else_branch);
            out.append(el.as_str());
            proof {
                reveal_strlit("如果 ");
                reveal_strlit(" ");
                reveal_strlit(" 否则 ");
                assert(out@ =~= format_stmt_s(*s));
            }
            out
        }
        Statement::Loop { condition, body } => {
            let mut out = String::from_str("循环 ");
            match condition {
                Some(e) => {
                    let c = format_expression(e);
                    out.append(c.as_str());
                    out.append(" ");
                }
                None => {}
            }
            let b = format_block(body);
            out.append(b.as_str());
            proof {
                reveal_strlit("循环 ");
                reveal_strlit(" ");
                assert(out@ =~= format_stmt_s(*s));
            }
            out
        }
        Statement::While { condition, body } => {
            let mut out = String::from_str("当 ");
            let c = format_expression(condition);
            out.append(c.as_str());
            out.append(" ");
            let b = format_block(body);
            out.append(b.as_str());
            proof {
                reveal_strlit("当 ");
                reveal_strlit(" ");
                assert(out@ =~= format_stmt_s(*s));
            }
            out
        }
        Statement::ForEach { variable, iterable, body } => {
            let mut out = String::from_str("对于 ");
            out.append(variable.as_str());
            out.append(" 在 ");
            let it = format_expression(iterable);
            out.append(it.as_str());
            out.append(" ");
            let b = format_block(body);
            out.append(b.as_str());
            proof {
                reveal_strlit("对于 ");
                reveal_strlit(" 在 ");
                reveal_strlit(" ");
                assert(out@ =~= format_stmt_s(*s));
            }
            out
        }
        Statement::Return(value) => {
            let mut out = String::from_str("返回");
            match value {
                Some(e) => {
                    out.append(" ");
                    let v = format_expression(e);
                    out.append(v.as_str());
                }
                None => {}
            }
            proof {
                reveal_strlit("返回");
                reveal_strlit(" ");
                assert(out@ =~= format_stmt_s(*s));
            }
            out
        }
        Statement::Break => {
            let out = String::from_str("跳出");
            proof {
                reveal_strlit("跳出");
                assert(out@ =~= format_stmt_s(*s));
            }
            out
        }
        Statement::Continue => {
            let out = String::from_str("继续");
            proof {
                reveal_strlit("继续");
                assert(out@ =~= format_stmt_s(*s));
            }
            out
        }
    }
}

/// Prints a braced block per [`format_block_s`].
#[verifier::loop_isolation(false)]
pub fn format_block(ss: &Vec<Statement>) -> (r: String)
    ensures
        r@ == format_block_s(ss@),
    decreases ss@, 1int,
{
    let mut out = String::from_str("{");
    proof {
        reveal_strlit("{");
        assert(format_block_items_s(ss@.take(0)) =~= Seq::<char>::empty());
        assert(out@ =~= seq!['{'] + format_block_items_s(ss@.take(0)));
    }
    let mut i: usize = 0;
    while i < ss.len()
        invariant
            i <= ss@.len(),
            out@ == seq!['{'] + format_block_items_s(ss@.take(i as int)),
        decreases ss@.len() - i,
    {
        out.append("\n  ");
        proof {
            assert(decreases_to!(ss@ => ss@[i as int]));
        }
        let piece = format_statement(&ss[i]);
        out.append(piece.as_str());
        proof {
            reveal_strlit("\n  ");
            let t = ss@.take(i + 1 as int);
            assert(t.drop_last() =~= ss@.take(i as int));
            assert(t.last() == ss@[i as int]);
            assert(out@ =~= seq!['{'] + format_block_items_s(ss@.take(i + 1 as int)));
        }
        i = i + 1;
    }
    out.append("\n}");
    proof {
        reveal_strlit("\n}");
        assert(ss@.take(ss@.len() as int) =~= ss@);
        assert(out@ =~= format_block_s(ss@));
    }
    out
}

/// Prints a whole program per [`format_program_s`].
#[verifier::loop_isolation(false)]
pub fn format_program(p: &Program) -> (r: String)
    ensures
        r@ == format_program_s(p.statements@),
{
    let ss = &p.statements;
    let mut out = String::new();
    let mut i: usize = 0;
    while i < ss.len()
        invariant
            i <= ss@.len(),
            out@ == format_program_s(ss@.take(i as int)),
        decreases ss@.len() - i,
    {
        if i > 0 {
            out.append("\n");
        }
        let piece = format_statement(&ss[i]);
        out.append(piece.as_str());
        proof {
            reveal_strlit("\n");
            let t = ss@.take(i + 1 as int);
            assert(t.drop_last() =~= ss@.take(i as int));
            assert(t.last() == ss@[i as int]);
            assert(out@ =~= format_program_s(ss@.take(i + 1 as int)));
        }
        i = i + 1;
    }
    proof {
        assert(ss@.take(ss@.len() as int) =~= ss@);
    }
    out
}

} // verus!
