//! The parser: a recursive-descent, precedence-climbing consumer of the
//! token sequence. It produces a `Program` or stops at the first syntax
//! error, naming the construct it expected. Precedence, low to high:
//! assignment, logical, equality, relational, additive, multiplicative,
//! unary, postfix method sugar, primary.
//!
//! The grammar itself is written down once, as the `parse_*_s`
//! specification functions over token models, and every parsing method is
//! verified to return exactly what its production says — the same tree, at
//! the same cursor position, or the same first error.

use vstd::prelude::*;
use std::rc::Rc;
use crate::ast::{
    deep_exprs, deep_names, deep_stmts, lemma_deep_exprs, lemma_deep_stmts, BinOp, ExprS,
    Expression, Program, Statement, StmtS, UnOp,
};
use crate::errors::ParseError;
use crate::lexer::{deep_tokens, TokS, Token, TokenS, TokenType};

verus! {

/// A small fixed tag telling token kinds apart, payloads ignored.
pub open spec fn kind_id_s(t: TokenType) -> int {
    match t {
        TokenType::KwIf => 0,
        TokenType::KwElse => 1,
        TokenType::KwLoop => 2,
        TokenType::KwWhile => 3,
        TokenType::KwFor => 4,
        TokenType::KwIn => 5,
        TokenType::KwFunc => 6,
        TokenType::KwReturn => 7,
        TokenType::KwLet => 8,
        TokenType::KwConst => 9,
        TokenType::KwVar => 10,
        TokenType::KwBreak => 11,
        TokenType::KwContinue => 12,
        TokenType::KwAnd => 13,
        TokenType::KwOr => 14,
        TokenType::KwNot => 15,
        TokenType::Num(_) => 16,
        TokenType::Str(_) => 17,
        TokenType::Bool(_) => 18,
        TokenType::Ident(_) => 19,
        TokenType::Plus => 20,
        TokenType::Minus => 21,
        TokenType::Star => 22,
        TokenType::Slash => 23,
        TokenType::Assign => 24,
        TokenType::Eq => 25,
        TokenType::Ne => 26,
        TokenType::Gt => 27,
        TokenType::Lt => 28,
        TokenType::Ge => 29,
        TokenType::Le => 30,
        TokenType::Dot => 31,
        TokenType::LParen => 32,
        TokenType::RParen => 33,
        TokenType::LBrace => 34,
        TokenType::RBrace => 35,
        TokenType::LBracket => 36,
        TokenType::RBracket => 37,
        TokenType::Comma => 38,
        TokenType::Semicolon => 39,
        TokenType::Colon => 40,
        TokenType::Eof => 41,
    }
}

/// Whether two token kinds are the same variant, payloads ignored.
fn kind_eq(a: &TokenType, b: &TokenType) -> (r: bool)
    ensures
        r == (kind_id_s(*a) == kind_id_s(*b)),
{
    let ia = kind_id(a);
    let ib = kind_id(b);
    ia == ib
}

/// The tag of a token kind.
fn kind_id(t: &TokenType) -> (r: u32)
    ensures
        r as int == kind_id_s(*t),
{
    match t {
        TokenType::KwIf => 0,
        TokenType::KwElse => 1,
        TokenType::KwLoop => 2,
        TokenType::KwWhile => 3,
        TokenType::KwFor => 4,
        TokenType::KwIn => 5,
        TokenType::KwFunc => 6,
        TokenType::KwReturn => 7,
        TokenType::KwLet => 8,
        TokenType::KwConst => 9,
        TokenType::KwVar => 10,
        TokenType::KwBreak => 11,
        TokenType::KwContinue => 12,
        TokenType::KwAnd => 13,
        TokenType::KwOr => 14,
        TokenType::KwNot => 15,
        TokenType::Num(_) => 16,
        TokenType::Str(_) => 17,
        TokenType::Bool(_) => 18,
        TokenType::Ident(_) => 19,
        TokenType::Plus => 20,
        TokenType::Minus => 21,
        TokenType::Star => 22,
        TokenType::Slash => 23,
        TokenType::Assign => 24,
        TokenType::Eq => 25,
        TokenType::Ne => 26,
        TokenType::Gt => 27,
        TokenType::Lt => 28,
        TokenType::Ge => 29,
        TokenType::Le => 30,
        TokenType::Dot => 31,
        TokenType::LParen => 32,
        TokenType::RParen => 33,
        TokenType::LBrace => 34,
        TokenType::RBrace => 35,
        TokenType::LBracket => 36,
        TokenType::RBracket => 37,
        TokenType::Comma => 38,
        TokenType::Semicolon => 39,
        TokenType::Colon => 40,
        TokenType::Eof => 41,
    }
}

/// Whether an owned string spells exactly `b`.
fn str_is(a: &String, b: &str) -> (r: bool)
    ensures
        r == (a@ == b@),
{
    let o: String = b.to_owned();
    *a == o
}


/// What a parsing step yields: a value and the cursor position just past
/// what was consumed, or the first syntax error.
pub enum Parsed<T> {
    Done(T, int),
    Fail(ParseError),
}

/// Whether the cursor at `i` stands on the final (end-of-input) token, where
/// the parser stops consuming.
pub open spec fn at_end_s(ts: Seq<TokenS>, i: int) -> bool {
    i + 1 >= ts.len()
}

/// The models of an optional expression / statement.
pub open spec fn deep_opt_expr(o: Option<Expression>) -> Option<ExprS> {
    match o {
        Some(e) => Some(e.deep()),
        None => None,
    }
}

/// The model of an optional statement.
pub open spec fn deep_opt_stmt(o: Option<Statement>) -> Option<StmtS> {
    match o {
        Some(st) => Some(st.deep()),
        None => None,
    }
}

/// The grammar, as one specification function per production, in the same
/// recursive-descent shape the parser walks: what each production returns
/// on a token sequence, and at which position it leaves the cursor. The
/// guarded non-advancing branches only keep the recursion well-founded;
/// the parser's contracts show they are never taken.
#[verifier::opaque]
pub open spec fn parse_program_s(ts: Seq<TokenS>, i: int) -> Result<Seq<StmtS>, ParseError>
    decreases ts.len() - i, 40int
        when 0 <= i
{
    if at_end_s(ts, i) {
        Ok(Seq::empty())
    } else {
        match parse_statement_s(ts, i) {
            Parsed::Fail(e) => Err(e),
            Parsed::Done(opt, j) => match opt {
                None => Err(ParseError::ExpectedExpression),
                Some(st) => if j == i {
                    Err(ParseError::ExpectedExpression)
                } else if i < j <= ts.len() {
                    match parse_program_s(ts, j) {
                        Ok(rest) => Ok(seq![st] + rest),
                        Err(e) => Err(e),
                    }
                } else {
                    Err(ParseError::ExpectedExpression)
                },
            },
        }
    }
}

/// A brace-delimited statement list, the opening brace already consumed:
/// statements until a closing brace, which is required.
#[verifier::opaque]
pub open spec fn parse_block_s(ts: Seq<TokenS>, i: int) -> Parsed<Seq<StmtS>>
    decreases ts.len() - i, 39int
        when 0 <= i
{
    if (!at_end_s(ts, i) && ts[i].kind is RBrace) || at_end_s(ts, i) {
        if !at_end_s(ts, i) && ts[i].kind is RBrace {
            Parsed::Done(Seq::empty(), i + 1)
        } else {
            Parsed::Fail(ParseError::ExpectedRightBrace)
        }
    } else {
        match parse_statement_s(ts, i) {
            Parsed::Fail(e) => Parsed::Fail(e),
            Parsed::Done(opt, j) => match opt {
                None => Parsed::Fail(ParseError::ExpectedExpression),
                Some(st) => if j == i {
                    Parsed::Fail(ParseError::ExpectedExpression)
                } else if i < j <= ts.len() {
                    match parse_block_s(ts, j) {
                        Parsed::Done(rest, k) => Parsed::Done(seq![st] + rest, k),
                        Parsed::Fail(e) => Parsed::Fail(e),
                    }
                } else {
                    Parsed::Fail(ParseError::ExpectedExpression)
                },
            },
        }
    }
}

/// One statement, dispatched on the leading keyword; anything else is an
/// expression statement.
#[verifier::opaque]
pub open spec fn parse_statement_s(ts: Seq<TokenS>, i: int) -> Parsed<Option<StmtS>>
    decreases ts.len() - i, 38int
        when 0 <= i
{
    if !at_end_s(ts, i) && ts[i].kind is KwLet {
        parse_var_decl_s(ts, i + 1, false)
    } else if !at_end_s(ts, i) && ts[i].kind is KwConst {
        parse_var_decl_s(ts, i + 1, true)
    } else if !at_end_s(ts, i) && ts[i].kind is KwVar {
        parse_var_decl_s(ts, i + 1, false)
    } else if !at_end_s(ts, i) && ts[i].kind is KwFunc {
        parse_func_decl_s(ts, i + 1)
    } else if !at_end_s(ts, i) && ts[i].kind is KwIf {
        parse_if_s(ts, i + 1)
    } else if !at_end_s(ts, i) && ts[i].kind is KwLoop {
        parse_loop_s(ts, i + 1)
    } else if !at_end_s(ts, i) && ts[i].kind is KwWhile {
        parse_while_s(ts, i + 1)
    } else if !at_end_s(ts, i) && ts[i].kind is KwFor {
        parse_for_s(ts, i + 1)
    } else if !at_end_s(ts, i) && ts[i].kind is KwReturn {
        parse_return_s(ts, i + 1)
    } else if !at_end_s(ts, i) && ts[i].kind is KwBreak {
        Parsed::Done(Some(StmtS::Break), i + 1)
    } else if !at_end_s(ts, i) && ts[i].kind is KwContinue {
        Parsed::Done(Some(StmtS::Continue), i + 1)
    } else {
        match parse_expression_s(ts, i) {
            Parsed::Done(opt, j) => match opt {
                Some(e) => Parsed::Done(Some(StmtS::ExprStmt(e)), j),
                None => Parsed::Done(None, j),
            },
            Parsed::Fail(e) => Parsed::Fail(e),
        }
    }
}

/// A variable declaration after its introducing keyword.
#[verifier::opaque]
pub open spec fn parse_var_decl_s(ts: Seq<TokenS>, i: int, is_const: bool) -> Parsed<
    Option<StmtS>,
>
    decreases ts.len() - i, 36int
        when 0 <= i
{
    if at_end_s(ts, i) {
        Parsed::Fail(ParseError::ExpectedVariableName)
    } else {
        match ts[i].kind {
            TokS::Ident(name) => if !at_end_s(ts, i + 1) && ts[i + 1].kind is Assign {
                match parse_expression_s(ts, i + 2) {
                    Parsed::Done(init, j) => Parsed::Done(
                        Some(StmtS::VarDecl { name, init, is_const }),
                        j,
                    ),
                    Parsed::Fail(e) => Parsed::Fail(e),
                }
            } else {
                Parsed::Done(Some(StmtS::VarDecl { name, init: None, is_const }), i + 1)
            },
            _ => Parsed::Fail(ParseError::ExpectedVariableName),
        }
    }
}

/// A comma-separated, nonempty parameter list.
#[verifier::opaque]
pub open spec fn parse_params_s(ts: Seq<TokenS>, i: int) -> Parsed<Seq<Seq<char>>>
    decreases ts.len() - i, 35int
        when 0 <= i
{
    if at_end_s(ts, i) {
        Parsed::Fail(ParseError::ExpectedParameterName)
    } else {
        match ts[i].kind {
            TokS::Ident(p) => if !at_end_s(ts, i + 1) && ts[i + 1].kind is Comma {
                match parse_params_s(ts, i + 2) {
                    Parsed::Done(rest, j) => Parsed::Done(seq![p] + rest, j),
                    Parsed::Fail(e) => Parsed::Fail(e),
                }
            } else {
                Parsed::Done(seq![p], i + 1)
            },
            _ => Parsed::Fail(ParseError::ExpectedParameterName),
        }
    }
}

/// A function declaration after the function keyword.
#[verifier::opaque]
pub open spec fn parse_func_decl_s(ts: Seq<TokenS>, i: int) -> Parsed<Option<StmtS>>
    decreases ts.len() - i, 36int
        when 0 <= i
{
    if at_end_s(ts, i) {
        Parsed::Fail(ParseError::ExpectedFunctionName)
    } else {
        match ts[i].kind {
            TokS::Ident(name) => if !(!at_end_s(ts, i + 1) && ts[i + 1].kind is LParen) {
                Parsed::Fail(ParseError::ExpectedLeftParen)
            } else {
                let pr = if !at_end_s(ts, i + 2) && ts[i + 2].kind is RParen {
                    Parsed::Done(Seq::<Seq<char>>::empty(), i + 2)
                } else {
                    parse_params_s(ts, i + 2)
                };
                match pr {
                    Parsed::Fail(e) => Parsed::Fail(e),
                    Parsed::Done(params, j) => if !(!at_end_s(ts, j) && ts[j].kind is RParen) {
                        Parsed::Fail(ParseError::ExpectedRightParen)
                    } else if !(!at_end_s(ts, j + 1) && ts[j + 1].kind is LBrace) {
                        Parsed::Fail(ParseError::ExpectedLeftBrace)
                    } else if i < j + 2 <= ts.len() {
                        match parse_block_s(ts, j + 2) {
                            Parsed::Done(body, k) => Parsed::Done(
                                Some(StmtS::FuncDecl { name, params, body }),
                                k,
                            ),
                            Parsed::Fail(e) => Parsed::Fail(e),
                        }
                    } else {
                        Parsed::Fail(ParseError::ExpectedLeftBrace)
                    },
                }
            },
            _ => Parsed::Fail(ParseError::ExpectedFunctionName),
        }
    }
}

/// An if statement after the if keyword; an else-if chain nests a fresh if
/// statement, kept whole, as the sole statement of the else branch.
#[verifier::opaque]
pub open spec fn parse_if_s(ts: Seq<TokenS>, i: int) -> Parsed<Option<StmtS>>
    decreases ts.len() - i, 36int
        when 0 <= i
{
    match parse_expression_s(ts, i) {
        Parsed::Fail(e) => Parsed::Fail(e),
        Parsed::Done(None, _) => Parsed::Fail(ParseError::ExpectedExpression),
        Parsed::Done(Some(condition), j) => if !(!at_end_s(ts, j) && ts[j].kind is LBrace) {
            Parsed::Fail(ParseError::ExpectedLeftBrace)
        } else if i < j + 1 <= ts.len() {
            match parse_block_s(ts, j + 1) {
                Parsed::Fail(e) => Parsed::Fail(e),
                Parsed::Done(then_branch, k) => if !at_end_s(ts, k) && ts[k].kind is KwElse {
                    if !at_end_s(ts, k + 1) && ts[k + 1].kind is KwIf {
                        if i < k + 2 <= ts.len() {
                            match parse_if_s(ts, k + 2) {
                                Parsed::Fail(e) => Parsed::Fail(e),
                                Parsed::Done(None, _) => Parsed::Fail(
                                    ParseError::ExpectedExpression,
                                ),
                                Parsed::Done(Some(nested), m) => Parsed::Done(
                                    Some(
                                        StmtS::If {
                                            condition,
                                            then_branch,
                                            else_branch: seq![nested],
                                        },
                                    ),
                                    m,
                                ),
                            }
                        } else {
                            Parsed::Fail(ParseError::ExpectedExpression)
                        }
                    } else if !(!at_end_s(ts, k + 1) && ts[k + 1].kind is LBrace) {
                        Parsed::Fail(ParseError::ExpectedLeftBrace)
                    } else if i < k + 2 <= ts.len() {
                        match parse_block_s(ts, k + 2) {
                            Parsed::Fail(e) => Parsed::Fail(e),
                            Parsed::Done(else_branch, m) => Parsed::Done(
                                Some(StmtS::If { condition, then_branch, else_branch }),
                                m,
                            ),
                        }
                    } else {
                        Parsed::Fail(ParseError::ExpectedLeftBrace)
                    }
                } else {
                    Parsed::Done(
                        Some(
                            StmtS::If {
                                condition,
                                then_branch,
                                else_branch: Seq::empty(),
                            },
                        ),
                        k,
                    )
                },
            }
        } else {
            Parsed::Fail(ParseError::ExpectedLeftBrace)
        },
    }
}

/// A loop statement after the loop keyword: an optional condition, then a
/// braced body.
#[verifier::opaque]
pub open spec fn parse_loop_s(ts: Seq<TokenS>, i: int) -> Parsed<Option<StmtS>>
    decreases ts.len() - i, 36int
        when 0 <= i
{
    let cr = if !at_end_s(ts, i) && ts[i].kind is LBrace {
        Parsed::Done(None, i)
    } else {
        match parse_expression_s(ts, i) {
            Parsed::Fail(e) => Parsed::Fail(e),
            Parsed::Done(None, _) => Parsed::Fail(ParseError::ExpectedExpression),
            Parsed::Done(Some(c), j) => Parsed::Done(Some(c), j),
        }
    };
    match cr {
        Parsed::Fail(e) => Parsed::Fail(e),
        Parsed::Done(condition, j) => if !(!at_end_s(ts, j) && ts[j].kind is LBrace) {
            Parsed::Fail(ParseError::ExpectedLeftBrace)
        } else if i < j + 1 <= ts.len() {
            match parse_block_s(ts, j + 1) {
                Parsed::Done(body, k) => Parsed::Done(
                    Some(StmtS::Loop { condition, body }),
                    k,
                ),
                Parsed::Fail(e) => Parsed::Fail(e),
            }
        } else {
            Parsed::Fail(ParseError::ExpectedLeftBrace)
        },
    }
}

/// A while statement after the while keyword.
#[verifier::opaque]
pub open spec fn parse_while_s(ts: Seq<TokenS>, i: int) -> Parsed<Option<StmtS>>
    decreases ts.len() - i, 36int
        when 0 <= i
{
    match parse_expression_s(ts, i) {
        Parsed::Fail(e) => Parsed::Fail(e),
        Parsed::Done(None, _) => Parsed::Fail(ParseError::ExpectedExpression),
        Parsed::Done(Some(condition), j) => if !(!at_end_s(ts, j) && ts[j].kind is LBrace) {
            Parsed::Fail(ParseError::ExpectedLeftBrace)
        } else if i < j + 1 <= ts.len() {
            match parse_block_s(ts, j + 1) {
                Parsed::Done(body, k) => Parsed::Done(
                    Some(StmtS::While { condition, body }),
                    k,
                ),
                Parsed::Fail(e) => Parsed::Fail(e),
            }
        } else {
            Parsed::Fail(ParseError::ExpectedLeftBrace)
        },
    }
}

/// A for-each statement after the for keyword.
#[verifier::opaque]
pub open spec fn parse_for_s(ts: Seq<TokenS>, i: int) -> Parsed<Option<StmtS>>
    decreases ts.len() - i, 36int
        when 0 <= i
{
    if at_end_s(ts, i) {
        Parsed::Fail(ParseError::ExpectedVariableName)
    } else {
        match ts[i].kind {
            TokS::Ident(variable) => if !(!at_end_s(ts, i + 1) && ts[i + 1].kind is KwIn) {
                Parsed::Fail(ParseError::ExpectedInKeyword)
            } else {
                match parse_expression_s(ts, i + 2) {
                    Parsed::Fail(e) => Parsed::Fail(e),
                    Parsed::Done(None, _) => Parsed::Fail(ParseError::ExpectedExpression),
                    Parsed::Done(Some(iterable), j) => if !(!at_end_s(ts, j) && ts[j].kind
                        is LBrace) {
                        Parsed::Fail(ParseError::ExpectedLeftBrace)
                    } else if i < j + 1 <= ts.len() {
                        match parse_block_s(ts, j + 1) {
                            Parsed::Done(body, k) => Parsed::Done(
                                Some(StmtS::ForEach { variable, iterable, body }),
                                k,
                            ),
                            Parsed::Fail(e) => Parsed::Fail(e),
                        }
                    } else {
                        Parsed::Fail(ParseError::ExpectedLeftBrace)
                    },
                }
            },
            _ => Parsed::Fail(ParseError::ExpectedVariableName),
        }
    }
}

/// A return statement after the return keyword: no value before a semicolon
/// or a closing brace.
#[verifier::opaque]
pub open spec fn parse_return_s(ts: Seq<TokenS>, i: int) -> Parsed<Option<StmtS>>
    decreases ts.len() - i, 36int
        when 0 <= i
{
    if !at_end_s(ts, i) && (ts[i].kind is Semicolon || ts[i].kind is RBrace) {
        Parsed::Done(Some(StmtS::Return(None)), i)
    } else {
        match parse_expression_s(ts, i) {
            Parsed::Done(value, j) => Parsed::Done(Some(StmtS::Return(value)), j),
            Parsed::Fail(e) => Parsed::Fail(e),
        }
    }
}

/// An expression: assignment is the lowest precedence level.
#[verifier::opaque]
pub open spec fn parse_expression_s(ts: Seq<TokenS>, i: int) -> Parsed<Option<ExprS>>
    decreases ts.len() - i, 20int
        when 0 <= i
{
    parse_assignment_s(ts, i)
}

/// A right-associative assignment whose target must be a bare variable.
#[verifier::opaque]
pub open spec fn parse_assignment_s(ts: Seq<TokenS>, i: int) -> Parsed<Option<ExprS>>
    decreases ts.len() - i, 19int
        when 0 <= i
{
    match parse_logical_s(ts, i) {
        Parsed::Fail(e) => Parsed::Fail(e),
        Parsed::Done(expr, j) => if !at_end_s(ts, j) && ts[j].kind is Assign {
            if i <= j < ts.len() {
                match parse_assignment_s(ts, j + 1) {
                    Parsed::Fail(e) => Parsed::Fail(e),
                    Parsed::Done(None, _) => Parsed::Fail(ParseError::ExpectedExpression),
                    Parsed::Done(Some(v), k) => match expr {
                        Some(ExprS::Variable(name)) => Parsed::Done(
                            Some(ExprS::Assign { target: name, value: Box::new(v) }),
                            k,
                        ),
                        _ => Parsed::Fail(ParseError::InvalidAssignmentTarget),
                    },
                }
            } else {
                Parsed::Fail(ParseError::ExpectedExpression)
            }
        } else {
            Parsed::Done(expr, j)
        },
    }
}

/// A left-associative operator chain continuing an already-parsed operand.
#[verifier::opaque]
pub open spec fn chain_logical_s(ts: Seq<TokenS>, i: int, acc: Option<ExprS>) -> Parsed<
    Option<ExprS>,
>
    decreases ts.len() - i, 17int
        when 0 <= i
{
    if !at_end_s(ts, i) && (ts[i].kind is KwAnd || ts[i].kind is KwOr) {
        let op = if ts[i].kind is KwAnd {
            BinOp::And
        } else {
            BinOp::Or
        };
        match parse_equality_s(ts, i + 1) {
            Parsed::Fail(e) => Parsed::Fail(e),
            Parsed::Done(None, _) => Parsed::Fail(ParseError::ExpectedExpression),
            Parsed::Done(Some(r), j) => match acc {
                None => Parsed::Fail(ParseError::ExpectedExpression),
                Some(l) => if i < j <= ts.len() {
                    chain_logical_s(
                        ts,
                        j,
                        Some(ExprS::Binary { left: Box::new(l), op, right: Box::new(r) }),
                    )
                } else {
                    Parsed::Fail(ParseError::ExpectedExpression)
                },
            },
        }
    } else {
        Parsed::Done(acc, i)
    }
}

/// A chain of logical operators over equality operands.
#[verifier::opaque]
pub open spec fn parse_logical_s(ts: Seq<TokenS>, i: int) -> Parsed<Option<ExprS>>
    decreases ts.len() - i, 18int
        when 0 <= i
{
    match parse_equality_s(ts, i) {
        Parsed::Fail(e) => Parsed::Fail(e),
        Parsed::Done(expr, j) => if i <= j <= ts.len() {
            chain_logical_s(ts, j, expr)
        } else {
            Parsed::Fail(ParseError::ExpectedExpression)
        },
    }
}

/// A left-associative equality chain continuing an operand.
#[verifier::opaque]
pub open spec fn chain_equality_s(ts: Seq<TokenS>, i: int, acc: Option<ExprS>) -> Parsed<
    Option<ExprS>,
>
    decreases ts.len() - i, 15int
        when 0 <= i
{
    if !at_end_s(ts, i) && (ts[i].kind is Eq || ts[i].kind is Ne) {
        let op = if ts[i].kind is Eq {
            BinOp::Eq
        } else {
            BinOp::Ne
        };
        match parse_comparison_s(ts, i + 1) {
            Parsed::Fail(e) => Parsed::Fail(e),
            Parsed::Done(None, _) => Parsed::Fail(ParseError::ExpectedExpression),
            Parsed::Done(Some(r), j) => match acc {
                None => Parsed::Fail(ParseError::ExpectedExpression),
                Some(l) => if i < j <= ts.len() {
                    chain_equality_s(
                        ts,
                        j,
                        Some(ExprS::Binary { left: Box::new(l), op, right: Box::new(r) }),
                    )
                } else {
                    Parsed::Fail(ParseError::ExpectedExpression)
                },
            },
        }
    } else {
        Parsed::Done(acc, i)
    }
}

/// A chain of equality operators over relational operands.
#[verifier::opaque]
pub open spec fn parse_equality_s(ts: Seq<TokenS>, i: int) -> Parsed<Option<ExprS>>
    decreases ts.len() - i, 16int
        when 0 <= i
{
    match parse_comparison_s(ts, i) {
        Parsed::Fail(e) => Parsed::Fail(e),
        Parsed::Done(expr, j) => if i <= j <= ts.len() {
            chain_equality_s(ts, j, expr)
        } else {
            Parsed::Fail(ParseError::ExpectedExpression)
        },
    }
}

/// A left-associative relational chain continuing an operand.
#[verifier::opaque]
pub open spec fn chain_comparison_s(ts: Seq<TokenS>, i: int, acc: Option<ExprS>) -> Parsed<
    Option<ExprS>,
>
    decreases ts.len() - i, 13int
        when 0 <= i
{
    if !at_end_s(ts, i) && (ts[i].kind is Gt || ts[i].kind is Ge || ts[i].kind is Lt || ts[i].kind
        is Le) {
        let op = if ts[i].kind is Gt {
            BinOp::Gt
        } else if ts[i].kind is Ge {
            BinOp::Ge
        } else if ts[i].kind is Lt {
            BinOp::Lt
        } else {
            BinOp::Le
        };
        match parse_term_s(ts, i + 1) {
            Parsed::Fail(e) => Parsed::Fail(e),
            Parsed::Done(None, _) => Parsed::Fail(ParseError::ExpectedExpression),
            Parsed::Done(Some(r), j) => match acc {
                None => Parsed::Fail(ParseError::ExpectedExpression),
                Some(l) => if i < j <= ts.len() {
                    chain_comparison_s(
                        ts,
                        j,
                        Some(ExprS::Binary { left: Box::new(l), op, right: Box::new(r) }),
                    )
                } else {
                    Parsed::Fail(ParseError::ExpectedExpression)
                },
            },
        }
    } else {
        Parsed::Done(acc, i)
    }
}

/// A chain of relational operators over additive operands.
#[verifier::opaque]
pub open spec fn parse_comparison_s(ts: Seq<TokenS>, i: int) -> Parsed<Option<ExprS>>
    decreases ts.len() - i, 14int
        when 0 <= i
{
    match parse_term_s(ts, i) {
        Parsed::Fail(e) => Parsed::Fail(e),
        Parsed::Done(expr, j) => if i <= j <= ts.len() {
            chain_comparison_s(ts, j, expr)
        } else {
            Parsed::Fail(ParseError::ExpectedExpression)
        },
    }
}

/// A left-associative additive chain continuing an operand.
#[verifier::opaque]
pub open spec fn chain_term_s(ts: Seq<TokenS>, i: int, acc: Option<ExprS>) -> Parsed<
    Option<ExprS>,
>
    decreases ts.len() - i, 11int
        when 0 <= i
{
    if !at_end_s(ts, i) && (ts[i].kind is Plus || ts[i].kind is Minus) {
        let op = if ts[i].kind is Plus {
            BinOp::Add
        } else {
            BinOp::Sub
        };
        match parse_factor_s(ts, i + 1) {
            Parsed::Fail(e) => Parsed::Fail(e),
            Parsed::Done(None, _) => Parsed::Fail(ParseError::ExpectedExpression),
            Parsed::Done(Some(r), j) => match acc {
                None => Parsed::Fail(ParseError::ExpectedExpression),
                Some(l) => if i < j <= ts.len() {
                    chain_term_s(
                        ts,
                        j,
                        Some(ExprS::Binary { left: Box::new(l), op, right: Box::new(r) }),
                    )
                } else {
                    Parsed::Fail(ParseError::ExpectedExpression)
                },
            },
        }
    } else {
        Parsed::Done(acc, i)
    }
}

/// A chain of additive operators over multiplicative operands.
#[verifier::opaque]
pub open spec fn parse_term_s(ts: Seq<TokenS>, i: int) -> Parsed<Option<ExprS>>
    decreases ts.len() - i, 12int
        when 0 <= i
{
    match parse_factor_s(ts, i) {
        Parsed::Fail(e) => Parsed::Fail(e),
        Parsed::Done(expr, j) => if i <= j <= ts.len() {
            chain_term_s(ts, j, expr)
        } else {
            Parsed::Fail(ParseError::ExpectedExpression)
        },
    }
}

/// A left-associative multiplicative chain continuing an operand.
#[verifier::opaque]
pub open spec fn chain_factor_s(ts: Seq<TokenS>, i: int, acc: Option<ExprS>) -> Parsed<
    Option<ExprS>,
>
    decreases ts.len() - i, 9int
        when 0 <= i
{
    if !at_end_s(ts, i) && (ts[i].kind is Star || ts[i].kind is Slash) {
        let op = if ts[i].kind is Star {
            BinOp::Mul
        } else {
            BinOp::Div
        };
        match parse_unary_s(ts, i + 1) {
            Parsed::Fail(e) => Parsed::Fail(e),
            Parsed::Done(None, _) => Parsed::Fail(ParseError::ExpectedExpression),
            Parsed::Done(Some(r), j) => match acc {
                None => Parsed::Fail(ParseError::ExpectedExpression),
                Some(l) => if i < j <= ts.len() {
                    chain_factor_s(
                        ts,
                        j,
                        Some(ExprS::Binary { left: Box::new(l), op, right: Box::new(r) }),
                    )
                } else {
                    Parsed::Fail(ParseError::ExpectedExpression)
                },
            },
        }
    } else {
        Parsed::Done(acc, i)
    }
}

/// A chain of multiplicative operators over unary operands.
#[verifier::opaque]
pub open spec fn parse_factor_s(ts: Seq<TokenS>, i: int) -> Parsed<Option<ExprS>>
    decreases ts.len() - i, 10int
        when 0 <= i
{
    match parse_unary_s(ts, i) {
        Parsed::Fail(e) => Parsed::Fail(e),
        Parsed::Done(expr, j) => if i <= j <= ts.len() {
            chain_factor_s(ts, j, expr)
        } else {
            Parsed::Fail(ParseError::ExpectedExpression)
        },
    }
}

/// A unary expression: prefix minus becomes subtraction from a literal
/// zero, the not-keyword a true unary node, then postfix parsing follows.
#[verifier::opaque]
pub open spec fn parse_unary_s(ts: Seq<TokenS>, i: int) -> Parsed<Option<ExprS>>
    decreases ts.len() - i, 8int
        when 0 <= i
{
    if !at_end_s(ts, i) && ts[i].kind is Minus {
        match parse_unary_s(ts, i + 1) {
            Parsed::Fail(e) => Parsed::Fail(e),
            Parsed::Done(None, _) => Parsed::Fail(ParseError::ExpectedExpression),
            Parsed::Done(Some(r), j) => Parsed::Done(
                Some(
                    ExprS::Binary {
                        left: Box::new(ExprS::Number(0)),
                        op: BinOp::Sub,
                        right: Box::new(r),
                    },
                ),
                j,
            ),
        }
    } else if !at_end_s(ts, i) && ts[i].kind is KwNot {
        match parse_unary_s(ts, i + 1) {
            Parsed::Fail(e) => Parsed::Fail(e),
            Parsed::Done(None, _) => Parsed::Fail(ParseError::ExpectedExpression),
            Parsed::Done(Some(r), j) => Parsed::Done(
                Some(ExprS::Unary { op: UnOp::Not, operand: Box::new(r) }),
                j,
            ),
        }
    } else {
        match parse_primary_s(ts, i) {
            Parsed::Fail(e) => Parsed::Fail(e),
            Parsed::Done(None, j) => Parsed::Done(None, j),
            Parsed::Done(Some(e), j) => if i <= j <= ts.len() {
                match parse_postfix_s(ts, j, e) {
                    Parsed::Done(out, k) => Parsed::Done(Some(out), k),
                    Parsed::Fail(er) => Parsed::Fail(er),
                }
            } else {
                Parsed::Fail(ParseError::ExpectedExpression)
            },
        }
    }
}

/// The postfix method sugar folding onto an already-parsed receiver.
#[verifier::opaque]
pub open spec fn parse_postfix_s(ts: Seq<TokenS>, i: int, acc: ExprS) -> Parsed<ExprS>
    decreases ts.len() - i, 7int
        when 0 <= i
{
    if !at_end_s(ts, i) && ts[i].kind is Dot {
        if at_end_s(ts, i + 1) {
            Parsed::Fail(ParseError::ExpectedMethodName)
        } else {
            match ts[i + 1].kind {
                TokS::Ident(m) => if m == seq!['\u{957f}', '\u{5ea6}'] {
                    if !(!at_end_s(ts, i + 2) && ts[i + 2].kind is LParen) {
                        Parsed::Fail(ParseError::ExpectedLeftParen)
                    } else if !(!at_end_s(ts, i + 3) && ts[i + 3].kind is RParen) {
                        Parsed::Fail(ParseError::ExpectedRightParen)
                    } else {
                        parse_postfix_s(ts, i + 4, ExprS::Length(Box::new(acc)))
                    }
                } else if m == seq!['\u{6dfb}', '\u{52a0}'] {
                    if !(!at_end_s(ts, i + 2) && ts[i + 2].kind is LParen) {
                        Parsed::Fail(ParseError::ExpectedLeftParen)
                    } else {
                        match parse_expression_s(ts, i + 3) {
                            Parsed::Fail(e) => Parsed::Fail(e),
                            Parsed::Done(None, _) => Parsed::Fail(
                                ParseError::ExpectedElementExpression,
                            ),
                            Parsed::Done(Some(el), j) => if !(!at_end_s(ts, j) && ts[j].kind
                                is RParen) {
                                Parsed::Fail(ParseError::ExpectedRightParen)
                            } else if i < j + 1 <= ts.len() {
                                parse_postfix_s(
                                    ts,
                                    j + 1,
                                    ExprS::Append {
                                        array: Box::new(acc),
                                        element: Box::new(el),
                                    },
                                )
                            } else {
                                Parsed::Fail(ParseError::ExpectedRightParen)
                            },
                        }
                    }
                } else if m == seq!['\u{5220}', '\u{9664}'] {
                    if !(!at_end_s(ts, i + 2) && ts[i + 2].kind is LParen) {
                        Parsed::Fail(ParseError::ExpectedLeftParen)
                    } else {
                        match parse_expression_s(ts, i + 3) {
                            Parsed::Fail(e) => Parsed::Fail(e),
                            Parsed::Done(None, _) => Parsed::Fail(
                                ParseError::ExpectedIndexExpression,
                            ),
                            Parsed::Done(Some(ix), j) => if !(!at_end_s(ts, j) && ts[j].kind
                                is RParen) {
                                Parsed::Fail(ParseError::ExpectedRightParen)
                            } else if i < j + 1 <= ts.len() {
                                parse_postfix_s(
                                    ts,
                                    j + 1,
                                    ExprS::RemoveAt {
                                        array: Box::new(acc),
                                        index: Box::new(ix),
                                    },
                                )
                            } else {
                                Parsed::Fail(ParseError::ExpectedRightParen)
                            },
                        }
                    }
                } else {
                    Parsed::Fail(ParseError::UnknownMethod)
                },
                _ => Parsed::Fail(ParseError::ExpectedMethodName),
            }
        }
    } else {
        Parsed::Done(acc, i)
    }
}

/// A call's argument list and closing parenthesis, the opening one already
/// consumed.
#[verifier::opaque]
pub open spec fn parse_call_tail_s(ts: Seq<TokenS>, k: int, callee: Seq<char>) -> Parsed<
    Option<ExprS>,
>
    decreases ts.len() - k, 22int
        when 0 <= k
{
    if !at_end_s(ts, k) && ts[k].kind is RParen {
        Parsed::Done(Some(ExprS::Call { callee, args: Seq::empty() }), k + 1)
    } else {
        match parse_args_s(ts, k, ParseError::ExpectedExpression) {
            Parsed::Fail(e) => Parsed::Fail(e),
            Parsed::Done(args, j) => if !at_end_s(ts, j) && ts[j].kind is RParen {
                Parsed::Done(Some(ExprS::Call { callee, args }), j + 1)
            } else {
                Parsed::Fail(ParseError::ExpectedRightParen)
            },
        }
    }
}

/// An array literal's elements and closing bracket, the opening one already
/// consumed.
#[verifier::opaque]
pub open spec fn parse_array_tail_s(ts: Seq<TokenS>, k: int) -> Parsed<Option<ExprS>>
    decreases ts.len() - k, 22int
        when 0 <= k
{
    if !at_end_s(ts, k) && ts[k].kind is RBracket {
        Parsed::Done(Some(ExprS::ArrayLiteral(Seq::empty())), k + 1)
    } else {
        match parse_args_s(ts, k, ParseError::ExpectedElementExpression) {
            Parsed::Fail(e) => Parsed::Fail(e),
            Parsed::Done(elements, j) => if !at_end_s(ts, j) && ts[j].kind is RBracket {
                Parsed::Done(Some(ExprS::ArrayLiteral(elements)), j + 1)
            } else {
                Parsed::Fail(ParseError::ExpectedRightBracket)
            },
        }
    }
}

/// One or more comma-separated expressions.
#[verifier::opaque]
pub open spec fn parse_args_s(ts: Seq<TokenS>, i: int, missing: ParseError) -> Parsed<
    Seq<ExprS>,
>
    decreases ts.len() - i, 21int
        when 0 <= i
{
    match parse_expression_s(ts, i) {
        Parsed::Fail(e) => Parsed::Fail(e),
        Parsed::Done(None, _) => Parsed::Fail(missing),
        Parsed::Done(Some(e), j) => if !at_end_s(ts, j) && ts[j].kind is Comma {
            if i <= j < ts.len() {
                match parse_args_s(ts, j + 1, missing) {
                    Parsed::Done(rest, k) => Parsed::Done(seq![e] + rest, k),
                    Parsed::Fail(er) => Parsed::Fail(er),
                }
            } else {
                Parsed::Fail(missing)
            }
        } else {
            Parsed::Done(seq![e], j)
        },
    }
}

/// A primary expression: a literal, an array literal, a variable possibly
/// indexed or called, or a parenthesized expression.
pub open spec fn parse_primary_s(ts: Seq<TokenS>, i: int) -> Parsed<Option<ExprS>>
    decreases ts.len() - i, 6int
        when 0 <= i
{
    if at_end_s(ts, i) {
        Parsed::Done(None, i)
    } else {
        match ts[i].kind {
            TokS::Num(n) => Parsed::Done(Some(ExprS::Number(n)), i + 1),
            TokS::Str(v) => Parsed::Done(Some(ExprS::Str(v)), i + 1),
            TokS::Bool(b) => Parsed::Done(Some(ExprS::BoolLit(b)), i + 1),
            TokS::LBracket => parse_array_tail_s(ts, i + 1),
            TokS::Ident(name) => if !at_end_s(ts, i + 1) && ts[i + 1].kind is LParen {
                parse_call_tail_s(ts, i + 2, name)
            } else if !at_end_s(ts, i + 1) && ts[i + 1].kind is LBracket {
                match parse_expression_s(ts, i + 2) {
                    Parsed::Fail(e) => Parsed::Fail(e),
                    Parsed::Done(None, _) => Parsed::Fail(ParseError::ExpectedIndexExpression),
                    Parsed::Done(Some(ix), j) => if !at_end_s(ts, j) && ts[j].kind is RBracket {
                        Parsed::Done(
                            Some(
                                ExprS::Index {
                                    array: Box::new(ExprS::Variable(name)),
                                    index: Box::new(ix),
                                },
                            ),
                            j + 1,
                        )
                    } else {
                        Parsed::Fail(ParseError::ExpectedRightBracket)
                    },
                }
            } else {
                Parsed::Done(Some(ExprS::Variable(name)), i + 1)
            },
            TokS::LParen => match parse_expression_s(ts, i + 1) {
                Parsed::Fail(e) => Parsed::Fail(e),
                Parsed::Done(e, j) => if !at_end_s(ts, j) && ts[j].kind is RParen {
                    Parsed::Done(e, j + 1)
                } else {
                    Parsed::Fail(ParseError::ExpectedRightParen)
                },
            },
            _ => Parsed::Done(None, i),
        }
    }
}

/// The parser's cursor over the token sequence.
#[derive(Debug)]
pub struct Parser {
    tokens: Vec<Token>,
    current: usize,
}

impl Parser {
    /// The cursor's invariant: there is at least the end-of-input token,
    /// and the cursor points at a token.
    pub closed spec fn wf(self) -> bool {
        1 <= self.tokens@.len() && self.current < self.tokens@.len()
    }

    /// How many tokens are left; every parsing step consumes at least one
    /// before it recurses into the same precedence level.
    pub closed spec fn remaining(self) -> int {
        self.tokens@.len() - self.current
    }

    /// The models of the tokens under the cursor.
    pub closed spec fn tokens_view(self) -> Seq<TokenS> {
        deep_tokens(self.tokens@)
    }

    /// The cursor's position.
    pub closed spec fn cursor(self) -> int {
        self.current as int
    }

    /// A parser over `tokens`, at the first token. The token sequence ends
    /// with the end-of-input token the lexer appends, so it is never empty.
    pub fn new(tokens: Vec<Token>) -> (r: Parser)
        requires
            tokens@.len() >= 1,
        ensures
            r.wf(),
            r.tokens_view() == deep_tokens(tokens@),
            r.cursor() == 0,
    {
        Parser { tokens, current: 0 }
    }

    /// Whether the cursor has reached the last token.
    fn is_at_end(&self) -> (r: bool)
        requires
            self.wf(),
        ensures
            r == (self.current + 1 >= self.tokens@.len()),
    {
        self.current >= self.tokens.len() - 1
    }

    /// Steps over the token under the cursor, never past the end marker.
    fn advance(&mut self)
        requires
            old(self).wf(),
        ensures
            final(self).wf(),
            final(self).tokens == old(self).tokens,
            old(self).current + 1 < old(self).tokens@.len() ==> final(self).current == old(
                self,
            ).current + 1,
            old(self).current + 1 >= old(self).tokens@.len() ==> final(self).current == old(
                self,
            ).current,
    {
        if self.current < self.tokens.len() - 1 {
            self.current = self.current + 1;
        }
    }

    /// Consumes the cursor's token when it has `kind`'s kind.
    fn eat(&mut self, kind: &TokenType) -> (r: bool)
        requires
            old(self).wf(),
        ensures
            final(self).wf(),
            final(self).tokens == old(self).tokens,
            r == (old(self).current + 1 < old(self).tokens@.len() && kind_id_s(
                old(self).tokens@[old(self).current as int].token_type,
            ) == kind_id_s(*kind)),
            r ==> final(self).current == old(self).current + 1,
            !r ==> final(self).current == old(self).current,
    {
        if self.check(kind) {
            self.advance();
            true
        } else {
            false
        }
    }

    /// Whether the cursor's token has `kind`'s kind and is not the end
    /// marker position.
    fn check(&self, kind: &TokenType) -> (r: bool)
        requires
            self.wf(),
        ensures
            r == (self.current + 1 < self.tokens@.len() && kind_id_s(
                self.tokens@[self.current as int].token_type,
            ) == kind_id_s(*kind)),
    {
        if self.is_at_end() {
            return false;
        }
        kind_eq(&self.tokens[self.current].token_type, kind)
    }

    /// Parses the whole token sequence into a program, per
    /// [`parse_program_s`]: the top-level statements in token order, or the
    /// first grammar violation, named.
    #[verifier::rlimit(100)]
    #[verifier::spinoff_prover]
    #[verifier::loop_isolation(false)]
    pub fn parse(&mut self) -> (r: Result<Program, ParseError>)
        requires
            old(self).wf(),
        ensures
            final(self).wf(),
            (match r {
                Ok(p) => parse_program_s(old(self).tokens_view(), old(self).cursor()) == Ok::<
                    _,
                    ParseError,
                >(deep_stmts(p.statements@)),
                Err(e) => parse_program_s(old(self).tokens_view(), old(self).cursor()) == Err::<
                    Seq<StmtS>,
                    _,
                >(e),
            }),
    {
        proof {
            reveal(parse_program_s);
        }
        let ghost ts = self.tokens_view();
        let ghost c0 = self.cursor();
        let mut program = Program::new();
        loop
            invariant
                self.wf(),
                self.tokens == old(self).tokens,
                (match parse_program_s(ts, self.cursor()) {
                    Ok(rest) => parse_program_s(ts, c0) == Ok::<_, ParseError>(
                        deep_stmts(program.statements@) + rest,
                    ),
                    Err(e) => parse_program_s(ts, c0) == Err::<Seq<StmtS>, _>(e),
                }),
            decreases self.tokens@.len() - self.current,
        {
            if self.is_at_end() {
                proof {
                    assert(deep_stmts(program.statements@) + Seq::<StmtS>::empty() =~= deep_stmts(
                        program.statements@,
                    ));
                }
                return Ok(program);
            }
            let before = self.current;
            let ghost acc0 = deep_stmts(program.statements@);
            match self.parse_statement() {
                Ok(Some(stmt)) => {
                    let ghost ds = stmt.deep();
                    let ghost pre = program.statements@;
                    program.push_statement(stmt);
                    proof {
                        assert(program.statements@.drop_last() =~= pre);
                        lemma_deep_stmts(program.statements@);
                        lemma_deep_stmts(pre);
                        assert(deep_stmts(program.statements@) =~= acc0 + seq![ds]);
                        assert forall|rest2: Seq<StmtS>|
                            true implies (acc0 + seq![ds]) + rest2 =~= acc0 + (seq![ds]
                            + rest2) by {}
                    }
                    if self.current == before {
                        // no progress: the token starts no statement
                        return Err(ParseError::ExpectedExpression);
                    }
                }
                Ok(None) => {
                    return Err(ParseError::ExpectedExpression);
                }
                Err(e) => {
                    return Err(e);
                }
            }
        }
    }

    /// Parses one statement, dispatching on the leading keyword; anything
    /// else is an expression statement. Per [`parse_statement_s`].
    #[verifier::rlimit(100)]
    #[verifier::spinoff_prover]
    fn parse_statement(&mut self) -> (r: Result<Option<Statement>, ParseError>)
        requires
            old(self).wf(),
        ensures
            final(self).wf(),
            final(self).tokens == old(self).tokens,
            old(self).current <= final(self).current,
            (match r {
                Ok(o) => parse_statement_s(old(self).tokens_view(), old(self).cursor())
                    == Parsed::Done(deep_opt_stmt(o), final(self).cursor()),
                Err(e) => parse_statement_s(old(self).tokens_view(), old(self).cursor())
                    == Parsed::<Option<StmtS>>::Fail(e),
            }),
        decreases old(self).remaining(), 20int,
    {
        proof {
            reveal(parse_statement_s);
        }
        let ghost ts = self.tokens_view();
        let ghost i0 = self.cursor();
        proof {
            if i0 < ts.len() {
                assert(ts[i0] == self.tokens@[i0].deep());
            }
        }
        if self.eat(&TokenType::KwLet) {
            return self.parse_variable_declaration(false);
        }
        if self.eat(&TokenType::KwConst) {
            return self.parse_variable_declaration(true);
        }
        if self.eat(&TokenType::KwVar) {
            return self.parse_variable_declaration(false);
        }
        if self.eat(&TokenType::KwFunc) {
            return self.parse_function_declaration();
        }
        if self.eat(&TokenType::KwIf) {
            return self.parse_if_statement();
        }
        if self.eat(&TokenType::KwLoop) {
            return self.parse_loop_statement();
        }
        if self.eat(&TokenType::KwWhile) {
            return self.parse_while_statement();
        }
        if self.eat(&TokenType::KwFor) {
            return self.parse_for_statement();
        }
        if self.eat(&TokenType::KwReturn) {
            return self.parse_return_statement();
        }
        if self.eat(&TokenType::KwBreak) {
            return Ok(Some(Statement::Break));
        }
        if self.eat(&TokenType::KwContinue) {
            return Ok(Some(Statement::Continue));
        }
        match self.parse_expression() {
            Ok(Some(e)) => Ok(Some(Statement::ExprStmt(e))),
            Ok(None) => Ok(None),
            Err(e) => Err(e),
        }
    }

    /// Consumes the cursor's token when it is an identifier, yielding the
    /// name.
    fn expect_identifier(&mut self) -> (r: Option<String>)
        requires
            old(self).wf(),
        ensures
            final(self).wf(),
            final(self).tokens == old(self).tokens,
            match r {
                Some(n) => old(self).current + 1 < old(self).tokens@.len() && (old(
                    self,
                ).tokens@[old(self).current as int].token_type matches TokenType::Ident(m)
                    && m@ == n@) && final(self).current == old(self).current + 1,
                None => final(self).current == old(self).current && !(old(self).current + 1 < old(
                    self,
                ).tokens@.len() && old(self).tokens@[old(self).current as int].token_type
                    is Ident),
            },
    {
        if !self.is_at_end() {
            let name = match &self.tokens[self.current].token_type {
                TokenType::Ident(n) => Some(n.clone()),
                _ => None,
            };
            match name {
                Some(n) => {
                    self.advance();
                    Some(n)
                }
                None => None,
            }
        } else {
            None
        }
    }

    /// Parses a variable declaration after its introducing keyword, per
    /// [`parse_var_decl_s`]: a name, then optionally `=` and an initializer.
    #[verifier::rlimit(100)]
    #[verifier::spinoff_prover]
    fn parse_variable_declaration(&mut self, is_const: bool) -> (r: Result<
        Option<Statement>,
        ParseError,
    >)
        requires
            old(self).wf(),
        ensures
            final(self).wf(),
            final(self).tokens == old(self).tokens,
            old(self).current <= final(self).current,
            (match r {
                Ok(o) => parse_var_decl_s(old(self).tokens_view(), old(self).cursor(), is_const)
                    == Parsed::Done(deep_opt_stmt(o), final(self).cursor()),
                Err(e) => parse_var_decl_s(old(self).tokens_view(), old(self).cursor(), is_const)
                    == Parsed::<Option<StmtS>>::Fail(e),
            }),
        decreases old(self).remaining(), 19int,
    {
        proof {
            reveal(parse_var_decl_s);
        }
        let ghost ts = self.tokens_view();
        let ghost i0 = self.cursor();
        proof {
            if i0 < ts.len() {
                assert(ts[i0] == self.tokens@[i0].deep());
            }
        }
        let name = match self.expect_identifier() {
            Some(n) => n,
            None => {
                return Err(ParseError::ExpectedVariableName);
            }
        };
        proof {
            if i0 + 1 < ts.len() {
                assert(ts[i0 + 1] == self.tokens@[i0 + 1].deep());
            }
        }
        let init = if self.eat(&TokenType::Assign) {
            match self.parse_expression() {
                Ok(v) => v,
                Err(e) => {
                    return Err(e);
                }
            }
        } else {
            None
        };
        Ok(Some(Statement::VarDecl { name, init, is_const }))
    }

    /// Parses a brace-delimited statement list, the opening brace already
    /// consumed, per [`parse_block_s`].
    #[verifier::rlimit(100)]
    #[verifier::spinoff_prover]
    #[verifier::loop_isolation(false)]
    fn parse_block(&mut self) -> (r: Result<Vec<Statement>, ParseError>)
        requires
            old(self).wf(),
        ensures
            final(self).wf(),
            final(self).tokens == old(self).tokens,
            old(self).current <= final(self).current,
            (match r {
                Ok(b) => parse_block_s(old(self).tokens_view(), old(self).cursor())
                    == Parsed::Done(deep_stmts(b@), final(self).cursor()),
                Err(e) => parse_block_s(old(self).tokens_view(), old(self).cursor()) == Parsed::<
                    Seq<StmtS>,
                >::Fail(e),
            }),
        decreases old(self).remaining(), 21int,
    {
        proof {
            reveal(parse_block_s);
        }
        let ghost ts = self.tokens_view();
        let ghost b0 = self.cursor();
        let mut body: Vec<Statement> = Vec::new();
        let mut going = true;
        while going
            invariant
                self.wf(),
                self.tokens == old(self).tokens,
                old(self).current <= self.current,
                going ==> (match parse_block_s(ts, self.cursor()) {
                    Parsed::Done(rest, j) => parse_block_s(ts, b0) == Parsed::Done(
                        deep_stmts(body@) + rest,
                        j,
                    ),
                    Parsed::Fail(e) => parse_block_s(ts, b0) == Parsed::<Seq<StmtS>>::Fail(e),
                }),
                !going ==> (match parse_block_s(ts, self.cursor()) {
                    Parsed::Done(rest, j) => parse_block_s(ts, b0) == Parsed::Done(
                        deep_stmts(body@) + rest,
                        j,
                    ),
                    Parsed::Fail(e) => parse_block_s(ts, b0) == Parsed::<Seq<StmtS>>::Fail(e),
                }) && ((!at_end_s(ts, self.cursor()) && ts[self.cursor()].kind is RBrace)
                    || at_end_s(ts, self.cursor())),
            decreases self.tokens@.len() - self.current, (if going {
                1int
            } else {
                0int
            }),
        {
            proof {
                if self.cursor() < ts.len() {
                    assert(ts[self.cursor()] == self.tokens@[self.current as int].deep());
                }
            }
            if self.check(&TokenType::RBrace) || self.is_at_end() {
                going = false;
                continue ;
            }
            let before = self.current;
            let ghost acc0 = deep_stmts(body@);
            match self.parse_statement() {
                Ok(Some(stmt)) => {
                    let ghost ds = stmt.deep();
                    let ghost pre = body@;
                    body.push(stmt);
                    proof {
                        assert(body@.drop_last() =~= pre);
                        lemma_deep_stmts(body@);
                        lemma_deep_stmts(pre);
                        assert(deep_stmts(body@) =~= acc0 + seq![ds]);
                        assert forall|rest2: Seq<StmtS>|
                            true implies (acc0 + seq![ds]) + rest2 =~= acc0 + (seq![ds]
                            + rest2) by {}
                    }
                    if self.current == before {
                        return Err(ParseError::ExpectedExpression);
                    }
                }
                Ok(None) => {
                    return Err(ParseError::ExpectedExpression);
                }
                Err(e) => {
                    return Err(e);
                }
            }
        }
        proof {
            if self.cursor() < ts.len() {
                assert(ts[self.cursor()] == self.tokens@[self.current as int].deep());
            }
            assert(deep_stmts(body@) + Seq::<StmtS>::empty() =~= deep_stmts(body@));
        }
        if self.eat(&TokenType::RBrace) {
            Ok(body)
        } else {
            Err(ParseError::ExpectedRightBrace)
        }
    }

    /// Parses a function declaration after the function keyword, per
    /// [`parse_func_decl_s`]: a name, a parenthesized parameter list, and a
    /// braced body.
    #[verifier::rlimit(100)]
    #[verifier::spinoff_prover]
    #[verifier::loop_isolation(false)]
    fn parse_function_declaration(&mut self) -> (r: Result<Option<Statement>, ParseError>)
        requires
            old(self).wf(),
        ensures
            final(self).wf(),
            final(self).tokens == old(self).tokens,
            old(self).current <= final(self).current,
            (match r {
                Ok(o) => parse_func_decl_s(old(self).tokens_view(), old(self).cursor())
                    == Parsed::Done(deep_opt_stmt(o), final(self).cursor()),
                Err(e) => parse_func_decl_s(old(self).tokens_view(), old(self).cursor())
                    == Parsed::<Option<StmtS>>::Fail(e),
            }),
        decreases old(self).remaining(), 19int,
    {
        proof {
            reveal(parse_func_decl_s);
            reveal(parse_params_s);
        }
        let ghost ts = self.tokens_view();
        let ghost i0 = self.cursor();
        proof {
            if i0 < ts.len() {
                assert(ts[i0] == self.tokens@[i0].deep());
            }
            if i0 + 1 < ts.len() {
                assert(ts[i0 + 1] == self.tokens@[i0 + 1].deep());
            }
            if i0 + 2 < ts.len() {
                assert(ts[i0 + 2] == self.tokens@[i0 + 2].deep());
            }
        }
        let name = match self.expect_identifier() {
            Some(n) => n,
            None => {
                return Err(ParseError::ExpectedFunctionName);
            }
        };
        if !self.eat(&TokenType::LParen) {
            return Err(ParseError::ExpectedLeftParen);
        }
        let mut parameters: Vec<String> = Vec::new();
        proof {
            assert(deep_names(parameters@) =~= Seq::<Seq<char>>::empty());
        }
        if !self.check(&TokenType::RParen) {
            let ghost q0 = self.cursor();
            let mut going = true;
            while going
                invariant
                    self.wf(),
                    self.tokens == old(self).tokens,
                    old(self).current <= self.current,
                    going ==> (match parse_params_s(ts, self.cursor()) {
                        Parsed::Done(rest, j) => parse_params_s(ts, q0) == Parsed::Done(
                            deep_names(parameters@) + rest,
                            j,
                        ),
                        Parsed::Fail(e) => parse_params_s(ts, q0) == Parsed::<
                            Seq<Seq<char>>,
                        >::Fail(e),
                    }),
                    !going ==> parse_params_s(ts, q0) == Parsed::Done(
                        deep_names(parameters@),
                        self.cursor(),
                    ),
                decreases self.tokens@.len() - self.current, (if going {
                    1int
                } else {
                    0int
                }),
            {
                let ghost acc0 = deep_names(parameters@);
                proof {
                    if self.cursor() < ts.len() {
                        assert(ts[self.cursor()] == self.tokens@[self.current as int].deep());
                    }
                    if self.cursor() + 1 < ts.len() {
                        assert(ts[self.cursor() + 1] == self.tokens@[self.current + 1].deep());
                    }
                }
                let p = match self.expect_identifier() {
                    Some(p) => p,
                    None => {
                        return Err(ParseError::ExpectedParameterName);
                    }
                };
                let ghost dp = p@;
                let ghost pre = parameters@;
                parameters.push(p);
                proof {
                    assert(parameters@.drop_last() =~= pre);
                    assert(deep_names(parameters@) =~= acc0 + seq![dp]);
                }
                if !self.eat(&TokenType::Comma) {
                    going = false;
                } else {
                    proof {
                        assert forall|rest2: Seq<Seq<char>>|
                            true implies (acc0 + seq![dp]) + rest2 =~= acc0 + (seq![dp]
                            + rest2) by {}
                    }
                }
            }
        }
        proof {
            if self.cursor() < ts.len() {
                assert(ts[self.cursor()] == self.tokens@[self.current as int].deep());
            }
            if self.cursor() + 1 < ts.len() {
                assert(ts[self.cursor() + 1] == self.tokens@[self.current + 1].deep());
            }
        }
        if !self.eat(&TokenType::RParen) {
            return Err(ParseError::ExpectedRightParen);
        }
        if !self.eat(&TokenType::LBrace) {
            return Err(ParseError::ExpectedLeftBrace);
        }
        let body = match self.parse_block() {
            Ok(b) => b,
            Err(e) => {
                return Err(e);
            }
        };
        let params_rc = Rc::new(parameters);
        let body_rc = Rc::new(body);
        Ok(Some(Statement::FuncDecl { name, params: params_rc, body: body_rc }))
    }

    /// Parses an if statement after the if keyword, per [`parse_if_s`]: a
    /// condition, a braced then-branch, and optionally an else-branch; an
    /// else-if chain nests a fresh if statement, kept whole, as the sole
    /// statement of the else-branch.
    #[verifier::rlimit(100)]
    #[verifier::spinoff_prover]
    fn parse_if_statement(&mut self) -> (r: Result<Option<Statement>, ParseError>)
        requires
            old(self).wf(),
        ensures
            final(self).wf(),
            final(self).tokens == old(self).tokens,
            old(self).current <= final(self).current,
            (match r {
                Ok(o) => parse_if_s(old(self).tokens_view(), old(self).cursor()) == Parsed::Done(
                    deep_opt_stmt(o),
                    final(self).cursor(),
                ),
                Err(e) => parse_if_s(old(self).tokens_view(), old(self).cursor()) == Parsed::<
                    Option<StmtS>,
                >::Fail(e),
            }),
        decreases old(self).remaining(), 19int,
    {
        proof {
            reveal(parse_if_s);
        }
        let ghost ts = self.tokens_view();
        let ghost i0 = self.cursor();
        let condition = match self.parse_expression() {
            Ok(Some(c)) => c,
            Ok(None) => {
                return Err(ParseError::ExpectedExpression);
            }
            Err(e) => {
                return Err(e);
            }
        };
        proof {
            if self.cursor() < ts.len() {
                assert(ts[self.cursor()] == self.tokens@[self.current as int].deep());
            }
        }
        if !self.eat(&TokenType::LBrace) {
            return Err(ParseError::ExpectedLeftBrace);
        }
        let then_branch = match self.parse_block() {
            Ok(b) => b,
            Err(e) => {
                return Err(e);
            }
        };
        proof {
            if self.cursor() < ts.len() {
                assert(ts[self.cursor()] == self.tokens@[self.current as int].deep());
            }
            if self.cursor() + 1 < ts.len() {
                assert(ts[self.cursor() + 1] == self.tokens@[self.current + 1].deep());
            }
        }
        let mut else_branch: Vec<Statement> = Vec::new();
        if self.eat(&TokenType::KwElse) {
            if self.eat(&TokenType::KwIf) {
                match self.parse_if_statement() {
                    Ok(Some(nested)) => {
                        else_branch.push(nested);
                        proof {
                            lemma_deep_stmts(else_branch@);
                            assert(deep_stmts(else_branch@) =~= seq![else_branch@[0].deep()]);
                        }
                    }
                    Ok(None) => {
                        return Err(ParseError::ExpectedExpression);
                    }
                    Err(e) => {
                        return Err(e);
                    }
                }
            } else {
                if !self.eat(&TokenType::LBrace) {
                    return Err(ParseError::ExpectedLeftBrace);
                }
                match self.parse_block() {
                    Ok(b) => {
                        else_branch = b;
                    }
                    Err(e) => {
                        return Err(e);
                    }
                }
            }
        } else {
            proof {
                assert(deep_stmts(else_branch@) =~= Seq::<StmtS>::empty());
            }
        }
        Ok(Some(Statement::If { condition, then_branch, else_branch }))
    }

    /// Parses a loop statement after the loop keyword, per [`parse_loop_s`]:
    /// an optional condition, then a braced body.
    #[verifier::rlimit(100)]
    #[verifier::spinoff_prover]
    fn parse_loop_statement(&mut self) -> (r: Result<Option<Statement>, ParseError>)
        requires
            old(self).wf(),
        ensures
            final(self).wf(),
            final(self).tokens == old(self).tokens,
            old(self).current <= final(self).current,
            (match r {
                Ok(o) => parse_loop_s(old(self).tokens_view(), old(self).cursor()) == Parsed::Done(
                    deep_opt_stmt(o),
                    final(self).cursor(),
                ),
                Err(e) => parse_loop_s(old(self).tokens_view(), old(self).cursor()) == Parsed::<
                    Option<StmtS>,
                >::Fail(e),
            }),
        decreases old(self).remaining(), 19int,
    {
        proof {
            reveal(parse_loop_s);
        }
        let ghost ts = self.tokens_view();
        let ghost i0 = self.cursor();
        proof {
            if i0 < ts.len() {
                assert(ts[i0] == self.tokens@[i0].deep());
            }
        }
        let condition = if self.check(&TokenType::LBrace) {
            None
        } else {
            match self.parse_expression() {
                Ok(Some(c)) => Some(c),
                Ok(None) => {
                    return Err(ParseError::ExpectedExpression);
                }
                Err(e) => {
                    return Err(e);
                }
            }
        };
        proof {
            if self.cursor() < ts.len() {
                assert(ts[self.cursor()] == self.tokens@[self.current as int].deep());
            }
        }
        if !self.eat(&TokenType::LBrace) {
            return Err(ParseError::ExpectedLeftBrace);
        }
        let body = match self.parse_block() {
            Ok(b) => b,
            Err(e) => {
                return Err(e);
            }
        };
        Ok(Some(Statement::Loop { condition, body }))
    }

    /// Parses a while statement after the while keyword, per
    /// [`parse_while_s`]: a condition, then a braced body.
    #[verifier::rlimit(100)]
    #[verifier::spinoff_prover]
    fn parse_while_statement(&mut self) -> (r: Result<Option<Statement>, ParseError>)
        requires
            old(self).wf(),
        ensures
            final(self).wf(),
            final(self).tokens == old(self).tokens,
            old(self).current <= final(self).current,
            (match r {
                Ok(o) => parse_while_s(old(self).tokens_view(), old(self).cursor())
                    == Parsed::Done(deep_opt_stmt(o), final(self).cursor()),
                Err(e) => parse_while_s(old(self).tokens_view(), old(self).cursor()) == Parsed::<
                    Option<StmtS>,
                >::Fail(e),
            }),
        decreases old(self).remaining(), 19int,
    {
        proof {
            reveal(parse_while_s);
        }
        let ghost ts = self.tokens_view();
        let condition = match self.parse_expression() {
            Ok(Some(c)) => c,
            Ok(None) => {
                return Err(ParseError::ExpectedExpression);
            }
            Err(e) => {
                return Err(e);
            }
        };
        proof {
            if self.cursor() < ts.len() {
                assert(ts[self.cursor()] == self.tokens@[self.current as int].deep());
            }
        }
        if !self.eat(&TokenType::LBrace) {
            return Err(ParseError::ExpectedLeftBrace);
        }
        let body = match self.parse_block() {
            Ok(b) => b,
            Err(e) => {
                return Err(e);
            }
        };
        Ok(Some(Statement::While { condition, body }))
    }

    /// Parses a for-each statement after the for keyword, per
    /// [`parse_for_s`]: a loop variable, the in-keyword, an iterable
    /// expression, and a braced body.
    #[verifier::rlimit(100)]
    #[verifier::spinoff_prover]
    fn parse_for_statement(&mut self) -> (r: Result<Option<Statement>, ParseError>)
        requires
            old(self).wf(),
        ensures
            final(self).wf(),
            final(self).tokens == old(self).tokens,
            old(self).current <= final(self).current,
            (match r {
                Ok(o) => parse_for_s(old(self).tokens_view(), old(self).cursor()) == Parsed::Done(
                    deep_opt_stmt(o),
                    final(self).cursor(),
                ),
                Err(e) => parse_for_s(old(self).tokens_view(), old(self).cursor()) == Parsed::<
                    Option<StmtS>,
                >::Fail(e),
            }),
        decreases old(self).remaining(), 19int,
    {
        proof {
            reveal(parse_for_s);
        }
        let ghost ts = self.tokens_view();
        let ghost i0 = self.cursor();
        proof {
            if i0 < ts.len() {
                assert(ts[i0] == self.tokens@[i0].deep());
            }
            if i0 + 1 < ts.len() {
                assert(ts[i0 + 1] == self.tokens@[i0 + 1].deep());
            }
        }
        let variable = match self.expect_identifier() {
            Some(n) => n,
            None => {
                return Err(ParseError::ExpectedVariableName);
            }
        };
        if !self.eat(&TokenType::KwIn) {
            return Err(ParseError::ExpectedInKeyword);
        }
        let iterable = match self.parse_expression() {
            Ok(Some(e)) => e,
            Ok(None) => {
                return Err(ParseError::ExpectedExpression);
            }
            Err(e) => {
                return Err(e);
            }
        };
        proof {
            if self.cursor() < ts.len() {
                assert(ts[self.cursor()] == self.tokens@[self.current as int].deep());
            }
        }
        if !self.eat(&TokenType::LBrace) {
            return Err(ParseError::ExpectedLeftBrace);
        }
        let body = match self.parse_block() {
            Ok(b) => b,
            Err(e) => {
                return Err(e);
            }
        };
        Ok(Some(Statement::ForEach { variable, iterable, body }))
    }

    /// Parses a return statement after the return keyword, per
    /// [`parse_return_s`]: an optional value, absent before a semicolon or a
    /// closing brace.
    #[verifier::rlimit(100)]
    #[verifier::spinoff_prover]
    fn parse_return_statement(&mut self) -> (r: Result<Option<Statement>, ParseError>)
        requires
            old(self).wf(),
        ensures
            final(self).wf(),
            final(self).tokens == old(self).tokens,
            old(self).current <= final(self).current,
            (match r {
                Ok(o) => parse_return_s(old(self).tokens_view(), old(self).cursor())
                    == Parsed::Done(deep_opt_stmt(o), final(self).cursor()),
                Err(e) => parse_return_s(old(self).tokens_view(), old(self).cursor()) == Parsed::<
                    Option<StmtS>,
                >::Fail(e),
            }),
        decreases old(self).remaining(), 19int,
    {
        proof {
            reveal(parse_return_s);
        }
        let ghost ts = self.tokens_view();
        let ghost i0 = self.cursor();
        proof {
            if i0 < ts.len() {
                assert(ts[i0] == self.tokens@[i0].deep());
            }
        }
        let value = if self.check(&TokenType::Semicolon) || self.check(&TokenType::RBrace) {
            None
        } else {
            match self.parse_expression() {
                Ok(v) => v,
                Err(e) => {
                    return Err(e);
                }
            }
        };
        Ok(Some(Statement::Return(value)))
    }

    /// Parses one expression: assignment is the lowest precedence level.
    /// Per [`parse_expression_s`].
    #[verifier::rlimit(100)]
    #[verifier::spinoff_prover]
    fn parse_expression(&mut self) -> (r: Result<Option<Expression>, ParseError>)
        requires
            old(self).wf(),
        ensures
            final(self).wf(),
            final(self).tokens == old(self).tokens,
            old(self).current <= final(self).current,
            (match r {
                Ok(o) => parse_expression_s(old(self).tokens_view(), old(self).cursor())
                    == Parsed::Done(deep_opt_expr(o), final(self).cursor()),
                Err(e) => parse_expression_s(old(self).tokens_view(), old(self).cursor())
                    == Parsed::<Option<ExprS>>::Fail(e),
            }),
        decreases old(self).remaining(), 10int,
    {
        proof {
            reveal(parse_expression_s);
            reveal(parse_assignment_s);
        }
        self.parse_assignment()
    }

    /// Parses a right-associative assignment whose target must be a bare
    /// variable reference. Per [`parse_assignment_s`].
    #[verifier::rlimit(100)]
    #[verifier::spinoff_prover]
    fn parse_assignment(&mut self) -> (r: Result<Option<Expression>, ParseError>)
        requires
            old(self).wf(),
        ensures
            final(self).wf(),
            final(self).tokens == old(self).tokens,
            old(self).current <= final(self).current,
            (match r {
                Ok(o) => parse_assignment_s(old(self).tokens_view(), old(self).cursor())
                    == Parsed::Done(deep_opt_expr(o), final(self).cursor()),
                Err(e) => parse_assignment_s(old(self).tokens_view(), old(self).cursor())
                    == Parsed::<Option<ExprS>>::Fail(e),
            }),
        decreases old(self).remaining(), 9int,
    {
        proof {
            reveal(parse_assignment_s);
            reveal(parse_expression_s);
        }
        let ghost ts = self.tokens_view();
        let expr = match self.parse_logical() {
            Ok(e) => e,
            Err(e) => {
                return Err(e);
            }
        };
        proof {
            if self.cursor() < ts.len() {
                assert(ts[self.cursor()] == self.tokens@[self.current as int].deep());
            }
        }
        if self.eat(&TokenType::Assign) {
            let value = match self.parse_assignment() {
                Ok(Some(v)) => v,
                Ok(None) => {
                    return Err(ParseError::ExpectedExpression);
                }
                Err(e) => {
                    return Err(e);
                }
            };
            match expr {
                Some(Expression::Variable(name)) => {
                    return Ok(
                        Some(Expression::Assign { target: name, value: Box::new(value) }),
                    );
                }
                _ => {
                    return Err(ParseError::InvalidAssignmentTarget);
                }
            }
        }
        Ok(expr)
    }

    /// Parses a left-associative chain of logical operators, per
    /// [`parse_logical_s`].
    #[verifier::rlimit(100)]
    #[verifier::spinoff_prover]
    #[verifier::loop_isolation(false)]
    fn parse_logical(&mut self) -> (r: Result<Option<Expression>, ParseError>)
        requires
            old(self).wf(),
        ensures
            final(self).wf(),
            final(self).tokens == old(self).tokens,
            old(self).current <= final(self).current,
            (match r {
                Ok(o) => parse_logical_s(old(self).tokens_view(), old(self).cursor())
                    == Parsed::Done(deep_opt_expr(o), final(self).cursor()),
                Err(e) => parse_logical_s(old(self).tokens_view(), old(self).cursor())
                    == Parsed::<Option<ExprS>>::Fail(e),
            }),
        decreases old(self).remaining(), 8int,
    {
        proof {
            reveal(parse_logical_s);
            reveal(chain_logical_s);
        }
        let ghost ts = self.tokens_view();
        let mut expr = match self.parse_equality() {
            Ok(e) => e,
            Err(e) => {
                return Err(e);
            }
        };
        let ghost j0 = self.cursor();
        let ghost d0 = deep_opt_expr(expr);
        let mut going = true;
        while going
            invariant
                self.wf(),
                self.tokens == old(self).tokens,
                old(self).current <= self.current,
                going ==> (match chain_logical_s(ts, self.cursor(), deep_opt_expr(expr)) {
                    Parsed::Done(o, k) => chain_logical_s(ts, j0, d0) == Parsed::Done(o, k),
                    Parsed::Fail(e) => chain_logical_s(ts, j0, d0) == Parsed::<
                        Option<ExprS>,
                    >::Fail(e),
                }),
                !going ==> chain_logical_s(ts, j0, d0) == Parsed::Done(
                    deep_opt_expr(expr),
                    self.cursor(),
                ),
            decreases self.tokens@.len() - self.current, (if going {
                1int
            } else {
                0int
            }),
        {
            let ghost c0 = self.cursor();
            let ghost dacc = deep_opt_expr(expr);
            proof {
                if c0 < ts.len() {
                    assert(ts[c0] == self.tokens@[self.current as int].deep());
                }
            }
            let op = if self.eat(&TokenType::KwAnd) {
                Some(BinOp::And)
            } else if self.eat(&TokenType::KwOr) {
                Some(BinOp::Or)
            } else {
                None
            };
            let op = match op {
                Some(o) => o,
                None => {
                    going = false;
                    continue ;
                }
            };
            let right = match self.parse_equality() {
                Ok(Some(rh)) => rh,
                Ok(None) => {
                    return Err(ParseError::ExpectedExpression);
                }
                Err(e) => {
                    return Err(e);
                }
            };
            let left = match expr {
                Some(l) => l,
                None => {
                    return Err(ParseError::ExpectedExpression);
                }
            };
            expr = Some(Expression::Binary { left: Box::new(left), op, right: Box::new(right) });
            proof {
                assert(chain_logical_s(ts, c0, dacc) == chain_logical_s(
                    ts,
                    self.cursor(),
                    deep_opt_expr(expr),
                ));
            }
        }
        Ok(expr)
    }

    /// Parses a left-associative chain of equality operators, per
    /// [`parse_equality_s`].
    #[verifier::rlimit(100)]
    #[verifier::spinoff_prover]
    #[verifier::loop_isolation(false)]
    fn parse_equality(&mut self) -> (r: Result<Option<Expression>, ParseError>)
        requires
            old(self).wf(),
        ensures
            final(self).wf(),
            final(self).tokens == old(self).tokens,
            old(self).current <= final(self).current,
            (match r {
                Ok(o) => parse_equality_s(old(self).tokens_view(), old(self).cursor())
                    == Parsed::Done(deep_opt_expr(o), final(self).cursor()),
                Err(e) => parse_equality_s(old(self).tokens_view(), old(self).cursor())
                    == Parsed::<Option<ExprS>>::Fail(e),
            }),
        decreases old(self).remaining(), 7int,
    {
        proof {
            reveal(parse_equality_s);
            reveal(chain_equality_s);
        }
        let ghost ts = self.tokens_view();
        let mut expr = match self.parse_comparison() {
            Ok(e) => e,
            Err(e) => {
                return Err(e);
            }
        };
        let ghost j0 = self.cursor();
        let ghost d0 = deep_opt_expr(expr);
        let mut going = true;
        while going
            invariant
                self.wf(),
                self.tokens == old(self).tokens,
                old(self).current <= self.current,
                going ==> (match chain_equality_s(ts, self.cursor(), deep_opt_expr(expr)) {
                    Parsed::Done(o, k) => chain_equality_s(ts, j0, d0) == Parsed::Done(o, k),
                    Parsed::Fail(e) => chain_equality_s(ts, j0, d0) == Parsed::<
                        Option<ExprS>,
                    >::Fail(e),
                }),
                !going ==> chain_equality_s(ts, j0, d0) == Parsed::Done(
                    deep_opt_expr(expr),
                    self.cursor(),
                ),
            decreases self.tokens@.len() - self.current, (if going {
                1int
            } else {
                0int
            }),
        {
            let ghost c0 = self.cursor();
            let ghost dacc = deep_opt_expr(expr);
            proof {
                if c0 < ts.len() {
                    assert(ts[c0] == self.tokens@[self.current as int].deep());
                }
            }
            let op = if self.eat(&TokenType::Eq) {
                Some(BinOp::Eq)
            } else if self.eat(&TokenType::Ne) {
                Some(BinOp::Ne)
            } else {
                None
            };
            let op = match op {
                Some(o) => o,
                None => {
                    going = false;
                    continue ;
                }
            };
            let right = match self.parse_comparison() {
                Ok(Some(rh)) => rh,
                Ok(None) => {
                    return Err(ParseError::ExpectedExpression);
                }
                Err(e) => {
                    return Err(e);
                }
            };
            let left = match expr {
                Some(l) => l,
                None => {
                    return Err(ParseError::ExpectedExpression);
                }
            };
            expr = Some(Expression::Binary { left: Box::new(left), op, right: Box::new(right) });
            proof {
                assert(chain_equality_s(ts, c0, dacc) == chain_equality_s(
                    ts,
                    self.cursor(),
                    deep_opt_expr(expr),
                ));
            }
        }
        Ok(expr)
    }

    /// Parses a left-associative chain of relational operators, per
    /// [`parse_comparison_s`].
    #[verifier::rlimit(100)]
    #[verifier::spinoff_prover]
    #[verifier::loop_isolation(false)]
    fn parse_comparison(&mut self) -> (r: Result<Option<Expression>, ParseError>)
        requires
            old(self).wf(),
        ensures
            final(self).wf(),
            final(self).tokens == old(self).tokens,
            old(self).current <= final(self).current,
            (match r {
                Ok(o) => parse_comparison_s(old(self).tokens_view(), old(self).cursor())
                    == Parsed::Done(deep_opt_expr(o), final(self).cursor()),
                Err(e) => parse_comparison_s(old(self).tokens_view(), old(self).cursor())
                    == Parsed::<Option<ExprS>>::Fail(e),
            }),
        decreases old(self).remaining(), 6int,
    {
        proof {
            reveal(parse_comparison_s);
            reveal(chain_comparison_s);
        }
        let ghost ts = self.tokens_view();
        let mut expr = match self.parse_term() {
            Ok(e) => e,
            Err(e) => {
                return Err(e);
            }
        };
        let ghost j0 = self.cursor();
        let ghost d0 = deep_opt_expr(expr);
        let mut going = true;
        while going
            invariant
                self.wf(),
                self.tokens == old(self).tokens,
                old(self).current <= self.current,
                going ==> (match chain_comparison_s(ts, self.cursor(), deep_opt_expr(expr)) {
                    Parsed::Done(o, k) => chain_comparison_s(ts, j0, d0) == Parsed::Done(o, k),
                    Parsed::Fail(e) => chain_comparison_s(ts, j0, d0) == Parsed::<
                        Option<ExprS>,
                    >::Fail(e),
                }),
                !going ==> chain_comparison_s(ts, j0, d0) == Parsed::Done(
                    deep_opt_expr(expr),
                    self.cursor(),
                ),
            decreases self.tokens@.len() - self.current, (if going {
                1int
            } else {
                0int
            }),
        {
            let ghost c0 = self.cursor();
            let ghost dacc = deep_opt_expr(expr);
            proof {
                if c0 < ts.len() {
                    assert(ts[c0] == self.tokens@[self.current as int].deep());
                }
            }
            let op = if self.eat(&TokenType::Gt) {
                Some(BinOp::Gt)
            } else if self.eat(&TokenType::Ge) {
                Some(BinOp::Ge)
            } else if self.eat(&TokenType::Lt) {
                Some(BinOp::Lt)
            } else if self.eat(&TokenType::Le) {
                Some(BinOp::Le)
            } else {
                None
            };
            let op = match op {
                Some(o) => o,
                None => {
                    going = false;
                    continue ;
                }
            };
            let right = match self.parse_term() {
                Ok(Some(rh)) => rh,
                Ok(None) => {
                    return Err(ParseError::ExpectedExpression);
                }
                Err(e) => {
                    return Err(e);
                }
            };
            let left = match expr {
                Some(l) => l,
                None => {
                    return Err(ParseError::ExpectedExpression);
                }
            };
            expr = Some(Expression::Binary { left: Box::new(left), op, right: Box::new(right) });
            proof {
                assert(chain_comparison_s(ts, c0, dacc) == chain_comparison_s(
                    ts,
                    self.cursor(),
                    deep_opt_expr(expr),
                ));
            }
        }
        Ok(expr)
    }

    /// Parses a left-associative chain of additive operators, per
    /// [`parse_term_s`].
    #[verifier::rlimit(100)]
    #[verifier::spinoff_prover]
    #[verifier::loop_isolation(false)]
    fn parse_term(&mut self) -> (r: Result<Option<Expression>, ParseError>)
        requires
            old(self).wf(),
        ensures
            final(self).wf(),
            final(self).tokens == old(self).tokens,
            old(self).current <= final(self).current,
            (match r {
                Ok(o) => parse_term_s(old(self).tokens_view(), old(self).cursor())
                    == Parsed::Done(deep_opt_expr(o), final(self).cursor()),
                Err(e) => parse_term_s(old(self).tokens_view(), old(self).cursor()) == Parsed::<
                    Option<ExprS>,
                >::Fail(e),
            }),
        decreases old(self).remaining(), 5int,
    {
        proof {
            reveal(parse_term_s);
            reveal(chain_term_s);
        }
        let ghost ts = self.tokens_view();
        let mut expr = match self.parse_factor() {
            Ok(e) => e,
            Err(e) => {
                return Err(e);
            }
        };
        let ghost j0 = self.cursor();
        let ghost d0 = deep_opt_expr(expr);
        let mut going = true;
        while going
            invariant
                self.wf(),
                self.tokens == old(self).tokens,
                old(self).current <= self.current,
                going ==> (match chain_term_s(ts, self.cursor(), deep_opt_expr(expr)) {
                    Parsed::Done(o, k) => chain_term_s(ts, j0, d0) == Parsed::Done(o, k),
                    Parsed::Fail(e) => chain_term_s(ts, j0, d0) == Parsed::<
                        Option<ExprS>,
                    >::Fail(e),
                }),
                !going ==> chain_term_s(ts, j0, d0) == Parsed::Done(
                    deep_opt_expr(expr),
                    self.cursor(),
                ),
            decreases self.tokens@.len() - self.current, (if going {
                1int
            } else {
                0int
            }),
        {
            let ghost c0 = self.cursor();
            let ghost dacc = deep_opt_expr(expr);
            proof {
                if c0 < ts.len() {
                    assert(ts[c0] == self.tokens@[self.current as int].deep());
                }
            }
            let op = if self.eat(&TokenType::Plus) {
                Some(BinOp::Add)
            } else if self.eat(&TokenType::Minus) {
                Some(BinOp::Sub)
            } else {
                None
            };
            let op = match op {
                Some(o) => o,
                None => {
                    going = false;
                    continue ;
                }
            };
            let right = match self.parse_factor() {
                Ok(Some(rh)) => rh,
                Ok(None) => {
                    return Err(ParseError::ExpectedExpression);
                }
                Err(e) => {
                    return Err(e);
                }
            };
            let left = match expr {
                Some(l) => l,
                None => {
                    return Err(ParseError::ExpectedExpression);
                }
            };
            expr = Some(Expression::Binary { left: Box::new(left), op, right: Box::new(right) });
            proof {
                assert(chain_term_s(ts, c0, dacc) == chain_term_s(
                    ts,
                    self.cursor(),
                    deep_opt_expr(expr),
                ));
            }
        }
        Ok(expr)
    }

    /// Parses a left-associative chain of multiplicative operators, per
    /// [`parse_factor_s`].
    #[verifier::rlimit(100)]
    #[verifier::spinoff_prover]
    #[verifier::loop_isolation(false)]
    fn parse_factor(&mut self) -> (r: Result<Option<Expression>, ParseError>)
        requires
            old(self).wf(),
        ensures
            final(self).wf(),
            final(self).tokens == old(self).tokens,
            old(self).current <= final(self).current,
            (match r {
                Ok(o) => parse_factor_s(old(self).tokens_view(), old(self).cursor())
                    == Parsed::Done(deep_opt_expr(o), final(self).cursor()),
                Err(e) => parse_factor_s(old(self).tokens_view(), old(self).cursor()) == Parsed::<
                    Option<ExprS>,
                >::Fail(e),
            }),
        decreases old(self).remaining(), 4int,
    {
        proof {
            reveal(parse_factor_s);
            reveal(chain_factor_s);
        }
        let ghost ts = self.tokens_view();
        let mut expr = match self.parse_unary() {
            Ok(e) => e,
            Err(e) => {
                return Err(e);
            }
        };
        let ghost j0 = self.cursor();
        let ghost d0 = deep_opt_expr(expr);
        let mut going = true;
        while going
            invariant
                self.wf(),
                self.tokens == old(self).tokens,
                old(self).current <= self.current,
                going ==> (match chain_factor_s(ts, self.cursor(), deep_opt_expr(expr)) {
                    Parsed::Done(o, k) => chain_factor_s(ts, j0, d0) == Parsed::Done(o, k),
                    Parsed::Fail(e) => chain_factor_s(ts, j0, d0) == Parsed::<
                        Option<ExprS>,
                    >::Fail(e),
                }),
                !going ==> chain_factor_s(ts, j0, d0) == Parsed::Done(
                    deep_opt_expr(expr),
                    self.cursor(),
                ),
            decreases self.tokens@.len() - self.current, (if going {
                1int
            } else {
                0int
            }),
        {
            let ghost c0 = self.cursor();
            let ghost dacc = deep_opt_expr(expr);
            proof {
                if c0 < ts.len() {
                    assert(ts[c0] == self.tokens@[self.current as int].deep());
                }
            }
            let op = if self.eat(&TokenType::Star) {
                Some(BinOp::Mul)
            } else if self.eat(&TokenType::Slash) {
                Some(BinOp::Div)
            } else {
                None
            };
            let op = match op {
                Some(o) => o,
                None => {
                    going = false;
                    continue ;
                }
            };
            let right = match self.parse_unary() {
                Ok(Some(rh)) => rh,
                Ok(None) => {
                    return Err(ParseError::ExpectedExpression);
                }
                Err(e) => {
                    return Err(e);
                }
            };
            let left = match expr {
                Some(l) => l,
                None => {
                    return Err(ParseError::ExpectedExpression);
                }
            };
            expr = Some(Expression::Binary { left: Box::new(left), op, right: Box::new(right) });
            proof {
                assert(chain_factor_s(ts, c0, dacc) == chain_factor_s(
                    ts,
                    self.cursor(),
                    deep_opt_expr(expr),
                ));
            }
        }
        Ok(expr)
    }

    /// Parses a unary expression: prefix `-` becomes a binary subtraction
    /// from a literal zero, the not-keyword a true unary node; then hands
    /// the primary on to postfix parsing. Per [`parse_unary_s`].
    #[verifier::rlimit(100)]
    #[verifier::spinoff_prover]
    fn parse_unary(&mut self) -> (r: Result<Option<Expression>, ParseError>)
        requires
            old(self).wf(),
        ensures
            final(self).wf(),
            final(self).tokens == old(self).tokens,
            old(self).current <= final(self).current,
            (match r {
                Ok(o) => parse_unary_s(old(self).tokens_view(), old(self).cursor())
                    == Parsed::Done(deep_opt_expr(o), final(self).cursor()),
                Err(e) => parse_unary_s(old(self).tokens_view(), old(self).cursor())
                    == Parsed::<Option<ExprS>>::Fail(e),
            }),
        decreases old(self).remaining(), 3int,
    {
        proof {
            reveal(parse_unary_s);
        }
        let ghost ts = self.tokens_view();
        let ghost i0 = self.cursor();
        proof {
            if i0 < ts.len() {
                assert(ts[i0] == self.tokens@[i0].deep());
            }
        }
        if self.eat(&TokenType::Minus) {
            let right = match self.parse_unary() {
                Ok(Some(rh)) => rh,
                Ok(None) => {
                    return Err(ParseError::ExpectedExpression);
                }
                Err(e) => {
                    return Err(e);
                }
            };
            let ghost dr = right.deep();
            let out = Expression::Binary {
                left: Box::new(Expression::Number(0)),
                op: BinOp::Sub,
                right: Box::new(right),
            };
            proof {
                assert(*out->Binary_left == Expression::Number(0));
                assert((*out->Binary_left).deep() == ExprS::Number(0));
                assert((*out->Binary_right).deep() == dr);
                assert(out.deep() == ExprS::Binary {
                    left: Box::new(ExprS::Number(0)),
                    op: BinOp::Sub,
                    right: Box::new(dr),
                });
                assert(parse_unary_s(ts, i0) == Parsed::Done(
                    Some(out.deep()),
                    self.cursor(),
                ));
            }
            return Ok(Some(out));
        }
        if self.eat(&TokenType::KwNot) {
            let right = match self.parse_unary() {
                Ok(Some(rh)) => rh,
                Ok(None) => {
                    return Err(ParseError::ExpectedExpression);
                }
                Err(e) => {
                    return Err(e);
                }
            };
            return Ok(Some(Expression::Unary { op: UnOp::Not, operand: Box::new(right) }));
        }
        let expr = match self.parse_primary() {
            Ok(e) => e,
            Err(e) => {
                return Err(e);
            }
        };
        match expr {
            Some(e) => match self.parse_postfix(e) {
                Ok(out) => Ok(Some(out)),
                Err(er) => Err(er),
            },
            None => Ok(None),
        }
    }

    /// Parses the postfix method sugar: `.长度()`, `.添加(expr)` and
    /// `.删除(expr)` fold into the dedicated array expression nodes, left to
    /// right. Per [`parse_postfix_s`].
    #[verifier::rlimit(100)]
    #[verifier::spinoff_prover]
    #[verifier::loop_isolation(false)]
    fn parse_postfix(&mut self, expr: Expression) -> (r: Result<Expression, ParseError>)
        requires
            old(self).wf(),
        ensures
            final(self).wf(),
            final(self).tokens == old(self).tokens,
            old(self).current <= final(self).current,
            (match r {
                Ok(out) => parse_postfix_s(
                    old(self).tokens_view(),
                    old(self).cursor(),
                    expr.deep(),
                ) == Parsed::Done(out.deep(), final(self).cursor()),
                Err(e) => parse_postfix_s(old(self).tokens_view(), old(self).cursor(), expr.deep())
                    == Parsed::<ExprS>::Fail(e),
            }),
        decreases old(self).remaining(), 2int,
    {
        proof {
            reveal(parse_postfix_s);
        }
        let ghost ts = self.tokens_view();
        let ghost p0 = self.cursor();
        let ghost d0 = expr.deep();
        let mut result = expr;
        let mut going = true;
        while going
            invariant
                self.wf(),
                self.tokens == old(self).tokens,
                old(self).current <= self.current,
                going ==> (match parse_postfix_s(ts, self.cursor(), result.deep()) {
                    Parsed::Done(out, k) => parse_postfix_s(ts, p0, d0) == Parsed::Done(out, k),
                    Parsed::Fail(e) => parse_postfix_s(ts, p0, d0) == Parsed::<ExprS>::Fail(e),
                }),
                !going ==> parse_postfix_s(ts, p0, d0) == Parsed::Done(
                    result.deep(),
                    self.cursor(),
                ),
            decreases self.tokens@.len() - self.current, (if going {
                1int
            } else {
                0int
            }),
        {
            let ghost cur0 = self.cursor();
            let ghost dcur = result.deep();
            proof {
                if cur0 < ts.len() {
                    assert(ts[cur0] == self.tokens@[self.current as int].deep());
                }
            }
            if !self.eat(&TokenType::Dot) {
                going = false;
                continue ;
            }
            let method = match self.expect_identifier() {
                Some(m) => m,
                None => {
                    return Err(ParseError::ExpectedMethodName);
                }
            };
            proof {
                reveal_strlit("长度");
                reveal_strlit("添加");
                reveal_strlit("删除");
                assert("长度"@ =~= seq!['长', '度']);
                assert("添加"@ =~= seq!['添', '加']);
                assert("删除"@ =~= seq!['删', '除']);
                assert(ts[cur0 + 1] == self.tokens@[cur0 + 1].deep());
            }
            let is_length = str_is(&method, "长度");
            let is_append = str_is(&method, "添加");
            let is_remove = str_is(&method, "删除");
            proof {
                if cur0 + 2 < ts.len() {
                    assert(ts[cur0 + 2] == self.tokens@[cur0 + 2].deep());
                }
                if cur0 + 3 < ts.len() {
                    assert(ts[cur0 + 3] == self.tokens@[cur0 + 3].deep());
                }
            }
            if is_length {
                if !self.eat(&TokenType::LParen) {
                    return Err(ParseError::ExpectedLeftParen);
                }
                if !self.eat(&TokenType::RParen) {
                    return Err(ParseError::ExpectedRightParen);
                }
                result = Expression::Length(Box::new(result));
            } else if is_append {
                if !self.eat(&TokenType::LParen) {
                    return Err(ParseError::ExpectedLeftParen);
                }
                let element = match self.parse_expression() {
                    Ok(Some(e)) => e,
                    Ok(None) => {
                        return Err(ParseError::ExpectedElementExpression);
                    }
                    Err(e) => {
                        return Err(e);
                    }
                };
                proof {
                    if self.cursor() < ts.len() {
                        assert(ts[self.cursor()] == self.tokens@[self.current as int].deep());
                    }
                }
                if !self.eat(&TokenType::RParen) {
                    return Err(ParseError::ExpectedRightParen);
                }
                result = Expression::Append {
                    array: Box::new(result),
                    element: Box::new(element),
                };
            } else if is_remove {
                if !self.eat(&TokenType::LParen) {
                    return Err(ParseError::ExpectedLeftParen);
                }
                let index = match self.parse_expression() {
                    Ok(Some(e)) => e,
                    Ok(None) => {
                        return Err(ParseError::ExpectedIndexExpression);
                    }
                    Err(e) => {
                        return Err(e);
                    }
                };
                proof {
                    if self.cursor() < ts.len() {
                        assert(ts[self.cursor()] == self.tokens@[self.current as int].deep());
                    }
                }
                if !self.eat(&TokenType::RParen) {
                    return Err(ParseError::ExpectedRightParen);
                }
                result = Expression::RemoveAt {
                    array: Box::new(result),
                    index: Box::new(index),
                };
            } else {
                return Err(ParseError::UnknownMethod);
            }
            proof {
                assert(parse_postfix_s(ts, cur0, dcur) == parse_postfix_s(
                    ts,
                    self.cursor(),
                    result.deep(),
                ));
            }
        }
        Ok(result)
    }

    /// Parses a primary expression: a literal, an array literal, a variable
    /// possibly indexed or called, or a parenthesized expression. Per
    /// [`parse_primary_s`].
    #[verifier::rlimit(100)]
    #[verifier::spinoff_prover]
    fn parse_primary(&mut self) -> (r: Result<Option<Expression>, ParseError>)
        requires
            old(self).wf(),
        ensures
            final(self).wf(),
            final(self).tokens == old(self).tokens,
            old(self).current <= final(self).current,
            (match r {
                Ok(o) => parse_primary_s(old(self).tokens_view(), old(self).cursor())
                    == Parsed::Done(deep_opt_expr(o), final(self).cursor()),
                Err(e) => parse_primary_s(old(self).tokens_view(), old(self).cursor())
                    == Parsed::<Option<ExprS>>::Fail(e),
            }),
        decreases old(self).remaining(), 1int,
    {
        proof {
            reveal(parse_primary_s);
            reveal(parse_array_tail_s);
        }
        let ghost ts = self.tokens_view();
        let ghost i0 = self.cursor();
        if self.is_at_end() {
            return Ok(None);
        }
        proof {
            assert(ts[i0] == self.tokens@[i0].deep());
        }
        let lit = match &self.tokens[self.current].token_type {
            TokenType::Num(n) => Some(Expression::Number(*n)),
            TokenType::Str(v) => Some(Expression::Str(v.clone())),
            TokenType::Bool(b) => Some(Expression::BoolLit(*b)),
            _ => None,
        };
        if let Some(e) = lit {
            self.advance();
            return Ok(Some(e));
        }
        proof {
            if i0 + 1 < ts.len() {
                assert(ts[i0 + 1] == self.tokens@[i0 + 1].deep());
            }
            if i0 + 2 < ts.len() {
                assert(ts[i0 + 2] == self.tokens@[i0 + 2].deep());
            }
        }
        if self.eat(&TokenType::LBracket) {
            let mut elements: Vec<Expression> = Vec::new();
            if self.check(&TokenType::RBracket) {
                self.advance();
                let ghost dempty = deep_exprs(elements@);
                let out = Expression::ArrayLiteral(elements);
                proof {
                    assert(dempty =~= Seq::<ExprS>::empty());
                    assert(out.deep() == ExprS::ArrayLiteral(Seq::empty()));
                }
                return Ok(Some(out));
            }
            let ghost k0 = self.cursor();
            match self.parse_arguments(&mut elements, ParseError::ExpectedElementExpression) {
                Ok(_) => {}
                Err(e) => {
                    return Err(e);
                }
            }
            proof {
                if self.cursor() < ts.len() {
                    assert(ts[self.cursor()] == self.tokens@[self.current as int].deep());
                }
                lemma_deep_exprs(elements@);
            }
            if !self.eat(&TokenType::RBracket) {
                return Err(ParseError::ExpectedRightBracket);
            }
            let ghost delems = deep_exprs(elements@);
            let out = Expression::ArrayLiteral(elements);
            proof {
                assert(out->ArrayLiteral_0@ == elements@);
                assert(out.deep() == ExprS::ArrayLiteral(delems));
            }
            return Ok(Some(out));
        }
        let ident = match &self.tokens[self.current].token_type {
            TokenType::Ident(n) => Some(n.clone()),
            _ => None,
        };
        if let Some(name) = ident {
            self.advance();
            if self.eat(&TokenType::LParen) {
                return self.parse_function_call(name);
            }
            if self.eat(&TokenType::LBracket) {
                let index = match self.parse_expression() {
                    Ok(Some(e)) => e,
                    Ok(None) => {
                        return Err(ParseError::ExpectedIndexExpression);
                    }
                    Err(e) => {
                        return Err(e);
                    }
                };
                proof {
                    if self.cursor() < ts.len() {
                        assert(ts[self.cursor()] == self.tokens@[self.current as int].deep());
                    }
                }
                if !self.eat(&TokenType::RBracket) {
                    return Err(ParseError::ExpectedRightBracket);
                }
                let ghost dix = index.deep();
                let ghost dname = name@;
                let out = Expression::Index {
                    array: Box::new(Expression::Variable(name)),
                    index: Box::new(index),
                };
                proof {
                    assert((*out->Index_array).deep() == ExprS::Variable(dname));
                    assert((*out->Index_index).deep() == dix);
                    assert(out.deep() == ExprS::Index {
                        array: Box::new(ExprS::Variable(dname)),
                        index: Box::new(dix),
                    });
                }
                return Ok(Some(out));
            }
            return Ok(Some(Expression::Variable(name)));
        }
        if self.eat(&TokenType::LParen) {
            let expr = match self.parse_expression() {
                Ok(e) => e,
                Err(e) => {
                    return Err(e);
                }
            };
            proof {
                if self.cursor() < ts.len() {
                    assert(ts[self.cursor()] == self.tokens@[self.current as int].deep());
                }
            }
            if !self.eat(&TokenType::RParen) {
                return Err(ParseError::ExpectedRightParen);
            }
            return Ok(expr);
        }
        Ok(None)
    }

    /// Parses one or more comma-separated expressions onto `out`, per
    /// [`parse_args_s`]; `missing` is the error where an expression is due
    /// but none starts.
    #[verifier::rlimit(100)]
    #[verifier::spinoff_prover]
    #[verifier::loop_isolation(false)]
    fn parse_arguments(&mut self, out: &mut Vec<Expression>, missing: ParseError) -> (r: Result<
        (),
        ParseError,
    >)
        requires
            old(self).wf(),
            old(out)@.len() == 0,
        ensures
            final(self).wf(),
            final(self).tokens == old(self).tokens,
            old(self).current <= final(self).current,
            (match r {
                Ok(_) => parse_args_s(old(self).tokens_view(), old(self).cursor(), missing)
                    == Parsed::Done(deep_exprs(final(out)@), final(self).cursor()),
                Err(e) => parse_args_s(old(self).tokens_view(), old(self).cursor(), missing)
                    == Parsed::<Seq<ExprS>>::Fail(e),
            }),
        decreases old(self).remaining(), 11int,
    {
        proof {
            reveal(parse_args_s);
        }
        let ghost ts = self.tokens_view();
        let ghost k0 = self.cursor();
        let mut going = true;
        while going
            invariant
                self.wf(),
                self.tokens == old(self).tokens,
                old(self).current <= self.current,
                going ==> (match parse_args_s(ts, self.cursor(), missing) {
                    Parsed::Done(rest, j) => parse_args_s(ts, k0, missing) == Parsed::Done(
                        deep_exprs(out@) + rest,
                        j,
                    ),
                    Parsed::Fail(e) => parse_args_s(ts, k0, missing) == Parsed::<
                        Seq<ExprS>,
                    >::Fail(e),
                }),
                !going ==> parse_args_s(ts, k0, missing) == Parsed::Done(
                    deep_exprs(out@),
                    self.cursor(),
                ),
            decreases self.tokens@.len() - self.current, (if going {
                1int
            } else {
                0int
            }),
        {
            let ghost acc0 = deep_exprs(out@);
            let e = match self.parse_expression() {
                Ok(Some(e)) => e,
                Ok(None) => {
                    return Err(missing);
                }
                Err(er) => {
                    return Err(er);
                }
            };
            let ghost de = e.deep();
            let ghost pre = out@;
            out.push(e);
            proof {
                assert(out@.drop_last() =~= pre);
                lemma_deep_exprs(out@);
                lemma_deep_exprs(pre);
                assert(deep_exprs(out@) =~= acc0 + seq![de]);
                if self.cursor() < ts.len() {
                    assert(ts[self.cursor()] == self.tokens@[self.current as int].deep());
                }
            }
            if !self.eat(&TokenType::Comma) {
                going = false;
            } else {
                proof {
                    assert forall|rest2: Seq<ExprS>|
                        true implies (acc0 + seq![de]) + rest2 =~= acc0 + (seq![de] + rest2) by {}
                }
            }
        }
        Ok(())
    }

    /// Parses a call's argument list after the callee's opening parenthesis,
    /// per [`parse_call_tail_s`].
    #[verifier::rlimit(100)]
    #[verifier::spinoff_prover]
    fn parse_function_call(&mut self, function_name: String) -> (r: Result<
        Option<Expression>,
        ParseError,
    >)
        requires
            old(self).wf(),
        ensures
            final(self).wf(),
            final(self).tokens == old(self).tokens,
            old(self).current <= final(self).current,
            (match r {
                Ok(o) => parse_call_tail_s(
                    old(self).tokens_view(),
                    old(self).cursor(),
                    function_name@,
                ) == Parsed::Done(deep_opt_expr(o), final(self).cursor()),
                Err(e) => parse_call_tail_s(
                    old(self).tokens_view(),
                    old(self).cursor(),
                    function_name@,
                ) == Parsed::<Option<ExprS>>::Fail(e),
            }),
        decreases old(self).remaining(), 12int,
    {
        proof {
            reveal(parse_call_tail_s);
        }
        let ghost ts = self.tokens_view();
        let ghost k0 = self.cursor();
        proof {
            if k0 < ts.len() {
                assert(ts[k0] == self.tokens@[k0].deep());
            }
            assert(deep_exprs(Seq::<Expression>::empty()) =~= Seq::<ExprS>::empty());
        }
        let mut arguments: Vec<Expression> = Vec::new();
        if self.check(&TokenType::RParen) {
            self.advance();
            return Ok(Some(Expression::Call { callee: function_name, args: arguments }));
        }
        match self.parse_arguments(&mut arguments, ParseError::ExpectedExpression) {
            Ok(_) => {}
            Err(e) => {
                return Err(e);
            }
        }
        proof {
            if self.cursor() < ts.len() {
                assert(ts[self.cursor()] == self.tokens@[self.current as int].deep());
            }
            lemma_deep_exprs(arguments@);
        }
        if !self.eat(&TokenType::RParen) {
            return Err(ParseError::ExpectedRightParen);
        }
        Ok(Some(Expression::Call { callee: function_name, args: arguments }))
    }
}

} // verus!
