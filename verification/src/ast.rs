//! The abstract syntax tree: expression and statement variants with no
//! behaviour of their own, and `Program`, an ordered sequence of top-level
//! statements.
//!
//! Function bodies and parameter lists sit behind `Rc` so that a function
//! value captured by the interpreter shares the declaration's subtrees
//! instead of copying them.

use vstd::prelude::*;
use std::rc::Rc;

verus! {

/// A binary operator symbol. The parser rewrites prefix `-` as a binary
/// subtraction from a literal zero, so no unary minus appears here.
#[derive(Clone, Copy, Debug, PartialEq, Eq, Structural)]
pub enum BinOp {
    Add,
    Sub,
    Mul,
    Div,
    Eq,
    Ne,
    Gt,
    Lt,
    Ge,
    Le,
    And,
    Or,
}

/// A unary operator symbol: logical negation is the only true unary node.
#[derive(Clone, Copy, Debug, PartialEq, Eq, Structural)]
pub enum UnOp {
    Not,
}

/// An expression node. Each variant owns its sub-expressions.
#[derive(Debug)]
pub enum Expression {
    /// A number literal; the language's numbers are 64-bit signed integers.
    Number(i64),
    /// A string literal.
    Str(String),
    /// A boolean literal, spelled 真 or 假 in source.
    BoolLit(bool),
    /// A variable reference by name.
    Variable(String),
    /// A binary operation.
    Binary { left: Box<Expression>, op: BinOp, right: Box<Expression> },
    /// A unary operation.
    Unary { op: UnOp, operand: Box<Expression> },
    /// A call of a named function with an ordered argument list.
    Call { callee: String, args: Vec<Expression> },
    /// An assignment to an existing binding in the innermost environment.
    Assign { target: String, value: Box<Expression> },
    /// An array literal with an ordered element list.
    ArrayLiteral(Vec<Expression>),
    /// An index access into an array.
    Index { array: Box<Expression>, index: Box<Expression> },
    /// An array length query.
    Length(Box<Expression>),
    /// An array append; it evaluates to a new array with the element added.
    Append { array: Box<Expression>, element: Box<Expression> },
    /// An array remove-at; it evaluates to a new array without the element.
    RemoveAt { array: Box<Expression>, index: Box<Expression> },
}

/// A statement node. Bodies and branches are ordered statement lists.
#[derive(Debug)]
pub enum Statement {
    /// An expression evaluated for its effect.
    ExprStmt(Expression),
    /// A variable declaration with an optional initializer. The is-constant
    /// flag is recorded but not enforced.
    VarDecl { name: String, init: Option<Expression>, is_const: bool },
    /// A function declaration: name, ordered parameter names, body.
    FuncDecl { name: String, params: Rc<Vec<String>>, body: Rc<Vec<Statement>> },
    /// An if statement; both branches are always present, possibly empty.
    If { condition: Expression, then_branch: Vec<Statement>, else_branch: Vec<Statement> },
    /// A loop, infinite when it has no condition.
    Loop { condition: Option<Expression>, body: Vec<Statement> },
    /// The while-keyword form with its two-evaluation quirk.
    While { condition: Expression, body: Vec<Statement> },
    /// A for-each loop over the characters of a string.
    ForEach { variable: String, iterable: Expression, body: Vec<Statement> },
    /// A return with an optional value.
    Return(Option<Expression>),
    /// A break out of the innermost loop.
    Break,
    /// A continue to the innermost loop's next iteration.
    Continue,
}

/// A parsed program: its top-level statements, in execution order.
#[derive(Debug)]
pub struct Program {
    pub statements: Vec<Statement>,
}

/// The structural size of an expression, the measure the evaluator's
/// syntax-directed recursion descends along.
pub open spec fn expr_size(e: Expression) -> nat
    decreases e,
{
    1 + match e {
        Expression::Number(_) => 0,
        Expression::Str(_) => 0,
        Expression::BoolLit(_) => 0,
        Expression::Variable(_) => 0,
        Expression::Binary { left, op: _, right } => expr_size(*left) + expr_size(*right),
        Expression::Unary { op: _, operand } => expr_size(*operand),
        Expression::Call { callee: _, args } => exprs_size(args@),
        Expression::Assign { target: _, value } => expr_size(*value),
        Expression::ArrayLiteral(elements) => exprs_size(elements@),
        Expression::Index { array, index } => expr_size(*array) + expr_size(*index),
        Expression::Length(array) => expr_size(*array),
        Expression::Append { array, element } => expr_size(*array) + expr_size(*element),
        Expression::RemoveAt { array, index } => expr_size(*array) + expr_size(*index),
    }
}

/// The summed size of an expression list.
pub open spec fn exprs_size(es: Seq<Expression>) -> nat
    decreases es,
{
    if es.len() == 0 {
        0
    } else {
        expr_size(es[0]) + exprs_size(es.skip(1))
    }
}

/// The structural size of a statement. A declared function's body does not
/// count: execution reaches it only through a call, which spends fuel.
pub open spec fn stmt_size(s: Statement) -> nat
    decreases s,
{
    1 + match s {
        Statement::ExprStmt(e) => expr_size(e),
        Statement::VarDecl { name: _, init, is_const: _ } => match init {
            Some(e) => expr_size(e),
            None => 0,
        },
        Statement::FuncDecl { .. } => 0,
        Statement::If { condition, then_branch, else_branch } => expr_size(condition)
            + stmts_size(then_branch@) + stmts_size(else_branch@),
        Statement::Loop { condition, body } => (match condition {
            Some(e) => expr_size(e),
            None => 0,
        }) + stmts_size(body@),
        Statement::While { condition, body } => expr_size(condition) + stmts_size(body@),
        Statement::ForEach { variable: _, iterable, body } => expr_size(iterable) + stmts_size(
            body@,
        ),
        Statement::Return(value) => match value {
            Some(e) => expr_size(e),
            None => 0,
        },
        Statement::Break => 0,
        Statement::Continue => 0,
    }
}

/// The summed size of a statement list.
pub open spec fn stmts_size(ss: Seq<Statement>) -> nat
    decreases ss,
{
    if ss.len() == 0 {
        0
    } else {
        stmt_size(ss[0]) + stmts_size(ss.skip(1))
    }
}


/// The mathematical model of an expression: names are character sequences,
/// numbers unbounded integers, lists sequences.
pub enum ExprS {
    Number(int),
    Str(Seq<char>),
    BoolLit(bool),
    Variable(Seq<char>),
    Binary { left: Box<ExprS>, op: BinOp, right: Box<ExprS> },
    Unary { op: UnOp, operand: Box<ExprS> },
    Call { callee: Seq<char>, args: Seq<ExprS> },
    Assign { target: Seq<char>, value: Box<ExprS> },
    ArrayLiteral(Seq<ExprS>),
    Index { array: Box<ExprS>, index: Box<ExprS> },
    Length(Box<ExprS>),
    Append { array: Box<ExprS>, element: Box<ExprS> },
    RemoveAt { array: Box<ExprS>, index: Box<ExprS> },
}

/// The mathematical model of a statement.
pub enum StmtS {
    ExprStmt(ExprS),
    VarDecl { name: Seq<char>, init: Option<ExprS>, is_const: bool },
    FuncDecl { name: Seq<char>, params: Seq<Seq<char>>, body: Seq<StmtS> },
    If { condition: ExprS, then_branch: Seq<StmtS>, else_branch: Seq<StmtS> },
    Loop { condition: Option<ExprS>, body: Seq<StmtS> },
    While { condition: ExprS, body: Seq<StmtS> },
    ForEach { variable: Seq<char>, iterable: ExprS, body: Seq<StmtS> },
    Return(Option<ExprS>),
    Break,
    Continue,
}

/// The models of a name list, elementwise.
pub open spec fn deep_names(ns: Seq<String>) -> Seq<Seq<char>> {
    ns.map(|i: int, n: String| n@)
}

impl Expression {
    /// The mathematical model of this expression.
    pub open spec fn deep(self) -> ExprS
        decreases self, 0int,
    {
        match self {
            Expression::Number(n) => ExprS::Number(n as int),
            Expression::Str(s) => ExprS::Str(s@),
            Expression::BoolLit(b) => ExprS::BoolLit(b),
            Expression::Variable(name) => ExprS::Variable(name@),
            Expression::Binary { left, op, right } => ExprS::Binary {
                left: Box::new((*left).deep()),
                op,
                right: Box::new((*right).deep()),
            },
            Expression::Unary { op, operand } => ExprS::Unary {
                op,
                operand: Box::new((*operand).deep()),
            },
            Expression::Call { callee, args } => ExprS::Call {
                callee: callee@,
                args: deep_exprs(args@),
            },
            Expression::Assign { target, value } => ExprS::Assign {
                target: target@,
                value: Box::new((*value).deep()),
            },
            Expression::ArrayLiteral(elements) => ExprS::ArrayLiteral(deep_exprs(elements@)),
            Expression::Index { array, index } => ExprS::Index {
                array: Box::new((*array).deep()),
                index: Box::new((*index).deep()),
            },
            Expression::Length(array) => ExprS::Length(Box::new((*array).deep())),
            Expression::Append { array, element } => ExprS::Append {
                array: Box::new((*array).deep()),
                element: Box::new((*element).deep()),
            },
            Expression::RemoveAt { array, index } => ExprS::RemoveAt {
                array: Box::new((*array).deep()),
                index: Box::new((*index).deep()),
            },
        }
    }
}

/// The models of an expression list, elementwise.
pub open spec fn deep_exprs(es: Seq<Expression>) -> Seq<ExprS>
    decreases es, 1int,
{
    if es.len() == 0 {
        Seq::empty()
    } else {
        deep_exprs(es.drop_last()).push(es.last().deep())
    }
}

/// `deep_exprs` maps a sequence elementwise.
pub proof fn lemma_deep_exprs(es: Seq<Expression>)
    ensures
        deep_exprs(es).len() == es.len(),
        forall|i: int| 0 <= i < es.len() ==> deep_exprs(es)[i] == #[trigger] es[i].deep(),
    decreases es,
{
    if es.len() > 0 {
        lemma_deep_exprs(es.drop_last());
        assert(forall|i: int| 0 <= i < es.len() - 1 ==> es.drop_last()[i] == #[trigger] es[i]);
    }
}

impl Statement {
    /// The mathematical model of this statement.
    pub open spec fn deep(self) -> StmtS
        decreases self, 0int,
    {
        match self {
            Statement::ExprStmt(e) => StmtS::ExprStmt(e.deep()),
            Statement::VarDecl { name, init, is_const } => StmtS::VarDecl {
                name: name@,
                init: match init {
                    Some(e) => Some(e.deep()),
                    None => None,
                },
                is_const,
            },
            Statement::FuncDecl { name, params, body } => StmtS::FuncDecl {
                name: name@,
                params: deep_names(params@),
                body: deep_stmts(body@),
            },
            Statement::If { condition, then_branch, else_branch } => StmtS::If {
                condition: condition.deep(),
                then_branch: deep_stmts(then_branch@),
                else_branch: deep_stmts(else_branch@),
            },
            Statement::Loop { condition, body } => StmtS::Loop {
                condition: match condition {
                    Some(e) => Some(e.deep()),
                    None => None,
                },
                body: deep_stmts(body@),
            },
            Statement::While { condition, body } => StmtS::While {
                condition: condition.deep(),
                body: deep_stmts(body@),
            },
            Statement::ForEach { variable, iterable, body } => StmtS::ForEach {
                variable: variable@,
                iterable: iterable.deep(),
                body: deep_stmts(body@),
            },
            Statement::Return(value) => StmtS::Return(
                match value {
                    Some(e) => Some(e.deep()),
                    None => None,
                },
            ),
            Statement::Break => StmtS::Break,
            Statement::Continue => StmtS::Continue,
        }
    }
}

/// The models of a statement list, elementwise.
pub open spec fn deep_stmts(ss: Seq<Statement>) -> Seq<StmtS>
    decreases ss, 1int,
{
    if ss.len() == 0 {
        Seq::empty()
    } else {
        deep_stmts(ss.drop_last()).push(ss.last().deep())
    }
}

/// `deep_stmts` maps a sequence elementwise.
pub proof fn lemma_deep_stmts(ss: Seq<Statement>)
    ensures
        deep_stmts(ss).len() == ss.len(),
        forall|i: int| 0 <= i < ss.len() ==> deep_stmts(ss)[i] == #[trigger] ss[i].deep(),
    decreases ss,
{
    if ss.len() > 0 {
        lemma_deep_stmts(ss.drop_last());
        assert(forall|i: int| 0 <= i < ss.len() - 1 ==> ss.drop_last()[i] == #[trigger] ss[i]);
    }
}

impl Program {
    /// An empty program.
    pub fn new() -> (p: Program)
        ensures
            p.statements@.len() == 0,
    {
        Program { statements: Vec::new() }
    }

    /// Appends one statement at the end of the program.
    pub fn push_statement(&mut self, statement: Statement)
        ensures
            final(self).statements@ == old(self).statements@.push(statement),
    {
        self.statements.push(statement);
    }
}

} // verus!
