//! The language's execution semantics, as specification functions: one
//! big-step evaluator over mathematical states. The interpreter is verified
//! against these functions clause by clause, and the testable laws of the
//! language are proved from them.
//!
//! Every loop iteration and every function call costs one unit of fuel;
//! a program that would run longer ends in the out-of-fuel error. All other
//! recursion follows the syntax tree, so the semantics is total.

use vstd::prelude::*;
use crate::ast::{expr_size, exprs_size, stmt_size, stmts_size, BinOp, Expression, Statement, UnOp};
use crate::env::EnvS;
use crate::errors::ErrS;
use crate::value::{
    add_spec, compare_spec, divide_spec, equal_values, multiply_spec, print_render, subtract_spec,
    truthy, ValueS,
};
use crate::value::BuiltinKind;

verus! {

/// What a statement's execution yields: completion with a value, a break or
/// continue signal for the innermost loop, or a return carrying the call's
/// result. Errors travel on a separate channel.
pub enum OutcomeS {
    Completed(ValueS),
    Break,
    Continue,
    Return(ValueS),
}

/// A whole interpreter state: the environment arena, the current frame's
/// index, the input lines not yet read, and the output lines printed so far.
pub struct StateS {
    pub envs: Seq<EnvS>,
    pub cur: int,
    pub input: Seq<Seq<char>>,
    pub output: Seq<Seq<char>>,
}

/// What evaluating an expression yields: a state and a value, or an error.
pub enum EvalR {
    Done(StateS, ValueS),
    Fail(ErrS),
}

/// What evaluating an argument list yields: a state and the values, in
/// order, or an error.
pub enum EvalsR {
    Done(StateS, Seq<ValueS>),
    Fail(ErrS),
}

/// What executing a statement or a block yields: a state and an outcome, or
/// an error.
pub enum ExecR {
    Done(StateS, OutcomeS),
    Fail(ErrS),
}

/// Every frame's parent lies strictly below it in the arena, so each scope
/// chain descends to the global frame.
pub open spec fn parents_ok(envs: Seq<EnvS>) -> bool {
    forall|i: int|
        0 <= i < envs.len() ==> match (#[trigger] envs[i]).parent {
            Some(p) => 0 <= p < i,
            None => true,
        }
}

/// Every function value inside `v` captures a frame index below `n`.
pub open spec fn value_scopes_ok(v: ValueS, n: int) -> bool
    decreases v, 0int,
{
    match v {
        ValueS::Function { scope, .. } => 0 <= scope < n,
        ValueS::Array(items) => values_scopes_ok(items, n),
        _ => true,
    }
}

/// Every function value inside any of `items` captures a frame index below
/// `n`.
pub open spec fn values_scopes_ok(items: Seq<ValueS>, n: int) -> bool
    decreases items, 1int,
{
    items.len() == 0 || (value_scopes_ok(items.first(), n) && values_scopes_ok(
        items.drop_first(),
        n,
    ))
}

/// `values_scopes_ok` holds exactly when it holds of every element.
pub proof fn lemma_values_scopes_ok(items: Seq<ValueS>, n: int)
    ensures
        values_scopes_ok(items, n) <==> (forall|i: int|
            0 <= i < items.len() ==> #[trigger] value_scopes_ok(items[i], n)),
    decreases items,
{
    if items.len() > 0 {
        lemma_values_scopes_ok(items.drop_first(), n);
        if values_scopes_ok(items, n) {
            assert forall|i: int| 0 <= i < items.len() implies #[trigger] value_scopes_ok(
                items[i],
                n,
            ) by {
                if i > 0 {
                    assert(items.drop_first()[i - 1] == items[i]);
                }
            }
        }
        if forall|i: int| 0 <= i < items.len() ==> #[trigger] value_scopes_ok(items[i], n) {
            assert forall|i: int| 0 <= i < items.drop_first().len() implies
                #[trigger] value_scopes_ok(items.drop_first()[i], n) by {
                assert(items.drop_first()[i] == items[i + 1]);
            }
            assert(value_scopes_ok(items.first(), n));
        }
    }
}

/// Every value bound in `e` keeps its captured scopes below `n`.
pub open spec fn env_scopes_ok(e: EnvS, n: int) -> bool {
    forall|k: Seq<char>| e.vars.contains_key(k) ==> #[trigger] value_scopes_ok(e.vars[k], n)
}

/// The state invariant: parents descend, the current frame exists, and
/// every captured scope names an existing frame.
pub open spec fn state_wf(st: StateS) -> bool {
    &&& parents_ok(st.envs)
    &&& 0 <= st.cur < st.envs.len()
    &&& forall|i: int| 0 <= i < st.envs.len() ==> env_scopes_ok(#[trigger] st.envs[i], st.envs.len() as int)
}

/// A scope that is in range of `n` frames stays in range when frames are
/// added.
pub proof fn lemma_value_scopes_ok_mono(v: ValueS, n: int, m: int)
    requires
        value_scopes_ok(v, n),
        n <= m,
    ensures
        value_scopes_ok(v, m),
    decreases v, 0int,
{
    match v {
        ValueS::Array(items) => {
            lemma_values_scopes_ok_mono(items, n, m);
        }
        _ => {}
    }
}

/// Elementwise monotonicity of captured-scope bounds.
pub proof fn lemma_values_scopes_ok_mono(items: Seq<ValueS>, n: int, m: int)
    requires
        values_scopes_ok(items, n),
        n <= m,
    ensures
        values_scopes_ok(items, m),
    decreases items,
{
    if items.len() > 0 {
        lemma_value_scopes_ok_mono(items.first(), n, m);
        lemma_values_scopes_ok_mono(items.drop_first(), n, m);
    }
}

/// The name the print builtin is bound to in the global frame.
pub open spec fn print_name() -> Seq<char> {
    seq!['打', '印']
}

/// The name the input builtin is bound to in the global frame.
pub open spec fn input_name() -> Seq<char> {
    seq!['输', '入']
}

/// The state a run starts from: one global frame holding the two builtins,
/// no input provided yet, nothing printed yet.
pub open spec fn initial_state() -> StateS {
    StateS {
        envs: seq![
            EnvS {
                vars: Map::<Seq<char>, ValueS>::empty().insert(
                    print_name(),
                    ValueS::Builtin(BuiltinKind::Print),
                ).insert(input_name(), ValueS::Builtin(BuiltinKind::Input)),
                parent: None,
            },
        ],
        cur: 0,
        input: Seq::empty(),
        output: Seq::empty(),
    }
}

/// Name resolution for reads: the frame's own bindings first, then the
/// parent chain, to the global frame.
pub open spec fn lookup_from(envs: Seq<EnvS>, e: EnvS, name: Seq<char>) -> Option<ValueS>
    decreases (match e.parent {
        Some(p) => p + 1,
        None => 0,
    })
    when parents_ok(envs) && (e.parent matches Some(p) ==> 0 <= p < envs.len())
{
    if e.vars.contains_key(name) {
        Some(e.vars[name])
    } else {
        match e.parent {
            Some(p) => lookup_from(envs, envs[p], name),
            None => None,
        }
    }
}

/// Name resolution starting at the frame `id`.
pub open spec fn lookup_env(envs: Seq<EnvS>, id: int, name: Seq<char>) -> Option<ValueS> {
    lookup_from(envs, envs[id], name)
}

/// A value found on a well-formed state's scope chain keeps its captured
/// scopes in range.
pub proof fn lemma_lookup_scopes_ok(envs: Seq<EnvS>, e: EnvS, name: Seq<char>, n: int)
    requires
        parents_ok(envs),
        e.parent matches Some(p) ==> 0 <= p < envs.len(),
        env_scopes_ok(e, n),
        forall|i: int| 0 <= i < envs.len() ==> env_scopes_ok(#[trigger] envs[i], n),
    ensures
        lookup_from(envs, e, name) matches Some(v) ==> value_scopes_ok(v, n),
    decreases (match e.parent {
        Some(p) => p + 1,
        None => 0,
    }),
{
    if !e.vars.contains_key(name) {
        match e.parent {
            Some(p) => {
                lemma_lookup_scopes_ok(envs, envs[p], name, n);
            }
            None => {}
        }
    }
}

/// The state after binding `name` to `v` in the frame `id`.
pub open spec fn define_in(st: StateS, id: int, name: Seq<char>, v: ValueS) -> StateS {
    StateS {
        envs: st.envs.update(
            id,
            EnvS { vars: st.envs[id].vars.insert(name, v), parent: st.envs[id].parent },
        ),
        cur: st.cur,
        input: st.input,
        output: st.output,
    }
}

/// The state after printing one line.
pub open spec fn push_output(st: StateS, line: Seq<char>) -> StateS {
    StateS { envs: st.envs, cur: st.cur, input: st.input, output: st.output.push(line) }
}

/// What evaluating an expression yields, per the language's rules.
pub open spec fn eval_expr_s(st: StateS, e: Expression, fuel: nat) -> EvalR
    decreases fuel, expr_size(e), 0int,
{
    match e {
        Expression::Number(n) => EvalR::Done(st, ValueS::Num(n as int)),
        Expression::Str(s) => EvalR::Done(st, ValueS::Str(s@)),
        Expression::BoolLit(b) => EvalR::Done(st, ValueS::Bool(b)),
        Expression::Variable(name) => match lookup_env(st.envs, st.cur, name@) {
            Some(v) => EvalR::Done(st, v),
            None => EvalR::Fail(ErrS::UndefinedVariable(name@)),
        },
        Expression::Binary { left, op, right } => match eval_expr_s(st, *left, fuel) {
            EvalR::Done(st1, a) => match eval_expr_s(st1, *right, fuel) {
                EvalR::Done(st2, b) => apply_binop(st2, op, a, b),
                EvalR::Fail(err) => EvalR::Fail(err),
            },
            EvalR::Fail(err) => EvalR::Fail(err),
        },
        Expression::Unary { op, operand } => match eval_expr_s(st, *operand, fuel) {
            EvalR::Done(st1, v) => match op {
                UnOp::Not => EvalR::Done(st1, ValueS::Bool(!truthy(v))),
            },
            EvalR::Fail(err) => EvalR::Fail(err),
        },
        Expression::Call { callee, args } => eval_call_s(st, callee@, args@, fuel),
        Expression::Assign { target, value } => match eval_expr_s(st, *value, fuel) {
            EvalR::Done(st1, v) => if st1.envs[st1.cur].vars.contains_key(target@) {
                EvalR::Done(define_in(st1, st1.cur, target@, v), v)
            } else {
                EvalR::Fail(ErrS::UndefinedVariable(target@))
            },
            EvalR::Fail(err) => EvalR::Fail(err),
        },
        Expression::ArrayLiteral(elements) => match eval_exprs_s(st, elements@, fuel) {
            EvalsR::Done(st1, vals) => EvalR::Done(st1, ValueS::Array(vals)),
            EvalsR::Fail(err) => EvalR::Fail(err),
        },
        Expression::Index { array, index } => match eval_expr_s(st, *array, fuel) {
            EvalR::Done(st1, av) => match eval_expr_s(st1, *index, fuel) {
                EvalR::Done(st2, iv) => match (av, iv) {
                    (ValueS::Array(items), ValueS::Num(i)) => if 0 <= i < items.len() {
                        EvalR::Done(st2, items[i])
                    } else {
                        EvalR::Fail(ErrS::IndexOutOfRange { index: i, len: items.len() as int })
                    },
                    _ => EvalR::Fail(ErrS::IndexTypeMismatch),
                },
                EvalR::Fail(err) => EvalR::Fail(err),
            },
            EvalR::Fail(err) => EvalR::Fail(err),
        },
        Expression::Length(array) => match eval_expr_s(st, *array, fuel) {
            EvalR::Done(st1, av) => match av {
                ValueS::Array(items) => if items.len() <= i64::MAX {
                    EvalR::Done(st1, ValueS::Num(items.len() as int))
                } else {
                    EvalR::Fail(ErrS::Overflow)
                },
                _ => EvalR::Fail(ErrS::LengthNeedsArray),
            },
            EvalR::Fail(err) => EvalR::Fail(err),
        },
        Expression::Append { array, element } => match eval_expr_s(st, *array, fuel) {
            EvalR::Done(st1, av) => match eval_expr_s(st1, *element, fuel) {
                EvalR::Done(st2, ev) => match av {
                    ValueS::Array(items) => EvalR::Done(st2, ValueS::Array(items.push(ev))),
                    _ => EvalR::Fail(ErrS::AppendNeedsArray),
                },
                EvalR::Fail(err) => EvalR::Fail(err),
            },
            EvalR::Fail(err) => EvalR::Fail(err),
        },
        Expression::RemoveAt { array, index } => match eval_expr_s(st, *array, fuel) {
            EvalR::Done(st1, av) => match eval_expr_s(st1, *index, fuel) {
                EvalR::Done(st2, iv) => match (av, iv) {
                    (ValueS::Array(items), ValueS::Num(i)) => if 0 <= i < items.len() {
                        EvalR::Done(st2, ValueS::Array(items.remove(i)))
                    } else {
                        EvalR::Fail(ErrS::IndexOutOfRange { index: i, len: items.len() as int })
                    },
                    _ => EvalR::Fail(ErrS::RemoveTypeMismatch),
                },
                EvalR::Fail(err) => EvalR::Fail(err),
            },
            EvalR::Fail(err) => EvalR::Fail(err),
        },
    }
}

/// What a binary operator yields on two evaluated operands. The logical
/// operators get both operands already evaluated — there is no
/// short-circuit — and combine their truthiness.
pub open spec fn apply_binop(st: StateS, op: BinOp, a: ValueS, b: ValueS) -> EvalR {
    match op {
        BinOp::Add => lift_value(st, add_spec(a, b)),
        BinOp::Sub => lift_value(st, subtract_spec(a, b)),
        BinOp::Mul => lift_value(st, multiply_spec(a, b)),
        BinOp::Div => lift_value(st, divide_spec(a, b)),
        BinOp::Eq => EvalR::Done(st, ValueS::Bool(equal_values(a, b))),
        BinOp::Ne => EvalR::Done(st, ValueS::Bool(!equal_values(a, b))),
        BinOp::Gt => lift_value(st, compare_spec(a, b, |x: int, y: int| x > y)),
        BinOp::Lt => lift_value(st, compare_spec(a, b, |x: int, y: int| x < y)),
        BinOp::Ge => lift_value(st, compare_spec(a, b, |x: int, y: int| x >= y)),
        BinOp::Le => lift_value(st, compare_spec(a, b, |x: int, y: int| x <= y)),
        BinOp::And => EvalR::Done(st, ValueS::Bool(truthy(a) && truthy(b))),
        BinOp::Or => EvalR::Done(st, ValueS::Bool(truthy(a) || truthy(b))),
    }
}

/// Attaches a state to a pure value result.
pub open spec fn lift_value(st: StateS, r: Result<ValueS, ErrS>) -> EvalR {
    match r {
        Ok(v) => EvalR::Done(st, v),
        Err(e) => EvalR::Fail(e),
    }
}

/// What a call yields. Arguments are evaluated eagerly, left to right, in
/// the caller's frame; a user function then runs its body in a fresh frame
/// whose parent is the function's defining scope. A return outcome supplies
/// the result; falling off the end yields null; a break or continue
/// escaping the body is a stray-control-flow error. Print renders its one
/// argument onto the output; input takes the next input line, or the empty
/// string once input is exhausted.
pub open spec fn eval_call_s(st: StateS, callee: Seq<char>, args: Seq<Expression>, fuel: nat) -> EvalR
    decreases fuel, exprs_size(args), 3int,
{
    match lookup_env(st.envs, st.cur, callee) {
        None => EvalR::Fail(ErrS::UndefinedFunction(callee)),
        Some(ValueS::Builtin(BuiltinKind::Print)) => if args.len() != 1 {
            EvalR::Fail(ErrS::PrintArity)
        } else {
            match eval_expr_s(st, args[0], fuel) {
                EvalR::Done(st1, v) => EvalR::Done(push_output(st1, print_render(v)), ValueS::Null),
                EvalR::Fail(err) => EvalR::Fail(err),
            }
        },
        Some(ValueS::Builtin(BuiltinKind::Input)) => if args.len() != 0 {
            EvalR::Fail(ErrS::InputArity)
        } else if st.input.len() > 0 {
            EvalR::Done(
                StateS { envs: st.envs, cur: st.cur, input: st.input.skip(1), output: st.output },
                ValueS::Str(st.input[0]),
            )
        } else {
            EvalR::Done(st, ValueS::Str(Seq::empty()))
        },
        Some(ValueS::Function { params, body, scope }) => if params.len() != args.len() {
            EvalR::Fail(ErrS::ArityMismatch { expected: params.len() as int, got: args.len() as int })
        } else {
            match eval_exprs_s(st, args, fuel) {
                EvalsR::Fail(err) => EvalR::Fail(err),
                EvalsR::Done(st1, vals) => if fuel == 0 {
                    EvalR::Fail(ErrS::OutOfFuel)
                } else {
                    let frame = EnvS { vars: params_map_chars(params, vals), parent: Some(scope) };
                    let st2 = StateS {
                        envs: st1.envs.push(frame),
                        cur: st1.envs.len() as int,
                        input: st1.input,
                        output: st1.output,
                    };
                    match exec_block_s(st2, body, (fuel - 1) as nat) {
                        ExecR::Fail(err) => EvalR::Fail(err),
                        ExecR::Done(st3, out) => {
                            let st4 = StateS {
                                envs: st3.envs,
                                cur: st1.cur,
                                input: st3.input,
                                output: st3.output,
                            };
                            match out {
                                OutcomeS::Completed(_) => EvalR::Done(st4, ValueS::Null),
                                OutcomeS::Return(v) => EvalR::Done(st4, v),
                                _ => EvalR::Fail(ErrS::StrayControlFlow),
                            }
                        }
                    }
                },
            }
        },
        Some(_) => EvalR::Fail(ErrS::NotAFunction(callee)),
    }
}

/// The parameter map over name models rather than owned names.
pub open spec fn params_map_chars(params: Seq<Seq<char>>, vals: Seq<ValueS>) -> Map<
    Seq<char>,
    ValueS,
>
    decreases params,
{
    if params.len() == 0 || vals.len() == 0 {
        Map::empty()
    } else {
        params_map_chars(params.drop_last(), vals.drop_last()).insert(params.last(), vals.last())
    }
}

/// What evaluating an expression list yields: each element in order, left
/// to right, stopping at the first error.
pub open spec fn eval_exprs_s(st: StateS, es: Seq<Expression>, fuel: nat) -> EvalsR
    decreases fuel, exprs_size(es), 2int, es.len(),
{
    if es.len() == 0 {
        EvalsR::Done(st, Seq::empty())
    } else {
        match eval_expr_s(st, es[0], fuel) {
            EvalR::Done(st1, v) => match eval_exprs_s(st1, es.skip(1), fuel) {
                EvalsR::Done(st2, vals) => EvalsR::Done(st2, seq![v] + vals),
                EvalsR::Fail(err) => EvalsR::Fail(err),
            },
            EvalR::Fail(err) => EvalsR::Fail(err),
        }
    }
}

/// What executing one statement yields.
pub open spec fn exec_stmt_s(st: StateS, s: Statement, fuel: nat) -> ExecR
    decreases fuel, stmt_size(s), 1int,
{
    match s {
        Statement::ExprStmt(e) => match eval_expr_s(st, e, fuel) {
            EvalR::Done(st1, _) => ExecR::Done(st1, OutcomeS::Completed(ValueS::Null)),
            EvalR::Fail(err) => ExecR::Fail(err),
        },
        Statement::VarDecl { name, init, is_const: _ } => match init {
            Some(e) => match eval_expr_s(st, e, fuel) {
                EvalR::Done(st1, v) => ExecR::Done(
                    define_in(st1, st1.cur, name@, v),
                    OutcomeS::Completed(ValueS::Null),
                ),
                EvalR::Fail(err) => ExecR::Fail(err),
            },
            None => ExecR::Done(
                define_in(st, st.cur, name@, ValueS::Null),
                OutcomeS::Completed(ValueS::Null),
            ),
        },
        Statement::FuncDecl { name, params, body } => {
            let f = ValueS::Function {
                params: params@.map(|i: int, p: String| p@),
                body: body@,
                scope: st.cur,
            };
            ExecR::Done(define_in(st, st.cur, name@, f), OutcomeS::Completed(ValueS::Null))
        },
        Statement::If { condition, then_branch, else_branch } => match eval_expr_s(
            st,
            condition,
            fuel,
        ) {
            EvalR::Done(st1, v) => if truthy(v) {
                exec_block_s(st1, then_branch@, fuel)
            } else {
                exec_block_s(st1, else_branch@, fuel)
            },
            EvalR::Fail(err) => ExecR::Fail(err),
        },
        Statement::Loop { .. } => exec_loop_s(st, s, fuel),
        Statement::While { condition, .. } => match eval_expr_s(st, condition, fuel) {
            EvalR::Done(st1, v) => exec_while_s(st1, s, v, fuel),
            EvalR::Fail(err) => ExecR::Fail(err),
        },
        Statement::ForEach { variable: _, iterable, .. } => match eval_expr_s(st, iterable, fuel) {
            EvalR::Done(st1, v) => match v {
                ValueS::Str(chars) => exec_foreach_s(st1, s, chars, fuel),
                _ => ExecR::Fail(ErrS::NotIterable),
            },
            EvalR::Fail(err) => ExecR::Fail(err),
        },
        Statement::Return(value) => match value {
            Some(e) => match eval_expr_s(st, e, fuel) {
                EvalR::Done(st1, v) => ExecR::Done(st1, OutcomeS::Return(v)),
                EvalR::Fail(err) => ExecR::Fail(err),
            },
            None => ExecR::Done(st, OutcomeS::Return(ValueS::Null)),
        },
        Statement::Break => ExecR::Done(st, OutcomeS::Break),
        Statement::Continue => ExecR::Done(st, OutcomeS::Continue),
    }
}

/// What a loop statement yields: with a condition, the condition is checked
/// before each iteration; without one, only break or return leaves the
/// loop. A break completes the loop; a continue starts the next iteration;
/// a return is forwarded. Each iteration costs one unit of fuel.
pub open spec fn exec_loop_s(st: StateS, s: Statement, fuel: nat) -> ExecR
    decreases fuel, stmt_size(s), 0int,
{
    match s {
        Statement::Loop { condition, body } => if fuel == 0 {
            ExecR::Fail(ErrS::OutOfFuel)
        } else {
            let checked = match condition {
                Some(c) => eval_expr_s(st, c, fuel),
                None => EvalR::Done(st, ValueS::Bool(true)),
            };
            match checked {
                EvalR::Fail(err) => ExecR::Fail(err),
                EvalR::Done(st1, v) => if !truthy(v) {
                    ExecR::Done(st1, OutcomeS::Completed(ValueS::Null))
                } else {
                    match exec_block_s(st1, body@, fuel) {
                        ExecR::Fail(err) => ExecR::Fail(err),
                        ExecR::Done(st2, out) => match out {
                            OutcomeS::Break => ExecR::Done(
                                st2,
                                OutcomeS::Completed(ValueS::Null),
                            ),
                            OutcomeS::Return(v2) => ExecR::Done(st2, OutcomeS::Return(v2)),
                            _ => exec_loop_s(st2, s, (fuel - 1) as nat),
                        },
                    }
                },
            }
        },
        _ => ExecR::Fail(ErrS::StrayControlFlow),
    }
}

/// What the while-keyword form yields, with its two-evaluation quirk
/// preserved: `last` is the condition value most recently seen; while it is
/// truthy, the condition is evaluated once more, the body runs whatever
/// that new value is, and the new value is checked on the next pass. The
/// condition's side effects therefore fire twice per iteration.
pub open spec fn exec_while_s(st: StateS, s: Statement, last: ValueS, fuel: nat) -> ExecR
    decreases fuel, stmt_size(s), 0int,
{
    match s {
        Statement::While { condition, body } => if !truthy(last) {
            ExecR::Done(st, OutcomeS::Completed(ValueS::Null))
        } else if fuel == 0 {
            ExecR::Fail(ErrS::OutOfFuel)
        } else {
            match eval_expr_s(st, condition, fuel) {
                EvalR::Fail(err) => ExecR::Fail(err),
                EvalR::Done(st1, v) => match exec_block_s(st1, body@, fuel) {
                    ExecR::Fail(err) => ExecR::Fail(err),
                    ExecR::Done(st2, out) => match out {
                        OutcomeS::Break => ExecR::Done(st2, OutcomeS::Completed(ValueS::Null)),
                        OutcomeS::Return(v2) => ExecR::Done(st2, OutcomeS::Return(v2)),
                        _ => exec_while_s(st2, s, v, (fuel - 1) as nat),
                    },
                },
            }
        },
        _ => ExecR::Fail(ErrS::StrayControlFlow),
    }
}

/// What a for-each over a string yields: the loop variable is rebound in
/// the current frame to each one-character string in order — not a fresh
/// frame per iteration, so the binding persists after the loop.
pub open spec fn exec_foreach_s(st: StateS, s: Statement, chars: Seq<char>, fuel: nat) -> ExecR
    decreases fuel, stmt_size(s), 0int, chars.len(),
{
    match s {
        Statement::ForEach { variable, iterable: _, body } => if chars.len() == 0 {
            ExecR::Done(st, OutcomeS::Completed(ValueS::Null))
        } else if fuel == 0 {
            ExecR::Fail(ErrS::OutOfFuel)
        } else {
            let st1 = define_in(st, st.cur, variable@, ValueS::Str(seq![chars[0]]));
            match exec_block_s(st1, body@, fuel) {
                ExecR::Fail(err) => ExecR::Fail(err),
                ExecR::Done(st2, out) => match out {
                    OutcomeS::Break => ExecR::Done(st2, OutcomeS::Completed(ValueS::Null)),
                    OutcomeS::Return(v2) => ExecR::Done(st2, OutcomeS::Return(v2)),
                    _ => exec_foreach_s(st2, s, chars.skip(1), (fuel - 1) as nat),
                },
            }
        },
        _ => ExecR::Fail(ErrS::StrayControlFlow),
    }
}

/// What a statement list yields: the statements in order, stopping at the
/// first non-completed outcome and forwarding it to the enclosing
/// construct.
pub open spec fn exec_block_s(st: StateS, ss: Seq<Statement>, fuel: nat) -> ExecR
    decreases fuel, stmts_size(ss), 2int, ss.len(),
{
    if ss.len() == 0 {
        ExecR::Done(st, OutcomeS::Completed(ValueS::Null))
    } else {
        match exec_stmt_s(st, ss[0], fuel) {
            ExecR::Fail(err) => ExecR::Fail(err),
            ExecR::Done(st1, out) => match out {
                OutcomeS::Completed(_) => exec_block_s(st1, ss.skip(1), fuel),
                _ => ExecR::Done(st1, out),
            },
        }
    }
}

} // verus!
