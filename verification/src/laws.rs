//! The language's testable laws, proved once and for all over the big-step
//! semantics: lexical scoping, the absence of short-circuit evaluation,
//! array bounds behaviour, and the division-by-zero rule.

use vstd::prelude::*;
use crate::ast::{BinOp, Expression, Statement};
use crate::env::EnvS;
use crate::errors::ErrS;
use crate::semantics::{
    eval_call_s, eval_expr_s, eval_exprs_s, exec_block_s, lookup_env, lookup_from, params_map_chars,
    parents_ok, EvalR, EvalsR, ExecR, OutcomeS, StateS,
};
use crate::value::{in_num_range, quot_trunc, truthy, ValueS};

verus! {

/// Truthiness and short-circuit: a logical operator always evaluates both
/// operands before combining their truthiness. The result state is the one
/// `right`'s evaluation produced — its side effects fire — even where the
/// left operand alone would decide a conventional short-circuit.
pub proof fn lemma_no_short_circuit(
    st: StateS,
    left: Box<Expression>,
    right: Box<Expression>,
    op: BinOp,
    fuel: nat,
    st1: StateS,
    st2: StateS,
    a: ValueS,
    b: ValueS,
)
    requires
        op == BinOp::And || op == BinOp::Or,
        eval_expr_s(st, *left, fuel) == EvalR::Done(st1, a),
        eval_expr_s(st1, *right, fuel) == EvalR::Done(st2, b),
    ensures
        eval_expr_s(st, Expression::Binary { left, op, right }, fuel) == EvalR::Done(
            st2,
            ValueS::Bool(
                if op == BinOp::And {
                    truthy(a) && truthy(b)
                } else {
                    truthy(a) || truthy(b)
                },
            ),
        ),
{
}

/// Division by zero: where both operands of `/` evaluate to numbers, a zero
/// divisor fails with the dedicated division error — never infinity and
/// never a silent null — and a nonzero divisor yields the truncated
/// quotient whenever it is in the number range.
pub proof fn lemma_division_by_zero(
    st: StateS,
    left: Box<Expression>,
    right: Box<Expression>,
    fuel: nat,
    st1: StateS,
    st2: StateS,
    x: int,
    y: int,
)
    requires
        eval_expr_s(st, *left, fuel) == EvalR::Done(st1, ValueS::Num(x)),
        eval_expr_s(st1, *right, fuel) == EvalR::Done(st2, ValueS::Num(y)),
    ensures
        y == 0 ==> eval_expr_s(st, Expression::Binary { left, op: BinOp::Div, right }, fuel)
            == EvalR::Fail(ErrS::DivisionByZero),
        y != 0 && in_num_range(quot_trunc(x, y)) ==> eval_expr_s(
            st,
            Expression::Binary { left, op: BinOp::Div, right },
            fuel,
        ) == EvalR::Done(st2, ValueS::Num(quot_trunc(x, y))),
{
}

/// Array bounds: indexing at `i` succeeds with the element exactly when
/// `0 <= i < length`, and otherwise fails with the out-of-range error
/// naming `i` and the array's length.
pub proof fn lemma_index_bounds(
    st: StateS,
    array: Box<Expression>,
    index: Box<Expression>,
    fuel: nat,
    st1: StateS,
    st2: StateS,
    items: Seq<ValueS>,
    i: int,
)
    requires
        eval_expr_s(st, *array, fuel) == EvalR::Done(st1, ValueS::Array(items)),
        eval_expr_s(st1, *index, fuel) == EvalR::Done(st2, ValueS::Num(i)),
    ensures
        0 <= i < items.len() ==> eval_expr_s(st, Expression::Index { array, index }, fuel)
            == EvalR::Done(st2, items[i]),
        !(0 <= i < items.len()) ==> eval_expr_s(st, Expression::Index { array, index }, fuel)
            == EvalR::Fail(ErrS::IndexOutOfRange { index: i, len: items.len() as int }),
{
}

/// Array bounds for remove-at: removing at `i` succeeds with a new array
/// without the element exactly when `0 <= i < length`, and otherwise fails
/// with the out-of-range error naming `i` and the length.
pub proof fn lemma_remove_bounds(
    st: StateS,
    array: Box<Expression>,
    index: Box<Expression>,
    fuel: nat,
    st1: StateS,
    st2: StateS,
    items: Seq<ValueS>,
    i: int,
)
    requires
        eval_expr_s(st, *array, fuel) == EvalR::Done(st1, ValueS::Array(items)),
        eval_expr_s(st1, *index, fuel) == EvalR::Done(st2, ValueS::Num(i)),
    ensures
        0 <= i < items.len() ==> eval_expr_s(st, Expression::RemoveAt { array, index }, fuel)
            == EvalR::Done(st2, ValueS::Array(items.remove(i))),
        !(0 <= i < items.len()) ==> eval_expr_s(st, Expression::RemoveAt { array, index }, fuel)
            == EvalR::Fail(ErrS::IndexOutOfRange { index: i, len: items.len() as int }),
{
}

/// Lexical scoping, part one: a call binds exactly the parameters in a
/// fresh frame whose parent is the function's *defining* scope — never the
/// caller's frame — and the body runs there; a return outcome supplies the
/// result, falling off the end yields null.
pub proof fn lemma_call_uses_defining_scope(
    st: StateS,
    callee: Seq<char>,
    args: Seq<Expression>,
    fuel: nat,
    params: Seq<Seq<char>>,
    body: Seq<Statement>,
    scope: int,
    st1: StateS,
    vals: Seq<ValueS>,
)
    requires
        lookup_env(st.envs, st.cur, callee) == Some(ValueS::Function { params, body, scope }),
        params.len() == args.len(),
        eval_exprs_s(st, args, fuel) == EvalsR::Done(st1, vals),
        fuel > 0,
    ensures
        ({
            let frame = EnvS { vars: params_map_chars(params, vals), parent: Some(scope) };
            let st2 = StateS {
                envs: st1.envs.push(frame),
                cur: st1.envs.len() as int,
                input: st1.input,
                output: st1.output,
            };
            eval_call_s(st, callee, args, fuel) == (match exec_block_s(
                st2,
                body,
                (fuel - 1) as nat,
            ) {
                ExecR::Fail(err) => EvalR::Fail(err),
                ExecR::Done(st3, out) => {
                    let st4 = StateS {
                        envs: st3.envs,
                        cur: st1.cur,
                        input: st3.input,
                        output: st3.output,
                    };
                    match out {
                        OutcomeS::Completed(_) => EvalR::Done(st4, ValueS::Null),
                        OutcomeS::Return(v) => EvalR::Done(st4, v),
                        _ => EvalR::Fail(ErrS::StrayControlFlow),
                    }
                },
            })
        }),
{
}

/// Pushing the call frame changes no resolution below it: a lookup that
/// starts at any frame of the old arena sees the same bindings afterwards.
pub proof fn lemma_push_preserves_lookup(envs: Seq<EnvS>, frame: EnvS, e: EnvS, name: Seq<char>)
    requires
        parents_ok(envs),
        frame.parent matches Some(p) ==> 0 <= p < envs.len(),
        e.parent matches Some(p) ==> 0 <= p < envs.len(),
    ensures
        lookup_from(envs.push(frame), e, name) == lookup_from(envs, e, name),
    decreases (match e.parent {
        Some(p) => p + 1,
        None => 0,
    }),
{
    assert(parents_ok(envs.push(frame))) by {
        assert forall|i: int| 0 <= i < envs.push(frame).len() implies match (#[trigger] envs.push(
            frame,
        )[i]).parent {
            Some(p) => 0 <= p < i,
            None => true,
        } by {
            if i < envs.len() {
                assert(envs.push(frame)[i] == envs[i]);
            }
        }
    }
    if !e.vars.contains_key(name) {
        match e.parent {
            Some(p) => {
                assert(envs.push(frame)[p] == envs[p]);
                lemma_push_preserves_lookup(envs, frame, envs[p], name);
            }
            None => {}
        }
    }
}

/// Lexical scoping, part two: inside the call frame, a name that is not a
/// parameter resolves through the function's defining scope in the old
/// arena — the caller's own frame never takes part.
pub proof fn lemma_lexical_resolution(
    st1: StateS,
    params: Seq<Seq<char>>,
    vals: Seq<ValueS>,
    scope: int,
    name: Seq<char>,
)
    requires
        parents_ok(st1.envs),
        0 <= scope < st1.envs.len(),
    ensures
        ({
            let frame = EnvS { vars: params_map_chars(params, vals), parent: Some(scope) };
            let envs2 = st1.envs.push(frame);
            lookup_env(envs2, st1.envs.len() as int, name) == (if frame.vars.contains_key(name) {
                Some(frame.vars[name])
            } else {
                lookup_env(st1.envs, scope, name)
            })
        }),
{
    let frame = EnvS { vars: params_map_chars(params, vals), parent: Some(scope) };
    let envs2 = st1.envs.push(frame);
    assert(envs2[st1.envs.len() as int] == frame);
    if !frame.vars.contains_key(name) {
        assert(envs2[scope] == st1.envs[scope]);
        lemma_push_preserves_lookup(st1.envs, frame, st1.envs[scope], name);
    }
}

} // verus!
