//! The tree-walking interpreter. Every method is verified against the
//! big-step semantics in [`crate::semantics`]: on success the new state and
//! the result are exactly what the semantics yields, and on failure the
//! error is exactly the semantics' error.

use vstd::prelude::*;
use crate::ast::{expr_size, exprs_size, stmt_size, stmts_size, Expression, Program, Statement};
use crate::env::{arena_wf, envs_deep, Environment, EnvS};
use crate::errors::{ErrS, RuntimeError};
use crate::semantics::{
    define_in, env_scopes_ok, eval_call_s, eval_expr_s, eval_exprs_s, exec_block_s,
    exec_foreach_s, exec_loop_s, exec_stmt_s, exec_while_s, initial_state, lemma_lookup_scopes_ok,
    lemma_value_scopes_ok_mono, lemma_values_scopes_ok, lemma_values_scopes_ok_mono, lookup_env,
    lookup_from, parents_ok, push_output, state_wf, value_scopes_ok, values_scopes_ok, EvalR,
    EvalsR, ExecR, OutcomeS, StateS,
};
use crate::value::{deep_values, lemma_deep_values, Value, ValueS};
use crate::value::BuiltinKind;

verus! {

/// What a statement's execution yields at runtime; the executable twin of
/// [`OutcomeS`].
#[derive(Debug)]
pub enum Outcome {
    /// The statement ran to its end; the value is always null today.
    Completed(Value),
    /// A break signal travelling to the innermost loop.
    Break,
    /// A continue signal travelling to the innermost loop.
    Continue,
    /// A return signal carrying the call's result.
    Return(Value),
}

impl Outcome {
    /// The mathematical model of this outcome.
    pub open spec fn deep(self) -> OutcomeS {
        match self {
            Outcome::Completed(v) => OutcomeS::Completed(v.deep()),
            Outcome::Break => OutcomeS::Break,
            Outcome::Continue => OutcomeS::Continue,
            Outcome::Return(v) => OutcomeS::Return(v.deep()),
        }
    }

    /// Every captured scope in a value the outcome carries lies below `n`.
    pub open spec fn scopes_ok(self, n: int) -> bool {
        match self {
            Outcome::Completed(v) => value_scopes_ok(v.deep(), n),
            Outcome::Return(v) => value_scopes_ok(v.deep(), n),
            _ => true,
        }
    }
}

/// An expression's executable result agrees with the semantics: on success
/// the final state and the value are the semantics', on failure the error
/// is the semantics'.
pub open spec fn expr_matches(
    r0: EvalR,
    st1: StateS,
    r: Result<Value, RuntimeError>,
) -> bool {
    match r0 {
        EvalR::Done(st, v) => st1 == st && (r matches Ok(rv) && rv.deep() == v),
        EvalR::Fail(e) => r matches Err(re) && re.deep() == e,
    }
}

/// An argument list's executable result agrees with the semantics.
pub open spec fn exprs_match(
    r0: EvalsR,
    st1: StateS,
    r: Result<Vec<Value>, RuntimeError>,
) -> bool {
    match r0 {
        EvalsR::Done(st, vals) => st1 == st && (r matches Ok(rv) && deep_values(rv@) == vals),
        EvalsR::Fail(e) => r matches Err(re) && re.deep() == e,
    }
}

/// A statement's executable result agrees with the semantics.
pub open spec fn stmt_matches(r0: ExecR, st1: StateS, r: Result<Outcome, RuntimeError>) -> bool {
    match r0 {
        ExecR::Done(st, out) => st1 == st && (r matches Ok(ro) && ro.deep() == out),
        ExecR::Fail(e) => r matches Err(re) && re.deep() == e,
    }
}

/// The interpreter: the environment arena, the current frame, and the
/// program's input and output channels, modelled as line buffers.
pub struct Interpreter {
    environments: Vec<Environment>,
    globals: usize,
    current_env: usize,
    input: Vec<String>,
    input_pos: usize,
    output: Vec<String>,
}

impl Interpreter {
    /// The mathematical model of the interpreter's whole state.
    pub closed spec fn deep(self) -> StateS {
        StateS {
            envs: envs_deep(self.environments@),
            cur: self.current_env as int,
            input: self.input@.map(|i: int, s: String| s@).skip(self.input_pos as int),
            output: self.output@.map(|i: int, s: String| s@),
        }
    }

    /// The interpreter's invariant: the modelled state is well-formed, each
    /// frame keeps its own invariant, and the input cursor is in range.
    pub closed spec fn wf(self) -> bool {
        &&& state_wf(self.deep())
        &&& arena_wf(self.environments@)
        &&& self.input_pos <= self.input@.len()
    }

    /// A fresh interpreter: one global frame, pre-populated with the print
    /// and input builtins, no input and no output.
    pub fn new() -> (r: Interpreter)
        ensures
            r.wf(),
            r.deep() == initial_state(),
    {
        let mut env = Environment::new();
        env.define("打印", Value::Builtin(BuiltinKind::Print));
        env.define("输入", Value::Builtin(BuiltinKind::Input));
        let mut environments: Vec<Environment> = Vec::new();
        environments.push(env);
        let r = Interpreter {
            environments,
            globals: 0,
            current_env: 0,
            input: Vec::new(),
            input_pos: 0,
            output: Vec::new(),
        };
        proof {
            reveal_strlit("打印");
            reveal_strlit("输入");
            assert("打印"@ =~= seq!['打', '印']);
            assert("输入"@ =~= seq!['输', '入']);
            assert(r.deep().envs =~= initial_state().envs);
            assert(r.deep().input =~= initial_state().input);
            assert(r.deep().output =~= initial_state().output);
            assert(r.deep() == initial_state());
            let e0 = r.deep().envs[0];
            assert forall|k: Seq<char>| e0.vars.contains_key(k) implies #[trigger] value_scopes_ok(
                e0.vars[k],
                1,
            ) by {}
        }
        r
    }

    /// Hands the interpreter the input lines the program may read.
    pub fn provide_input(&mut self, lines: Vec<String>)
        requires
            old(self).wf(),
        ensures
            final(self).wf(),
            final(self).deep() == (StateS {
                input: lines@.map(|i: int, s: String| s@),
                ..old(self).deep()
            }),
    {
        self.input = lines;
        self.input_pos = 0;
        proof {
            assert(self.deep().input =~= lines@.map(|i: int, s: String| s@));
            assert(self.deep() == (StateS {
                input: lines@.map(|i: int, s: String| s@),
                ..old(self).deep()
            }));
        }
    }

    /// The lines the program has printed so far, in order.
    pub fn output_lines(&self) -> (r: &Vec<String>)
        ensures
            r@.map(|i: int, s: String| s@) == self.deep().output,
    {
        &self.output
    }

    /// Resolves `name` through the current frame's scope chain, per the
    /// semantics' read rule.
    fn lookup(&self, name: &str) -> (r: Option<Value>)
        requires
            self.wf(),
        ensures
            match r {
                Some(v) => lookup_env(self.deep().envs, self.deep().cur, name@) == Some(v.deep())
                    && value_scopes_ok(v.deep(), self.deep().envs.len() as int),
                None => lookup_env(self.deep().envs, self.deep().cur, name@) is None,
            },
    {
        proof {
            assert(self.deep().envs[self.current_env as int]
                == self.environments@[self.current_env as int].deep());
            lemma_lookup_scopes_ok(
                self.deep().envs,
                self.environments@[self.current_env as int].deep(),
                name@,
                self.deep().envs.len() as int,
            );
        }
        let e = &self.environments[self.current_env];
        e.get_with_scope_chain(name, self.environments.as_slice())
    }

    /// Binds `name` to `value` in the current frame, per the semantics'
    /// declaration rule.
    fn define_current(&mut self, name: &str, value: Value)
        requires
            old(self).wf(),
            value_scopes_ok(value.deep(), old(self).deep().envs.len() as int),
        ensures
            final(self).wf(),
            final(self).deep() == define_in(
                old(self).deep(),
                old(self).deep().cur,
                name@,
                value.deep(),
            ),
    {
        let ghost old_deep = self.deep();
        let ghost vdeep = value.deep();
        let idx = self.current_env;
        self.environments[idx].define(name, value);
        proof {
            let target = define_in(old_deep, old_deep.cur, name@, vdeep);
            assert(self.deep().envs =~= target.envs);
            assert(self.deep().input =~= target.input);
            assert(self.deep().output =~= target.output);
            assert(self.deep() == target);
            let n = self.deep().envs.len() as int;
            assert forall|i: int| 0 <= i < n implies env_scopes_ok(
                #[trigger] self.deep().envs[i],
                n,
            ) by {
                let e = self.deep().envs[i];
                assert forall|k: Seq<char>| e.vars.contains_key(k) implies
                    #[trigger] value_scopes_ok(e.vars[k], n) by {
                    if i == idx as int && k == name@ {
                        assert(e.vars[k] == vdeep);
                    } else {
                        assert(e.vars[k] == old_deep.envs[i].vars[k]);
                        assert(old_deep.envs[i].vars.contains_key(k));
                    }
                }
            }
            assert(state_wf(self.deep()));
        }
    }

    /// Reads the next input line, or the empty string once input is
    /// exhausted, per the semantics' input rule.
    fn read_input_line(&mut self) -> (r: String)
        requires
            old(self).wf(),
        ensures
            final(self).wf(),
            old(self).deep().input.len() > 0 ==> r@ == old(self).deep().input[0]
                && final(self).deep() == (StateS {
                input: old(self).deep().input.skip(1),
                ..old(self).deep()
            }),
            old(self).deep().input.len() == 0 ==> r@ == Seq::<char>::empty() && final(self).deep()
                == old(self).deep(),
    {
        if self.input_pos < self.input.len() {
            let line = self.input[self.input_pos].clone();
            self.input_pos = self.input_pos + 1;
            proof {
                assert(old(self).deep().input[0] == line@);
                assert(self.deep().input =~= old(self).deep().input.skip(1));
                assert(self.deep() == (StateS {
                    input: old(self).deep().input.skip(1),
                    ..old(self).deep()
                }));
            }
            line
        } else {
            String::new()
        }
    }

    /// Rebinds `name` in the current frame alone, per the semantics'
    /// asymmetric assignment rule.
    fn assign_current(&mut self, name: &str, value: Value) -> (r: Result<(), RuntimeError>)
        requires
            old(self).wf(),
            value_scopes_ok(value.deep(), old(self).deep().envs.len() as int),
        ensures
            final(self).wf(),
            old(self).deep().envs[old(self).deep().cur].vars.contains_key(name@) ==> r is Ok
                && final(self).deep() == define_in(
                old(self).deep(),
                old(self).deep().cur,
                name@,
                value.deep(),
            ),
            !old(self).deep().envs[old(self).deep().cur].vars.contains_key(name@)
                ==> final(self).deep() == old(self).deep() && (match r {
                Err(e) => e.deep() == ErrS::UndefinedVariable(name@),
                Ok(_) => false,
            }),
    {
        let ghost old_deep = self.deep();
        let ghost vdeep = value.deep();
        let idx = self.current_env;
        let r = self.environments[idx].assign(name, value);
        proof {
            assert(old_deep.envs[idx as int] == old(self).environments@[idx as int].deep());
            if old_deep.envs[old_deep.cur].vars.contains_key(name@) {
                let target = define_in(old_deep, old_deep.cur, name@, vdeep);
                assert(self.deep().envs =~= target.envs);
                assert(self.deep() == target);
                let n = self.deep().envs.len() as int;
                assert forall|i: int| 0 <= i < n implies env_scopes_ok(
                    #[trigger] self.deep().envs[i],
                    n,
                ) by {
                    let e = self.deep().envs[i];
                    assert forall|k: Seq<char>| e.vars.contains_key(k) implies
                        #[trigger] value_scopes_ok(e.vars[k], n) by {
                        if i == idx as int && k == name@ {
                            assert(e.vars[k] == vdeep);
                        } else {
                            assert(e.vars[k] == old_deep.envs[i].vars[k]);
                            assert(old_deep.envs[i].vars.contains_key(k));
                        }
                    }
                }
                assert(state_wf(self.deep()));
            } else {
                assert(self.deep().envs =~= old_deep.envs);
                assert(self.deep() == old_deep);
            }
        }
        r
    }

    /// Appends one rendered line to the program's output, per the
    /// semantics' print rule.
    fn print_value(&mut self, v: &Value)
        requires
            old(self).wf(),
        ensures
            final(self).wf(),
            final(self).deep() == push_output(
                old(self).deep(),
                crate::value::print_render(v.deep()),
            ),
    {
        let line = match v {
            Value::Str(s) => s.clone(),
            _ => v.render_string(),
        };
        self.output.push(line);
        proof {
            assert(self.deep().output =~= push_output(
                old(self).deep(),
                crate::value::print_render(v.deep()),
            ).output);
            assert(self.deep() == push_output(
                old(self).deep(),
                crate::value::print_render(v.deep()),
            ));
        }
    }
    /// Evaluates one expression, per [`eval_expr_s`].
    #[verifier::rlimit(60)]
    fn evaluate_expression(&mut self, e: &Expression, fuel: u64) -> (r: Result<
        Value,
        RuntimeError,
    >)
        requires
            old(self).wf(),
        ensures
            final(self).wf(),
            old(self).deep().envs.len() <= final(self).deep().envs.len(),
            expr_matches(eval_expr_s(old(self).deep(), *e, fuel as nat), final(self).deep(), r),
            r matches Ok(v) ==> value_scopes_ok(v.deep(), final(self).deep().envs.len() as int),
        decreases fuel, expr_size(*e), 0int,
    {
        match e {
            Expression::Number(n) => Ok(Value::Num(*n)),
            Expression::Str(s) => Ok(Value::Str(s.clone())),
            Expression::BoolLit(b) => Ok(Value::Bool(*b)),
            Expression::Variable(name) => match self.lookup(name.as_str()) {
                Some(v) => Ok(v),
                None => Err(RuntimeError::UndefinedVariable(name.clone())),
            },
            Expression::Binary { left, op, right } => {
                let a = match self.evaluate_expression(left, fuel) {
                    Ok(v) => v,
                    Err(err) => {
                        return Err(err);
                    }
                };
                let b = match self.evaluate_expression(right, fuel) {
                    Ok(v) => v,
                    Err(err) => {
                        return Err(err);
                    }
                };
                match op {
                    crate::ast::BinOp::Add => crate::value::add_values(&a, &b),
                    crate::ast::BinOp::Sub => crate::value::subtract_values(&a, &b),
                    crate::ast::BinOp::Mul => crate::value::multiply_values(&a, &b),
                    crate::ast::BinOp::Div => crate::value::divide_values(&a, &b),
                    crate::ast::BinOp::Eq => Ok(Value::Bool(a.is_equal(&b))),
                    crate::ast::BinOp::Ne => Ok(Value::Bool(!a.is_equal(&b))),
                    crate::ast::BinOp::Gt => crate::value::greater_than(&a, &b),
                    crate::ast::BinOp::Lt => crate::value::less_than(&a, &b),
                    crate::ast::BinOp::Ge => crate::value::greater_equal(&a, &b),
                    crate::ast::BinOp::Le => crate::value::less_equal(&a, &b),
                    crate::ast::BinOp::And => {
                        let ta = a.is_truthy();
                        let tb = b.is_truthy();
                        Ok(Value::Bool(ta && tb))
                    }
                    crate::ast::BinOp::Or => {
                        let ta = a.is_truthy();
                        let tb = b.is_truthy();
                        Ok(Value::Bool(ta || tb))
                    }
                }
            }
            Expression::Unary { op, operand } => {
                let v = match self.evaluate_expression(operand, fuel) {
                    Ok(v) => v,
                    Err(err) => {
                        return Err(err);
                    }
                };
                match op {
                    crate::ast::UnOp::Not => Ok(Value::Bool(!v.is_truthy())),
                }
            }
            Expression::Call { callee, args } => self.eval_call(callee, args, fuel),
            Expression::Assign { target, value } => {
                let v = match self.evaluate_expression(value, fuel) {
                    Ok(v) => v,
                    Err(err) => {
                        return Err(err);
                    }
                };
                match self.assign_current(target.as_str(), v.duplicate()) {
                    Ok(_) => Ok(v),
                    Err(err) => Err(err),
                }
            }
            Expression::ArrayLiteral(elements) => {
                proof {
                    assert(elements@.skip(0) =~= elements@);
                }
                match self.eval_args(elements, 0, fuel) {
                    Ok(vals) => Ok(Value::Array(vals)),
                    Err(err) => Err(err),
                }
            }
            Expression::Index { array, index } => {
                let av = match self.evaluate_expression(array, fuel) {
                    Ok(v) => v,
                    Err(err) => {
                        return Err(err);
                    }
                };
                let ghost len_mid = self.deep().envs.len() as int;
                let iv = match self.evaluate_expression(index, fuel) {
                    Ok(v) => v,
                    Err(err) => {
                        return Err(err);
                    }
                };
                proof {
                    lemma_value_scopes_ok_mono(
                        av.deep(),
                        len_mid,
                        self.deep().envs.len() as int,
                    );
                }
                match (av, iv) {
                    (Value::Array(items), Value::Num(i)) => {
                        proof {
                            lemma_deep_values(items@);
                            lemma_values_scopes_ok(
                                deep_values(items@),
                                self.deep().envs.len() as int,
                            );
                        }
                        if 0 <= i && (i as u64) < (items.len() as u64) {
                            proof {
                                assert((i as int) < items@.len());
                            }
                            Ok(items[i as usize].duplicate())
                        } else {
                            Err(RuntimeError::IndexOutOfRange { index: i, len: items.len() })
                        }
                    }
                    _ => Err(RuntimeError::IndexTypeMismatch),
                }
            }
            Expression::Length(array) => {
                let av = match self.evaluate_expression(array, fuel) {
                    Ok(v) => v,
                    Err(err) => {
                        return Err(err);
                    }
                };
                match av {
                    Value::Array(items) => {
                        proof {
                            lemma_deep_values(items@);
                        }
                        if (items.len() as u64) <= 0x7fff_ffff_ffff_ffffu64 {
                            Ok(Value::Num(items.len() as i64))
                        } else {
                            Err(RuntimeError::Overflow)
                        }
                    }
                    _ => Err(RuntimeError::LengthNeedsArray),
                }
            }
            Expression::Append { array, element } => {
                let av = match self.evaluate_expression(array, fuel) {
                    Ok(v) => v,
                    Err(err) => {
                        return Err(err);
                    }
                };
                let ghost len_mid = self.deep().envs.len() as int;
                let ev = match self.evaluate_expression(element, fuel) {
                    Ok(v) => v,
                    Err(err) => {
                        return Err(err);
                    }
                };
                proof {
                    lemma_value_scopes_ok_mono(
                        av.deep(),
                        len_mid,
                        self.deep().envs.len() as int,
                    );
                }
                match av {
                    Value::Array(mut items) => {
                        let ghost before = items@;
                        let ghost n = self.deep().envs.len() as int;
                        items.push(ev);
                        proof {
                            assert(items@.drop_last() =~= before);
                            lemma_deep_values(items@);
                            lemma_deep_values(before);
                            lemma_values_scopes_ok(deep_values(before), n);
                            lemma_values_scopes_ok(deep_values(items@), n);
                            assert forall|j: int|
                                0 <= j < items@.len() implies #[trigger] value_scopes_ok(
                                deep_values(items@)[j],
                                n,
                            ) by {
                                if j < before.len() {
                                    assert(items@[j] == before[j]);
                                    assert(deep_values(before)[j] == before[j].deep());
                                }
                            }
                        }
                        Ok(Value::Array(items))
                    }
                    _ => Err(RuntimeError::AppendNeedsArray),
                }
            }
            Expression::RemoveAt { array, index } => {
                let av = match self.evaluate_expression(array, fuel) {
                    Ok(v) => v,
                    Err(err) => {
                        return Err(err);
                    }
                };
                let ghost len_mid = self.deep().envs.len() as int;
                let iv = match self.evaluate_expression(index, fuel) {
                    Ok(v) => v,
                    Err(err) => {
                        return Err(err);
                    }
                };
                proof {
                    lemma_value_scopes_ok_mono(
                        av.deep(),
                        len_mid,
                        self.deep().envs.len() as int,
                    );
                }
                match (av, iv) {
                    (Value::Array(mut items), Value::Num(i)) => {
                        proof {
                            lemma_deep_values(items@);
                        }
                        if 0 <= i && (i as u64) < (items.len() as u64) {
                            proof {
                                assert((i as int) < items@.len());
                            }
                            let ghost before = items@;
                            let ghost n = self.deep().envs.len() as int;
                            items.remove(i as usize);
                            proof {
                                lemma_deep_values(items@);
                                lemma_deep_values(before);
                                before.remove_ensures(i as int);
                                deep_values(before).remove_ensures(i as int);
                                assert forall|j: int|
                                    0 <= j < items@.len() implies deep_values(items@)[j]
                                    == deep_values(before).remove(i as int)[j] by {
                                    if j < i as int {
                                        assert(items@[j] == before[j]);
                                        assert(deep_values(before)[j] == before[j].deep());
                                    } else {
                                        assert(items@[j] == before[j + 1]);
                                        assert(deep_values(before)[j + 1] == before[j
                                            + 1].deep());
                                    }
                                }
                                assert(deep_values(items@) =~= deep_values(before).remove(
                                    i as int,
                                ));
                                lemma_values_scopes_ok(deep_values(before), n);
                                lemma_values_scopes_ok(deep_values(items@), n);
                            }
                            Ok(Value::Array(items))
                        } else {
                            Err(RuntimeError::IndexOutOfRange { index: i, len: items.len() })
                        }
                    }
                    _ => Err(RuntimeError::RemoveTypeMismatch),
                }
            }
        }
    }

    /// Evaluates the argument list from position `idx` on, left to right,
    /// per [`eval_exprs_s`].
    fn eval_args(&mut self, args: &Vec<Expression>, idx: usize, fuel: u64) -> (r: Result<
        Vec<Value>,
        RuntimeError,
    >)
        requires
            old(self).wf(),
            idx <= args@.len(),
        ensures
            final(self).wf(),
            old(self).deep().envs.len() <= final(self).deep().envs.len(),
            exprs_match(
                eval_exprs_s(old(self).deep(), args@.skip(idx as int), fuel as nat),
                final(self).deep(),
                r,
            ),
            r matches Ok(vs) ==> values_scopes_ok(
                deep_values(vs@),
                final(self).deep().envs.len() as int,
            ) && vs@.len() == args@.len() - idx,
        decreases fuel, exprs_size(args@.skip(idx as int)), 2int, args@.len() - idx,
    {
        let ghost tail = args@.skip(idx as int);
        if idx == args.len() {
            proof {
                assert(tail.len() == 0);
                lemma_values_scopes_ok(
                    deep_values(Seq::<Value>::empty()),
                    self.deep().envs.len() as int,
                );
            }
            Ok(Vec::new())
        } else {
            proof {
                assert(tail[0] == args@[idx as int]);
                assert(exprs_size(tail) == expr_size(tail[0]) + exprs_size(tail.skip(1)));
            }
            let v = match self.evaluate_expression(&args[idx], fuel) {
                Ok(v) => v,
                Err(err) => {
                    return Err(err);
                }
            };
            let ghost len_mid = self.deep().envs.len() as int;
            proof {
                assert(args@.skip(idx + 1 as int) =~= tail.skip(1));
            }
            let rest = match self.eval_args(args, idx + 1, fuel) {
                Ok(vs) => vs,
                Err(err) => {
                    return Err(err);
                }
            };
            let ghost rest0 = rest@;
            let ghost n = self.deep().envs.len() as int;
            let mut out: Vec<Value> = Vec::new();
            out.push(v);
            let mut rest_m = rest;
            out.append(&mut rest_m);
            proof {
                lemma_deep_values(out@);
                lemma_deep_values(rest0);
                assert forall|j: int|
                    0 <= j < out@.len() implies deep_values(out@)[j] == (seq![out@[0].deep()]
                    + deep_values(rest0))[j] by {
                    if j > 0 {
                        assert(out@[j] == rest0[j - 1]);
                        assert(deep_values(rest0)[j - 1] == rest0[j - 1].deep());
                    }
                }
                assert(deep_values(out@) =~= seq![out@[0].deep()] + deep_values(rest0));
                lemma_value_scopes_ok_mono(out@[0].deep(), len_mid, n);
                lemma_values_scopes_ok(deep_values(rest0), n);
                lemma_values_scopes_ok(deep_values(out@), n);
                assert forall|j: int|
                    0 <= j < out@.len() implies #[trigger] value_scopes_ok(
                    deep_values(out@)[j],
                    n,
                ) by {
                    if j > 0 {
                        assert(deep_values(rest0)[j - 1] == rest0[j - 1].deep());
                    }
                }
            }
            Ok(out)
        }
    }

    /// Evaluates a call, per [`eval_call_s`].
    #[verifier::loop_isolation(false)]
    fn eval_call(&mut self, callee: &String, args: &Vec<Expression>, fuel: u64) -> (r: Result<
        Value,
        RuntimeError,
    >)
        requires
            old(self).wf(),
        ensures
            final(self).wf(),
            old(self).deep().envs.len() <= final(self).deep().envs.len(),
            expr_matches(
                eval_call_s(old(self).deep(), callee@, args@, fuel as nat),
                final(self).deep(),
                r,
            ),
            r matches Ok(v) ==> value_scopes_ok(v.deep(), final(self).deep().envs.len() as int),
        decreases fuel, exprs_size(args@), 3int,
    {
        let func = self.lookup(callee.as_str());
        match func {
            None => Err(RuntimeError::UndefinedFunction(callee.clone())),
            Some(Value::Builtin(BuiltinKind::Print)) => {
                if args.len() != 1 {
                    return Err(RuntimeError::PrintArity);
                }
                proof {
                    assert(exprs_size(args@) == expr_size(args@[0]) + exprs_size(args@.skip(1)));
                }
                let v = match self.evaluate_expression(&args[0], fuel) {
                    Ok(v) => v,
                    Err(err) => {
                        return Err(err);
                    }
                };
                self.print_value(&v);
                Ok(Value::Null)
            }
            Some(Value::Builtin(BuiltinKind::Input)) => {
                if args.len() != 0 {
                    return Err(RuntimeError::InputArity);
                }
                let line = self.read_input_line();
                Ok(Value::Str(line))
            }
            Some(Value::Function { params, body, scope }) => {
                let params_vec: &Vec<String> = crate::value::rc_deref(&params);
                if params_vec.len() != args.len() {
                    return Err(
                        RuntimeError::ArityMismatch {
                            expected: params_vec.len(),
                            got: args.len(),
                        },
                    );
                }
                proof {
                    assert(args@.skip(0) =~= args@);
                }
                let vals = match self.eval_args(args, 0, fuel) {
                    Ok(vs) => vs,
                    Err(err) => {
                        return Err(err);
                    }
                };
                if fuel == 0 {
                    return Err(RuntimeError::OutOfFuel);
                }
                let ghost st1 = self.deep();
                let ghost fdeep = ValueS::Function {
                    params: params@.map(|i: int, p: String| p@),
                    body: body@,
                    scope: scope as int,
                };
                proof {
                    lemma_value_scopes_ok_mono(
                        fdeep,
                        old(self).deep().envs.len() as int,
                        st1.envs.len() as int,
                    );
                }
                let new_id = self.environments.len();
                self.environments.push(Environment::with_parent(scope));
                let old_env = self.current_env;
                self.current_env = new_id;
                proof {
                    assert(self.deep().envs =~= st1.envs.push(
                        EnvS { vars: Map::empty(), parent: Some(scope as int) },
                    ));
                    let n2 = self.deep().envs.len() as int;
                    assert forall|i: int| 0 <= i < n2 implies env_scopes_ok(
                        #[trigger] self.deep().envs[i],
                        n2,
                    ) by {
                        let en = self.deep().envs[i];
                        assert forall|k: Seq<char>| en.vars.contains_key(k) implies
                            #[trigger] value_scopes_ok(en.vars[k], n2) by {
                            assert(i < st1.envs.len());
                            assert(en == st1.envs[i]);
                            assert(env_scopes_ok(st1.envs[i], st1.envs.len() as int));
                            lemma_value_scopes_ok_mono(
                                en.vars[k],
                                st1.envs.len() as int,
                                n2,
                            );
                        }
                    }
                    assert(state_wf(self.deep()));
                }
                let ghost vdeep = deep_values(vals@);
                let ghost pdeep = params@.map(|i: int, p: String| p@);
                let mut i: usize = 0;
                proof {
                    assert(crate::semantics::params_map_chars(pdeep.take(0), vdeep.take(0))
                        =~= Map::<Seq<char>, ValueS>::empty());
                    lemma_deep_values(vals@);
                    lemma_values_scopes_ok(vdeep, st1.envs.len() as int);
                }
                while i < params_vec.len()
                    invariant
                        self.wf(),
                        i <= params_vec@.len(),
                        self.deep() == (StateS {
                            envs: st1.envs.push(
                                EnvS {
                                    vars: crate::semantics::params_map_chars(
                                        pdeep.take(i as int),
                                        vdeep.take(i as int),
                                    ),
                                    parent: Some(scope as int),
                                },
                            ),
                            cur: st1.envs.len() as int,
                            input: st1.input,
                            output: st1.output,
                        }),
                    decreases params_vec@.len() - i,
                {
                    let ghost pre = self.deep();
                    proof {
                        assert(vdeep[i as int] == vals@[i as int].deep());
                        assert(value_scopes_ok(vdeep[i as int], st1.envs.len() as int));
                        lemma_value_scopes_ok_mono(
                            vdeep[i as int],
                            st1.envs.len() as int,
                            self.deep().envs.len() as int,
                        );
                    }
                    self.define_current(params_vec[i].as_str(), vals[i].duplicate());
                    proof {
                        let t1 = pdeep.take(i + 1 as int);
                        let t2 = vdeep.take(i + 1 as int);
                        assert(t1.drop_last() =~= pdeep.take(i as int));
                        assert(t2.drop_last() =~= vdeep.take(i as int));
                        assert(t1.last() == pdeep[i as int]);
                        assert(t2.last() == vdeep[i as int]);
                        assert(pdeep[i as int] == params_vec@[i as int]@);
                        assert(vdeep[i as int] == vals@[i as int].deep());
                        assert(self.deep().envs =~= st1.envs.push(
                            EnvS {
                                vars: crate::semantics::params_map_chars(t1, t2),
                                parent: Some(scope as int),
                            },
                        ));
                    }
                    i = i + 1;
                }
                proof {
                    assert(pdeep.take(params_vec@.len() as int) =~= pdeep);
                    assert(vdeep.take(params_vec@.len() as int) =~= vdeep);
                }
                let body_vec: &Vec<Statement> = crate::value::rc_deref(&body);
                proof {
                    assert(body_vec@.skip(0) =~= body_vec@);
                    assert(body_vec@ == body@);
                }
                let out = match self.execute_block(body_vec, 0, fuel - 1) {
                    Ok(o) => o,
                    Err(err) => {
                        // restore the caller's frame on the failing path too
                        self.current_env = old_env;
                        proof {
                            assert(state_wf(self.deep()));
                        }
                        return Err(err);
                    }
                };
                self.current_env = old_env;
                proof {
                    assert(state_wf(self.deep()));
                }
                match out {
                    Outcome::Completed(_) => Ok(Value::Null),
                    Outcome::Return(v) => Ok(v),
                    _ => Err(RuntimeError::StrayControlFlow),
                }
            }
            Some(_) => Err(RuntimeError::NotAFunction(callee.clone())),
        }
    }

    /// Executes one statement, per [`exec_stmt_s`].
    #[verifier::loop_isolation(false)]
    fn execute_statement(&mut self, s: &Statement, fuel: u64) -> (r: Result<Outcome, RuntimeError>)
        requires
            old(self).wf(),
        ensures
            final(self).wf(),
            old(self).deep().envs.len() <= final(self).deep().envs.len(),
            stmt_matches(exec_stmt_s(old(self).deep(), *s, fuel as nat), final(self).deep(), r),
            r matches Ok(o) ==> o.scopes_ok(final(self).deep().envs.len() as int),
        decreases fuel, stmt_size(*s), 1int,
    {
        match s {
            Statement::ExprStmt(e) => match self.evaluate_expression(e, fuel) {
                Ok(_) => Ok(Outcome::Completed(Value::Null)),
                Err(err) => Err(err),
            },
            Statement::VarDecl { name, init, is_const: _ } => {
                let v = match init {
                    Some(e) => match self.evaluate_expression(e, fuel) {
                        Ok(v) => v,
                        Err(err) => {
                            return Err(err);
                        }
                    },
                    None => Value::Null,
                };
                self.define_current(name.as_str(), v);
                Ok(Outcome::Completed(Value::Null))
            }
            Statement::FuncDecl { name, params, body } => {
                let f = Value::Function {
                    params: crate::value::rc_clone(params),
                    body: crate::value::rc_clone(body),
                    scope: self.current_env,
                };
                self.define_current(name.as_str(), f);
                Ok(Outcome::Completed(Value::Null))
            }
            Statement::If { condition, then_branch, else_branch } => {
                let c = match self.evaluate_expression(condition, fuel) {
                    Ok(v) => v,
                    Err(err) => {
                        return Err(err);
                    }
                };
                if c.is_truthy() {
                    proof {
                        assert(then_branch@.skip(0) =~= then_branch@);
                    }
                    self.execute_block(then_branch, 0, fuel)
                } else {
                    proof {
                        assert(else_branch@.skip(0) =~= else_branch@);
                    }
                    self.execute_block(else_branch, 0, fuel)
                }
            }
            Statement::Loop { condition, body } => {
                let ghost st_enter = self.deep();
                let mut fuel_left: u64 = fuel;
                loop
                    invariant
                        self.wf(),
                        fuel_left <= fuel,
                        old(self).deep().envs.len() <= self.deep().envs.len(),
                        exec_loop_s(st_enter, *s, fuel as nat) == exec_loop_s(
                            self.deep(),
                            *s,
                            fuel_left as nat,
                        ),
                        st_enter == old(self).deep(),
                    decreases fuel_left,
                {
                    if fuel_left == 0 {
                        return Err(RuntimeError::OutOfFuel);
                    }
                    let c = match condition {
                        Some(ce) => match self.evaluate_expression(ce, fuel_left) {
                            Ok(v) => v,
                            Err(err) => {
                                return Err(err);
                            }
                        },
                        None => Value::Bool(true),
                    };
                    if !c.is_truthy() {
                        return Ok(Outcome::Completed(Value::Null));
                    }
                    proof {
                        assert(body@.skip(0) =~= body@);
                    }
                    let out = match self.execute_block(body, 0, fuel_left) {
                        Ok(o) => o,
                        Err(err) => {
                            return Err(err);
                        }
                    };
                    match out {
                        Outcome::Break => {
                            return Ok(Outcome::Completed(Value::Null));
                        }
                        Outcome::Return(v) => {
                            return Ok(Outcome::Return(v));
                        }
                        _ => {}
                    }
                    fuel_left = fuel_left - 1;
                }
            }
            Statement::While { condition, body } => {
                let mut cond_val = match self.evaluate_expression(condition, fuel) {
                    Ok(v) => v,
                    Err(err) => {
                        return Err(err);
                    }
                };
                let ghost st_enter = self.deep();
                let ghost cv_enter = cond_val.deep();
                let mut fuel_left: u64 = fuel;
                loop
                    invariant
                        self.wf(),
                        fuel_left <= fuel,
                        old(self).deep().envs.len() <= self.deep().envs.len(),
                        exec_while_s(st_enter, *s, cv_enter, fuel as nat) == exec_while_s(
                            self.deep(),
                            *s,
                            cond_val.deep(),
                            fuel_left as nat,
                        ),
                    decreases fuel_left,
                {
                    if !cond_val.is_truthy() {
                        return Ok(Outcome::Completed(Value::Null));
                    }
                    if fuel_left == 0 {
                        return Err(RuntimeError::OutOfFuel);
                    }
                    let nv = match self.evaluate_expression(condition, fuel_left) {
                        Ok(v) => v,
                        Err(err) => {
                            return Err(err);
                        }
                    };
                    proof {
                        assert(body@.skip(0) =~= body@);
                    }
                    let out = match self.execute_block(body, 0, fuel_left) {
                        Ok(o) => o,
                        Err(err) => {
                            return Err(err);
                        }
                    };
                    match out {
                        Outcome::Break => {
                            return Ok(Outcome::Completed(Value::Null));
                        }
                        Outcome::Return(v) => {
                            return Ok(Outcome::Return(v));
                        }
                        _ => {}
                    }
                    cond_val = nv;
                    fuel_left = fuel_left - 1;
                }
            }
            Statement::ForEach { variable, iterable, body } => {
                let itv = match self.evaluate_expression(iterable, fuel) {
                    Ok(v) => v,
                    Err(err) => {
                        return Err(err);
                    }
                };
                match itv {
                    Value::Str(sv) => {
                        let chars: Vec<char> = crate::strutil::str_chars(sv.as_str());
                        let ghost st_enter = self.deep();
                        let mut idx: usize = 0;
                        let mut fuel_left: u64 = fuel;
                        proof {
                            assert(chars@.skip(0) =~= chars@);
                        }
                        loop
                            invariant
                                self.wf(),
                                fuel_left <= fuel,
                                idx <= chars@.len(),
                                old(self).deep().envs.len() <= self.deep().envs.len(),
                                exec_foreach_s(st_enter, *s, chars@, fuel as nat)
                                    == exec_foreach_s(
                                    self.deep(),
                                    *s,
                                    chars@.skip(idx as int),
                                    fuel_left as nat,
                                ),
                            decreases fuel_left,
                        {
                            if idx == chars.len() {
                                return Ok(Outcome::Completed(Value::Null));
                            }
                            if fuel_left == 0 {
                                return Err(RuntimeError::OutOfFuel);
                            }
                            let ch = chars[idx];
                            proof {
                                assert(chars@.skip(idx as int)[0] == ch);
                            }
                            self.define_current(
                                variable.as_str(),
                                Value::Str(crate::strutil::char_string(ch)),
                            );
                            proof {
                                assert(body@.skip(0) =~= body@);
                            }
                            let out = match self.execute_block(body, 0, fuel_left) {
                                Ok(o) => o,
                                Err(err) => {
                                    return Err(err);
                                }
                            };
                            match out {
                                Outcome::Break => {
                                    return Ok(Outcome::Completed(Value::Null));
                                }
                                Outcome::Return(v) => {
                                    return Ok(Outcome::Return(v));
                                }
                                _ => {}
                            }
                            proof {
                                assert(chars@.skip(idx + 1 as int) =~= chars@.skip(
                                    idx as int,
                                ).skip(1));
                            }
                            idx = idx + 1;
                            fuel_left = fuel_left - 1;
                        }
                    }
                    _ => Err(RuntimeError::NotIterable),
                }
            }
            Statement::Return(value) => match value {
                Some(e) => match self.evaluate_expression(e, fuel) {
                    Ok(v) => Ok(Outcome::Return(v)),
                    Err(err) => Err(err),
                },
                None => Ok(Outcome::Return(Value::Null)),
            },
            Statement::Break => Ok(Outcome::Break),
            Statement::Continue => Ok(Outcome::Continue),
        }
    }

    /// Executes a statement list from position `idx` on, stopping at the
    /// first non-completed outcome, per [`exec_block_s`].
    fn execute_block(&mut self, stmts: &Vec<Statement>, idx: usize, fuel: u64) -> (r: Result<
        Outcome,
        RuntimeError,
    >)
        requires
            old(self).wf(),
            idx <= stmts@.len(),
        ensures
            final(self).wf(),
            old(self).deep().envs.len() <= final(self).deep().envs.len(),
            stmt_matches(
                exec_block_s(old(self).deep(), stmts@.skip(idx as int), fuel as nat),
                final(self).deep(),
                r,
            ),
            r matches Ok(o) ==> o.scopes_ok(final(self).deep().envs.len() as int),
        decreases fuel, stmts_size(stmts@.skip(idx as int)), 2int, stmts@.len() - idx,
    {
        let ghost tail = stmts@.skip(idx as int);
        if idx == stmts.len() {
            proof {
                assert(tail.len() == 0);
            }
            return Ok(Outcome::Completed(Value::Null));
        }
        proof {
            assert(tail[0] == stmts@[idx as int]);
            assert(stmts_size(tail) == stmt_size(tail[0]) + stmts_size(tail.skip(1)));
        }
        let out = match self.execute_statement(&stmts[idx], fuel) {
            Ok(o) => o,
            Err(err) => {
                return Err(err);
            }
        };
        match out {
            Outcome::Completed(_) => {
                proof {
                    assert(stmts@.skip(idx + 1 as int) =~= tail.skip(1));
                }
                self.execute_block(stmts, idx + 1, fuel)
            }
            other => Ok(other),
        }
    }

    /// Executes a whole program's statements in order within the fuel
    /// budget. Success means every top-level statement completed; a break,
    /// continue or return reaching the top level is the stray-control-flow
    /// error; every other failure is the semantics' error for it.
    pub fn execute(&mut self, program: &Program, fuel: u64) -> (r: Result<(), RuntimeError>)
        requires
            old(self).wf(),
        ensures
            final(self).wf(),
            match exec_block_s(old(self).deep(), program.statements@, fuel as nat) {
                ExecR::Done(st, out) => final(self).deep() == st && (match out {
                    OutcomeS::Completed(_) => r is Ok,
                    _ => r matches Err(e) && e.deep() == ErrS::StrayControlFlow,
                }),
                ExecR::Fail(err) => r matches Err(e) && e.deep() == err,
            },
    {
        proof {
            assert(program.statements@.skip(0) =~= program.statements@);
        }
        let out = match self.execute_block(&program.statements, 0, fuel) {
            Ok(o) => o,
            Err(err) => {
                return Err(err);
            }
        };
        match out {
            Outcome::Completed(_) => Ok(()),
            _ => Err(RuntimeError::StrayControlFlow),
        }
    }
}

} // verus!
