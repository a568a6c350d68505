//! Runtime values of the interpreter, their mathematical model, and the
//! value-level semantic rules both backends share: truthiness, structural
//! equality, arithmetic and comparison dispatch.

use vstd::prelude::*;
use std::rc::Rc;
use crate::ast::Statement;
use crate::errors::{ErrS, RuntimeError};
use crate::numfmt::{i64_to_string, int_chars};

verus! {

/// The language primitives not expressible in user code.
#[derive(Debug, Clone, Copy, PartialEq, Eq, Structural)]
pub enum BuiltinKind {
    /// Writes one line to the program's output.
    Print,
    /// Reads one line from the program's input.
    Input,
}

/// A runtime value: the tagged variant the interpreter computes with.
#[derive(Debug)]
pub enum Value {
    /// A number; the language's numbers are 64-bit signed integers.
    Num(i64),
    /// A string.
    Str(String),
    /// A boolean.
    Bool(bool),
    /// An array: an ordered sequence of values, with value semantics.
    Array(Vec<Value>),
    /// A user function: parameter names, body, and the index of the
    /// environment the declaration was evaluated in (its defining scope).
    Function { params: Rc<Vec<String>>, body: Rc<Vec<Statement>>, scope: usize },
    /// A builtin function.
    Builtin(BuiltinKind),
    /// The null value.
    Null,
}

/// The mathematical model of a [`Value`]: strings are character sequences,
/// arrays are sequences of models, numbers are unbounded integers (every
/// reachable number fits in 64 bits).
pub enum ValueS {
    Num(int),
    Str(Seq<char>),
    Bool(bool),
    Array(Seq<ValueS>),
    Function { params: Seq<Seq<char>>, body: Seq<Statement>, scope: int },
    Builtin(BuiltinKind),
    Null,
}

/// The models of a sequence of values, elementwise.
pub open spec fn deep_values(s: Seq<Value>) -> Seq<ValueS>
    decreases s,
{
    if s.len() == 0 {
        Seq::empty()
    } else {
        deep_values(s.drop_last()).push(s.last().deep())
    }
}

impl Value {
    /// The mathematical model of this value.
    pub open spec fn deep(self) -> ValueS
        decreases self,
    {
        match self {
            Value::Num(n) => ValueS::Num(n as int),
            Value::Str(s) => ValueS::Str(s@),
            Value::Bool(b) => ValueS::Bool(b),
            Value::Array(items) => ValueS::Array(deep_values(items@)),
            Value::Function { params, body, scope } => ValueS::Function {
                params: params@.map(|i: int, n: String| n@),
                body: body@,
                scope: scope as int,
            },
            Value::Builtin(k) => ValueS::Builtin(k),
            Value::Null => ValueS::Null,
        }
    }
}

/// `deep_values` maps a sequence elementwise.
pub proof fn lemma_deep_values(s: Seq<Value>)
    ensures
        deep_values(s).len() == s.len(),
        forall|i: int| 0 <= i < s.len() ==> deep_values(s)[i] == #[trigger] s[i].deep(),
    decreases s,
{
    if s.len() > 0 {
        lemma_deep_values(s.drop_last());
        assert(forall|i: int|
            0 <= i < s.len() - 1 ==> s.drop_last()[i] == #[trigger] s[i]);
    }
}

/// The canonical truthiness rule, shared by the interpreter and the
/// generated runtime: a boolean is itself; a number is truthy iff nonzero;
/// a string is truthy iff nonempty; null is falsy; arrays, functions and
/// builtins are always truthy, regardless of contents.
pub open spec fn truthy(v: ValueS) -> bool {
    match v {
        ValueS::Bool(b) => b,
        ValueS::Num(n) => n != 0,
        ValueS::Str(s) => s.len() != 0,
        ValueS::Null => false,
        _ => true,
    }
}

/// Structural equality: same-variant number/string/boolean pairs compare by
/// content, null equals null, and every other pairing (cross-type, arrays,
/// functions, builtins) is unequal — never an error.
pub open spec fn equal_values(a: ValueS, b: ValueS) -> bool {
    match (a, b) {
        (ValueS::Num(x), ValueS::Num(y)) => x == y,
        (ValueS::Str(x), ValueS::Str(y)) => x == y,
        (ValueS::Bool(x), ValueS::Bool(y)) => x == y,
        (ValueS::Null, ValueS::Null) => true,
        _ => false,
    }
}

impl Value {
    /// Maps this value to a boolean for conditional contexts.
    pub fn is_truthy(&self) -> (r: bool)
        ensures
            r == truthy(self.deep()),
    {
        match self {
            Value::Bool(b) => *b,
            Value::Num(n) => *n != 0,
            Value::Str(s) => s.as_str().unicode_len() != 0,
            Value::Null => false,
            _ => true,
        }
    }

    /// Structural equality with another value, per [`equal_values`].
    pub fn is_equal(&self, other: &Value) -> (r: bool)
        ensures
            r == equal_values(self.deep(), other.deep()),
    {
        match (self, other) {
            (Value::Num(a), Value::Num(b)) => *a == *b,
            (Value::Str(a), Value::Str(b)) => *a == *b,
            (Value::Bool(a), Value::Bool(b)) => *a == *b,
            (Value::Null, Value::Null) => true,
            _ => false,
        }
    }

    /// An independent value with the same model, used where the interpreter
    /// hands a stored value out without giving the binding up.
    #[verifier::loop_isolation(false)]
    pub fn duplicate(&self) -> (r: Value)
        ensures
            r.deep() == self.deep(),
        decreases self,
    {
        match self {
            Value::Num(n) => Value::Num(*n),
            Value::Str(s) => Value::Str(s.clone()),
            Value::Bool(b) => Value::Bool(*b),
            Value::Array(items) => {
                let mut out: Vec<Value> = Vec::new();
                let mut i: usize = 0;
                while i < items.len()
                    invariant
                        i <= items@.len(),
                        out@.len() == i,
                        forall|j: int| 0 <= j < i ==> out@[j].deep() == #[trigger] items@[j].deep(),
                    decreases items@.len() - i,
                {
                    proof {
                        assert(decreases_to!(*self => self->Array_0));
                        assert(decreases_to!(*items => items@));
                        assert(decreases_to!(items@ => items@[i as int]));
                        assert(decreases_to!(*self => items@[i as int]));
                    }
                    out.push(items[i].duplicate());
                    i = i + 1;
                }
                proof {
                    lemma_deep_values(items@);
                    lemma_deep_values(out@);
                    assert forall|j: int| 0 <= j < items@.len() implies deep_values(out@)[j]
                        == deep_values(items@)[j] by {
                        assert(out@[j].deep() == items@[j].deep());
                    }
                    assert(deep_values(out@) =~= deep_values(items@));
                }
                Value::Array(out)
            }
            Value::Function { params, body, scope } => Value::Function {
                params: rc_clone(params),
                body: rc_clone(body),
                scope: *scope,
            },
            Value::Builtin(k) => Value::Builtin(*k),
            Value::Null => Value::Null,
        }
    }
}

/// The textual rendering of a boolean.
pub open spec fn bool_chars(b: bool) -> Seq<char> {
    if b {
        seq!['t', 'r', 'u', 'e']
    } else {
        seq!['f', 'a', 'l', 's', 'e']
    }
}

/// The tag a builtin function renders under.
pub open spec fn builtin_name_chars(k: BuiltinKind) -> Seq<char> {
    match k {
        BuiltinKind::Print => seq!['内', '置', '打', '印'],
        BuiltinKind::Input => seq!['内', '置', '输', '入'],
    }
}

/// The default textual rendering of a value: numbers in decimal, strings
/// quoted, booleans as `true`/`false`, arrays bracketed with elements
/// rendered recursively and joined by `, `, functions and builtins as fixed
/// tags, null as the null word.
pub open spec fn render(v: ValueS) -> Seq<char>
    decreases v, 0int,
{
    match v {
        ValueS::Num(n) => int_chars(n),
        ValueS::Str(s) => seq!['"'] + s + seq!['"'],
        ValueS::Bool(b) => bool_chars(b),
        ValueS::Array(items) => seq!['['] + render_items(items) + seq![']'],
        ValueS::Function { .. } => seq!['[', '函', '数', ']'],
        ValueS::Builtin(k) => seq!['[', '内', '置', '函', '数', ':', ' '] + builtin_name_chars(k)
            + seq![']'],
        ValueS::Null => seq!['空'],
    }
}

/// The renderings of a sequence of values, joined by `, `.
pub open spec fn render_items(items: Seq<ValueS>) -> Seq<char>
    decreases items, 1int,
{
    if items.len() == 0 {
        Seq::empty()
    } else if items.len() == 1 {
        render(items[0])
    } else {
        render_items(items.drop_last()) + seq![',', ' '] + render(items.last())
    }
}

impl Value {
    /// Renders this value per [`render`].
    #[verifier::loop_isolation(false)]
    pub fn render_string(&self) -> (r: String)
        ensures
            r@ == render(self.deep()),
        decreases self, 0int,
    {
        match self {
            Value::Num(n) => i64_to_string(*n),
            Value::Str(s) => {
                let mut out = String::from_str("\"");
                out.append(s.as_str());
                out.append("\"");
                proof {
                    reveal_strlit("\"");
                    assert(out@ =~= render(self.deep()));
                }
                out
            }
            Value::Bool(b) => {
                let out = if *b {
                    String::from_str("true")
                } else {
                    String::from_str("false")
                };
                proof {
                    reveal_strlit("true");
                    reveal_strlit("false");
                    assert(out@ =~= render(self.deep()));
                }
                out
            }
            Value::Array(items) => render_array_string(items),
            Value::Function { .. } => {
                let out = String::from_str("[函数]");
                proof {
                    reveal_strlit("[函数]");
                    assert(out@ =~= render(self.deep()));
                }
                out
            }
            Value::Builtin(k) => {
                let out = match k {
                    BuiltinKind::Print => String::from_str("[内置函数: 内置打印]"),
                    BuiltinKind::Input => String::from_str("[内置函数: 内置输入]"),
                };
                proof {
                    reveal_strlit("[内置函数: 内置打印]");
                    reveal_strlit("[内置函数: 内置输入]");
                    assert(out@ =~= render(self.deep()));
                }
                out
            }
            Value::Null => {
                let out = String::from_str("空");
                proof {
                    reveal_strlit("空");
                    assert(out@ =~= render(self.deep()));
                }
                out
            }
        }
    }
}

/// Renders an array's elements per [`render_items`], between brackets.
#[verifier::loop_isolation(false)]
pub fn render_array_string(items: &Vec<Value>) -> (r: String)
    ensures
        r@ == seq!['['] + render_items(deep_values(items@)) + seq![']'],
    decreases items@, 1int,
{
    let ghost ds = deep_values(items@);
    proof {
        lemma_deep_values(items@);
    }
    let mut out = String::from_str("[");
    proof {
        reveal_strlit("[");
        assert(out@ =~= seq!['['] + render_items(ds.take(0)));
    }
    let mut i: usize = 0;
    while i < items.len()
        invariant
            i <= items@.len(),
            out@ == seq!['['] + render_items(ds.take(i as int)),
        decreases items@.len() - i,
    {
        if i > 0 {
            out.append(", ");
        }
        proof {
            assert(decreases_to!(items@ => items@[i as int]));
        }
        let piece = items[i].render_string();
        out.append(piece.as_str());
        proof {
            reveal_strlit(", ");
            let t = ds.take(i + 1 as int);
            assert(t.drop_last() =~= ds.take(i as int));
            assert(t.last() == ds[i as int]);
            assert(piece@ == render(ds[i as int]));
            assert(out@ =~= seq!['['] + render_items(ds.take(i + 1 as int)));
        }
        i = i + 1;
    }
    out.append("]");
    proof {
        reveal_strlit("]");
        assert(ds.take(items@.len() as int) =~= ds);
        assert(out@ =~= seq!['['] + render_items(ds) + seq![']']);
    }
    out
}

/// What print writes for a value: a string argument prints as its bare
/// characters; every other value prints as its default rendering, arrays
/// still quoting the strings inside them.
pub open spec fn print_render(v: ValueS) -> Seq<char> {
    match v {
        ValueS::Str(s) => s,
        _ => render(v),
    }
}

/// The model of an executable result: values and errors replaced by their
/// models.
pub open spec fn deep_result(r: Result<Value, RuntimeError>) -> Result<ValueS, ErrS> {
    match r {
        Ok(v) => Ok(v.deep()),
        Err(e) => Err(e.deep()),
    }
}

/// Whether `n` fits the language's 64-bit number type.
pub open spec fn in_num_range(n: int) -> bool {
    i64::MIN <= n <= i64::MAX
}

/// What `+` yields: number addition; string concatenation; a string paired
/// with a number, boolean or null concatenates the other operand's default
/// rendering; a string paired with an array concatenates the array's
/// bracketed element rendering; any other pairing is a type error. Number
/// addition outside the number range is an overflow error.
pub open spec fn add_spec(a: ValueS, b: ValueS) -> Result<ValueS, ErrS> {
    match (a, b) {
        (ValueS::Num(x), ValueS::Num(y)) => if in_num_range(x + y) {
            Ok(ValueS::Num(x + y))
        } else {
            Err(ErrS::Overflow)
        },
        (ValueS::Str(x), ValueS::Str(y)) => Ok(ValueS::Str(x + y)),
        (ValueS::Str(x), ValueS::Num(y)) => Ok(ValueS::Str(x + int_chars(y))),
        (ValueS::Num(x), ValueS::Str(y)) => Ok(ValueS::Str(int_chars(x) + y)),
        (ValueS::Str(x), ValueS::Bool(y)) => Ok(ValueS::Str(x + bool_chars(y))),
        (ValueS::Bool(x), ValueS::Str(y)) => Ok(ValueS::Str(bool_chars(x) + y)),
        (ValueS::Str(x), ValueS::Null) => Ok(ValueS::Str(x + seq!['空'])),
        (ValueS::Null, ValueS::Str(y)) => Ok(ValueS::Str(seq!['空'] + y)),
        (ValueS::Str(x), ValueS::Array(items)) => Ok(
            ValueS::Str(x + seq!['['] + render_items(items) + seq![']']),
        ),
        (ValueS::Array(items), ValueS::Str(y)) => Ok(
            ValueS::Str(seq!['['] + render_items(items) + seq![']'] + y),
        ),
        _ => Err(ErrS::TypeMismatchAdd),
    }
}

/// What `-` yields: number subtraction only; the result must be in range.
pub open spec fn subtract_spec(a: ValueS, b: ValueS) -> Result<ValueS, ErrS> {
    match (a, b) {
        (ValueS::Num(x), ValueS::Num(y)) => if in_num_range(x - y) {
            Ok(ValueS::Num(x - y))
        } else {
            Err(ErrS::Overflow)
        },
        _ => Err(ErrS::TypeMismatchSub),
    }
}

/// What `*` yields: number multiplication only; the result must be in range.
pub open spec fn multiply_spec(a: ValueS, b: ValueS) -> Result<ValueS, ErrS> {
    match (a, b) {
        (ValueS::Num(x), ValueS::Num(y)) => if in_num_range(x * y) {
            Ok(ValueS::Num(x * y))
        } else {
            Err(ErrS::Overflow)
        },
        _ => Err(ErrS::TypeMismatchMul),
    }
}

/// The quotient of `x` by `d`, truncated toward zero, as the number type's
/// division computes it.
pub open spec fn quot_trunc(x: int, d: int) -> int {
    if x == 0 {
        0
    } else if x > 0 && d > 0 {
        x / d
    } else if x < 0 && d < 0 {
        (x * -1) / (d * -1)
    } else if x < 0 {
        ((x * -1) / d) * -1
    } else {
        (x / (d * -1)) * -1
    }
}

/// What `/` yields: number division only; a zero divisor is a dedicated
/// division error, never infinity or a silent null; the truncated quotient
/// must be in range.
pub open spec fn divide_spec(a: ValueS, b: ValueS) -> Result<ValueS, ErrS> {
    match (a, b) {
        (ValueS::Num(x), ValueS::Num(y)) => if y == 0 {
            Err(ErrS::DivisionByZero)
        } else if in_num_range(quot_trunc(x, y)) {
            Ok(ValueS::Num(quot_trunc(x, y)))
        } else {
            Err(ErrS::Overflow)
        },
        _ => Err(ErrS::TypeMismatchDiv),
    }
}

/// What an order comparison yields: a boolean for two numbers, and a type
/// error for every other pairing. `cmp` is the comparison on the numbers.
pub open spec fn compare_spec(
    a: ValueS,
    b: ValueS,
    cmp: spec_fn(int, int) -> bool,
) -> Result<ValueS, ErrS> {
    match (a, b) {
        (ValueS::Num(x), ValueS::Num(y)) => Ok(ValueS::Bool(cmp(x, y))),
        _ => Err(ErrS::TypeMismatchCompare),
    }
}

/// Adds two values per [`add_spec`].
pub fn add_values(a: &Value, b: &Value) -> (r: Result<Value, RuntimeError>)
    ensures
        deep_result(r) == add_spec(a.deep(), b.deep()),
{
    match (a, b) {
        (Value::Num(x), Value::Num(y)) => match x.checked_add(*y) {
            Some(s) => Ok(Value::Num(s)),
            None => Err(RuntimeError::Overflow),
        },
        (Value::Str(x), Value::Str(y)) => {
            let mut out = x.clone();
            out.append(y.as_str());
            Ok(Value::Str(out))
        }
        (Value::Str(x), Value::Num(y)) => {
            let mut out = x.clone();
            let t = i64_to_string(*y);
            out.append(t.as_str());
            Ok(Value::Str(out))
        }
        (Value::Num(x), Value::Str(y)) => {
            let mut out = i64_to_string(*x);
            out.append(y.as_str());
            Ok(Value::Str(out))
        }
        (Value::Str(x), Value::Bool(y)) => {
            let mut out = x.clone();
            out.append(if *y { "true" } else { "false" });
            proof {
                reveal_strlit("true");
                reveal_strlit("false");
                assert(out@ =~= x@ + bool_chars(*y));
            }
            Ok(Value::Str(out))
        }
        (Value::Bool(x), Value::Str(y)) => {
            let mut out = if *x {
                String::from_str("true")
            } else {
                String::from_str("false")
            };
            out.append(y.as_str());
            proof {
                reveal_strlit("true");
                reveal_strlit("false");
                assert(out@ =~= bool_chars(*x) + y@);
            }
            Ok(Value::Str(out))
        }
        (Value::Str(x), Value::Null) => {
            let mut out = x.clone();
            out.append("空");
            proof {
                reveal_strlit("空");
                assert(out@ =~= x@ + seq!['空']);
            }
            Ok(Value::Str(out))
        }
        (Value::Null, Value::Str(y)) => {
            let mut out = String::from_str("空");
            out.append(y.as_str());
            proof {
                reveal_strlit("空");
                assert(out@ =~= seq!['空'] + y@);
            }
            Ok(Value::Str(out))
        }
        (Value::Str(x), Value::Array(items)) => {
            let mut out = x.clone();
            let t = render_array_string(items);
            out.append(t.as_str());
            proof {
                assert(out@ =~= x@ + seq!['['] + render_items(deep_values(items@)) + seq![']']);
            }
            Ok(Value::Str(out))
        }
        (Value::Array(items), Value::Str(y)) => {
            let mut out = render_array_string(items);
            out.append(y.as_str());
            proof {
                assert(out@ =~= seq!['['] + render_items(deep_values(items@)) + seq![']'] + y@);
            }
            Ok(Value::Str(out))
        }
        _ => Err(RuntimeError::TypeMismatchAdd),
    }
}

/// Subtracts two values per [`subtract_spec`].
pub fn subtract_values(a: &Value, b: &Value) -> (r: Result<Value, RuntimeError>)
    ensures
        deep_result(r) == subtract_spec(a.deep(), b.deep()),
{
    match (a, b) {
        (Value::Num(x), Value::Num(y)) => match x.checked_sub(*y) {
            Some(s) => Ok(Value::Num(s)),
            None => Err(RuntimeError::Overflow),
        },
        _ => Err(RuntimeError::TypeMismatchSub),
    }
}

/// Multiplies two values per [`multiply_spec`].
pub fn multiply_values(a: &Value, b: &Value) -> (r: Result<Value, RuntimeError>)
    ensures
        deep_result(r) == multiply_spec(a.deep(), b.deep()),
{
    match (a, b) {
        (Value::Num(x), Value::Num(y)) => match x.checked_mul(*y) {
            Some(s) => Ok(Value::Num(s)),
            None => Err(RuntimeError::Overflow),
        },
        _ => Err(RuntimeError::TypeMismatchMul),
    }
}

/// Divides two values per [`divide_spec`].
pub fn divide_values(a: &Value, b: &Value) -> (r: Result<Value, RuntimeError>)
    ensures
        deep_result(r) == divide_spec(a.deep(), b.deep()),
{
    match (a, b) {
        (Value::Num(x), Value::Num(y)) => {
            if *y == 0 {
                Err(RuntimeError::DivisionByZero)
            } else {
                match x.checked_div(*y) {
                    Some(q) => Ok(Value::Num(q)),
                    None => Err(RuntimeError::Overflow),
                }
            }
        }
        _ => Err(RuntimeError::TypeMismatchDiv),
    }
}

/// Compares two values with `>` per [`compare_spec`].
pub fn greater_than(a: &Value, b: &Value) -> (r: Result<Value, RuntimeError>)
    ensures
        deep_result(r) == compare_spec(a.deep(), b.deep(), |x: int, y: int| x > y),
{
    match (a, b) {
        (Value::Num(x), Value::Num(y)) => Ok(Value::Bool(*x > *y)),
        _ => Err(RuntimeError::TypeMismatchCompare),
    }
}

/// Compares two values with `<` per [`compare_spec`].
pub fn less_than(a: &Value, b: &Value) -> (r: Result<Value, RuntimeError>)
    ensures
        deep_result(r) == compare_spec(a.deep(), b.deep(), |x: int, y: int| x < y),
{
    match (a, b) {
        (Value::Num(x), Value::Num(y)) => Ok(Value::Bool(*x < *y)),
        _ => Err(RuntimeError::TypeMismatchCompare),
    }
}

/// Compares two values with `>=` per [`compare_spec`].
pub fn greater_equal(a: &Value, b: &Value) -> (r: Result<Value, RuntimeError>)
    ensures
        deep_result(r) == compare_spec(a.deep(), b.deep(), |x: int, y: int| x >= y),
{
    match (a, b) {
        (Value::Num(x), Value::Num(y)) => Ok(Value::Bool(*x >= *y)),
        _ => Err(RuntimeError::TypeMismatchCompare),
    }
}

/// Compares two values with `<=` per [`compare_spec`].
pub fn less_equal(a: &Value, b: &Value) -> (r: Result<Value, RuntimeError>)
    ensures
        deep_result(r) == compare_spec(a.deep(), b.deep(), |x: int, y: int| x <= y),
{
    match (a, b) {
        (Value::Num(x), Value::Num(y)) => Ok(Value::Bool(*x <= *y)),
        _ => Err(RuntimeError::TypeMismatchCompare),
    }
}

/// Relies on std's `Rc::clone`: it returns a new handle to the same
/// allocation, so the result is the very value cloned.
#[verifier::external_body]
pub(crate) fn rc_clone<T>(rc: &Rc<T>) -> (r: Rc<T>)
    ensures
        r == *rc,
{
    rc.clone()
}

/// Relies on std's `Deref` impl for `Rc`: it borrows the shared value.
#[verifier::external_body]
pub(crate) fn rc_deref<T>(rc: &Rc<T>) -> (r: &T)
    ensures
        *r == *rc,
{
    &**rc
}

} // verus!
