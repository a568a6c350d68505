//! The typed error taxonomy. Each stage reports its failures as a dedicated
//! variant carrying the offending name, index or size, and stops at the first
//! error.

use vstd::prelude::*;

verus! {

/// A lexical error: tokenization aborts at the first one, reported with the
/// 1-based line and column where it arose.
#[derive(Debug)]
pub enum LexError {
    /// A character no token can start with.
    UnknownChar { ch: char, line: usize, column: usize },
    /// A string literal with no closing quote.
    UnterminatedString { line: usize, column: usize },
    /// Numeric text with no 64-bit integer value: a fractional part other
    /// than zeros, or a value over the number type's range.
    MalformedNumber { line: usize, column: usize },
}

/// A syntax error: parsing aborts at the first expected-token mismatch or
/// malformed declaration, naming the construct that was expected.
#[derive(Debug, Clone, PartialEq, Eq, Structural)]
pub enum ParseError {
    /// A declaration or a for-each header without a variable name.
    ExpectedVariableName,
    /// A function declaration without a name.
    ExpectedFunctionName,
    /// A parameter list element that is not an identifier.
    ExpectedParameterName,
    /// A missing opening parenthesis.
    ExpectedLeftParen,
    /// A missing closing parenthesis.
    ExpectedRightParen,
    /// A missing opening brace.
    ExpectedLeftBrace,
    /// A missing closing brace.
    ExpectedRightBrace,
    /// A missing closing bracket.
    ExpectedRightBracket,
    /// A construct that needs a condition or operand expression had none.
    ExpectedExpression,
    /// A for-each header without the in-keyword.
    ExpectedInKeyword,
    /// An index access without an index expression.
    ExpectedIndexExpression,
    /// An append call without an element expression.
    ExpectedElementExpression,
    /// An assignment whose target is not a bare variable reference.
    InvalidAssignmentTarget,
    /// A postfix method call without a method name.
    ExpectedMethodName,
    /// A postfix method other than length, append or remove-at.
    UnknownMethod,
}

/// A runtime error: execution aborts at the first one, and none is
/// recoverable within the running program.
#[derive(Debug)]
pub enum RuntimeError {
    /// A read of a name with no binding anywhere on the scope chain, or an
    /// assignment to a name with no binding in the innermost environment.
    UndefinedVariable(String),
    /// A call of a name with no binding anywhere on the scope chain.
    UndefinedFunction(String),
    /// A call of a value that is neither a function nor a builtin.
    NotAFunction(String),
    /// A call with the wrong number of arguments.
    ArityMismatch { expected: usize, got: usize },
    /// A print call with other than one argument.
    PrintArity,
    /// An input call with arguments.
    InputArity,
    /// Operand types `+` accepts no pairing of.
    TypeMismatchAdd,
    /// A non-number operand of `-`.
    TypeMismatchSub,
    /// A non-number operand of `*`.
    TypeMismatchMul,
    /// A non-number operand of `/`.
    TypeMismatchDiv,
    /// A non-number operand of an order comparison.
    TypeMismatchCompare,
    /// A division with a zero divisor.
    DivisionByZero,
    /// An index or remove-at position outside `0 <= index < len`.
    IndexOutOfRange { index: i64, len: usize },
    /// An index access whose receiver is not an array or whose index is not
    /// a number.
    IndexTypeMismatch,
    /// A length query whose receiver is not an array.
    LengthNeedsArray,
    /// An append whose receiver is not an array.
    AppendNeedsArray,
    /// A remove-at whose receiver is not an array or whose index is not a
    /// number.
    RemoveTypeMismatch,
    /// A for-each over a value that is not a string.
    NotIterable,
    /// An arithmetic result outside the 64-bit number range.
    Overflow,
    /// A break or continue outside a loop, or either escaping a function
    /// body, or any control-flow signal reaching the top level.
    StrayControlFlow,
    /// The execution budget ran out before the program ended.
    OutOfFuel,
}

/// The mathematical model of a [`RuntimeError`]: names are character
/// sequences, indexes and sizes unbounded integers.
pub enum ErrS {
    UndefinedVariable(Seq<char>),
    UndefinedFunction(Seq<char>),
    NotAFunction(Seq<char>),
    ArityMismatch { expected: int, got: int },
    PrintArity,
    InputArity,
    TypeMismatchAdd,
    TypeMismatchSub,
    TypeMismatchMul,
    TypeMismatchDiv,
    TypeMismatchCompare,
    DivisionByZero,
    IndexOutOfRange { index: int, len: int },
    IndexTypeMismatch,
    LengthNeedsArray,
    AppendNeedsArray,
    RemoveTypeMismatch,
    NotIterable,
    Overflow,
    StrayControlFlow,
    OutOfFuel,
}

impl RuntimeError {
    /// The mathematical model of this error.
    pub open spec fn deep(self) -> ErrS {
        match self {
            RuntimeError::UndefinedVariable(n) => ErrS::UndefinedVariable(n@),
            RuntimeError::UndefinedFunction(n) => ErrS::UndefinedFunction(n@),
            RuntimeError::NotAFunction(n) => ErrS::NotAFunction(n@),
            RuntimeError::ArityMismatch { expected, got } => ErrS::ArityMismatch {
                expected: expected as int,
                got: got as int,
            },
            RuntimeError::PrintArity => ErrS::PrintArity,
            RuntimeError::InputArity => ErrS::InputArity,
            RuntimeError::TypeMismatchAdd => ErrS::TypeMismatchAdd,
            RuntimeError::TypeMismatchSub => ErrS::TypeMismatchSub,
            RuntimeError::TypeMismatchMul => ErrS::TypeMismatchMul,
            RuntimeError::TypeMismatchDiv => ErrS::TypeMismatchDiv,
            RuntimeError::TypeMismatchCompare => ErrS::TypeMismatchCompare,
            RuntimeError::DivisionByZero => ErrS::DivisionByZero,
            RuntimeError::IndexOutOfRange { index, len } => ErrS::IndexOutOfRange {
                index: index as int,
                len: len as int,
            },
            RuntimeError::IndexTypeMismatch => ErrS::IndexTypeMismatch,
            RuntimeError::LengthNeedsArray => ErrS::LengthNeedsArray,
            RuntimeError::AppendNeedsArray => ErrS::AppendNeedsArray,
            RuntimeError::RemoveTypeMismatch => ErrS::RemoveTypeMismatch,
            RuntimeError::NotIterable => ErrS::NotIterable,
            RuntimeError::Overflow => ErrS::Overflow,
            RuntimeError::StrayControlFlow => ErrS::StrayControlFlow,
            RuntimeError::OutOfFuel => ErrS::OutOfFuel,
        }
    }
}

} // verus!
