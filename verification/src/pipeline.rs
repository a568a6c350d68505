//! The whole language pipeline behind two calls: run a program now under
//! the interpreter, or lower it to C source text for an external toolchain.
//! Input and output are plain line buffers; reading and writing files, and
//! invoking a C compiler, belong to the surrounding glue.

use vstd::prelude::*;
use crate::ast::{deep_stmts, Statement, StmtS};
use crate::codegen::{gen_program_s, CodeGenerator, OutputType};
use crate::errors::{ErrS, LexError, ParseError, RuntimeError};
use crate::interp::Interpreter;
use crate::lexer::{deep_tokens, lemma_tokens_nonempty, tokens_of, LexErrS, Lexer, TokenS};
use crate::parser::{parse_program_s, Parser};
use crate::semantics::{exec_block_s, initial_state, ExecR, OutcomeS, StateS};

verus! {

/// The first failure a run stopped at, from whichever stage found it.
#[derive(Debug)]
pub enum RunError {
    /// Tokenization stopped at a lexical error.
    Lex(LexError),
    /// Parsing stopped at a syntax error.
    Parse(ParseError),
    /// Execution stopped at a runtime error.
    Runtime(RuntimeError),
}

/// The program a source text stands for: its lexical error, or its tokens'
/// parse — the parse's own error, or the statement models in token order.
pub open spec fn program_of(code: Seq<char>) -> Result<
    Result<Seq<StmtS>, ParseError>,
    LexErrS,
> {
    match tokens_of(code) {
        Ok(ts) => Ok(parse_program_s(ts, 0)),
        Err(e) => Err(e),
    }
}

/// What executing given statements from a fresh state with the given input
/// and fuel yields: the printed lines on completion; the stray-control-flow
/// error where a signal reaches the top level; the semantics' error
/// otherwise.
pub open spec fn exec_outcome(
    stmts: Seq<Statement>,
    input: Seq<Seq<char>>,
    fuel: nat,
) -> Result<Seq<Seq<char>>, ErrS> {
    let st0 = StateS {
        envs: initial_state().envs,
        cur: 0,
        input,
        output: Seq::empty(),
    };
    match exec_block_s(st0, stmts, fuel) {
        ExecR::Done(st, out) => match out {
            OutcomeS::Completed(_) => Ok(st.output),
            _ => Err(ErrS::StrayControlFlow),
        },
        ExecR::Fail(e) => Err(e),
    }
}

/// The line buffer's models, elementwise.
pub open spec fn lines_view(v: Seq<String>) -> Seq<Seq<char>> {
    v.map(|i: int, s: String| s@)
}

/// An owned copy of the output lines.
fn clone_lines(v: &Vec<String>) -> (r: Vec<String>)
    ensures
        r@.map(|i: int, s: String| s@) == v@.map(|i: int, s: String| s@),
{
    let mut out: Vec<String> = Vec::new();
    let mut i: usize = 0;
    while i < v.len()
        invariant
            i <= v@.len(),
            out@.len() == i,
            forall|j: int| 0 <= j < i ==> out@[j]@ == #[trigger] v@[j]@,
        decreases v@.len() - i,
    {
        out.push(v[i].clone());
        i = i + 1;
    }
    proof {
        assert(lines_view(out@) =~= v@.map(|i: int, s: String| s@));
    }
    out
}

/// Tokenizes, parses and executes a program with the given input lines and
/// fuel budget, yielding the lines it printed. Each stage's result is the
/// specification's, stage by stage: the lexical or syntax error where one
/// exists, else the executed program's printed lines or runtime error. The
/// length bound is a machine limit: the lexer's positions must fit in
/// usize.
pub fn run_code(code: &str, input_lines: Vec<String>, fuel: u64) -> (r: Result<
    Vec<String>,
    RunError,
>)
    requires
        code@.len() <= usize::MAX - 2,
    ensures
        (match r {
            Err(RunError::Lex(e)) => program_of(code@) == Err::<
                Result<Seq<StmtS>, ParseError>,
                _,
            >(e.deep()),
            Err(RunError::Parse(e)) => program_of(code@) matches Ok(pr) && pr == Err::<
                Seq<StmtS>,
                _,
            >(e),
            Err(RunError::Runtime(e)) => exists|stmts: Seq<Statement>|
                #[trigger] exec_outcome(
                    stmts,
                    lines_view(input_lines@),
                    fuel as nat,
                ) == Err::<Seq<Seq<char>>, _>(e.deep()) && program_of(code@) == Ok::<_, LexErrS>(
                    Ok::<_, ParseError>(deep_stmts(stmts)),
                ),
            Ok(out) => exists|stmts: Seq<Statement>|
                #[trigger] exec_outcome(
                    stmts,
                    lines_view(input_lines@),
                    fuel as nat,
                ) == Ok::<_, ErrS>(lines_view(out@)) && program_of(code@) == Ok::<
                    _,
                    LexErrS,
                >(Ok::<_, ParseError>(deep_stmts(stmts))),
        }),
{
    let mut lexer = Lexer::new(code);
    let tokens = match lexer.tokenize() {
        Ok(t) => t,
        Err(e) => {
            return Err(RunError::Lex(e));
        }
    };
    proof {
        lemma_tokens_nonempty(code@, 0, 1, 1);
        assert(deep_tokens(tokens@).len() == tokens@.len());
    }
    let mut parser = Parser::new(tokens);
    let program = match parser.parse() {
        Ok(p) => p,
        Err(e) => {
            return Err(RunError::Parse(e));
        }
    };
    let mut interpreter = Interpreter::new();
    interpreter.provide_input(input_lines);
    let outcome = interpreter.execute(&program, fuel);
    let ghost stmts = program.statements@;
    match outcome {
        Ok(_) => {
            let out = clone_lines(interpreter.output_lines());
            proof {
                assert(lines_view(out@) =~= interpreter.deep().output);
                assert(exec_outcome(
                    stmts,
                    lines_view(input_lines@),
                    fuel as nat,
                ) == Ok::<_, ErrS>(lines_view(out@)));
            }
            Ok(out)
        }
        Err(e) => {
            proof {
                assert(exec_outcome(
                    stmts,
                    lines_view(input_lines@),
                    fuel as nat,
                ) == Err::<Seq<Seq<char>>, _>(e.deep()));
            }
            Err(RunError::Runtime(e))
        }
    }
}

/// Tokenizes, parses and lowers a program into one freestanding C source
/// unit: the lexical or syntax error where one exists, else exactly the
/// text [`gen_program_s`] gives for the parsed program. The artifact kind
/// only tells the surrounding glue which toolchain flags to use.
pub fn compile_code(code: &str, output_type: OutputType) -> (r: Result<String, RunError>)
    requires
        code@.len() <= usize::MAX - 2,
    ensures
        (match r {
            Err(RunError::Lex(e)) => program_of(code@) == Err::<
                Result<Seq<StmtS>, ParseError>,
                _,
            >(e.deep()),
            Err(RunError::Parse(e)) => program_of(code@) matches Ok(pr) && pr == Err::<
                Seq<StmtS>,
                _,
            >(e),
            Err(RunError::Runtime(_)) => false,
            Ok(text) => exists|stmts: Seq<Statement>|
                #[trigger] gen_program_s(stmts) == text@ && program_of(code@) == Ok::<
                    _,
                    LexErrS,
                >(Ok::<_, ParseError>(deep_stmts(stmts))),
        }),
{
    let mut lexer = Lexer::new(code);
    let tokens = match lexer.tokenize() {
        Ok(t) => t,
        Err(e) => {
            return Err(RunError::Lex(e));
        }
    };
    proof {
        lemma_tokens_nonempty(code@, 0, 1, 1);
        assert(deep_tokens(tokens@).len() == tokens@.len());
    }
    let mut parser = Parser::new(tokens);
    let program = match parser.parse() {
        Ok(p) => p,
        Err(e) => {
            return Err(RunError::Parse(e));
        }
    };
    let generator = CodeGenerator::new(output_type);
    let text = generator.generate_c_code(&program);
    proof {
        assert(gen_program_s(program.statements@) == text@);
    }
    Ok(text)
}

} // verus!
