//! The lexer: source text in, token sequence out, ending in an end-of-input
//! token, or the first lexical error. Each token carries the 1-based line
//! and column it started at.
//!
//! The word-character test is a data-driven set of code-point ranges: the
//! CJK unified ranges for the language's own script, plus the common letter
//! ranges of other scripts; after the first character, digits and the
//! underscore join in.

use vstd::prelude::*;
use crate::errors::LexError;
use crate::numfmt::{digits_value, is_digit_char};
use crate::strutil::{push_char, str_chars};

verus! {

/// A lexical token kind: keywords, literals, identifiers, operators,
/// delimiters, and the end-of-input mark.
#[derive(Debug, Clone)]
pub enum TokenType {
    /// The if keyword, 如果.
    KwIf,
    /// The else keyword, 否则.
    KwElse,
    /// The loop keyword, 循环.
    KwLoop,
    /// The while keyword, 当.
    KwWhile,
    /// The for keyword, 对于.
    KwFor,
    /// The in keyword, 在.
    KwIn,
    /// The function keyword, 函数.
    KwFunc,
    /// The return keyword, 返回.
    KwReturn,
    /// The let keyword, 让.
    KwLet,
    /// The const keyword, 常量.
    KwConst,
    /// The var keyword, 变量.
    KwVar,
    /// The break keyword, 跳出.
    KwBreak,
    /// The continue keyword, 继续.
    KwContinue,
    /// The and keyword, 且.
    KwAnd,
    /// The or keyword, 或.
    KwOr,
    /// The not keyword, 非.
    KwNot,
    /// A number literal.
    Num(i64),
    /// A string literal, escapes already decoded.
    Str(String),
    /// A boolean literal, spelled 真 or 假.
    Bool(bool),
    /// An identifier.
    Ident(String),
    /// `+`
    Plus,
    /// `-`
    Minus,
    /// `*`
    Star,
    /// `/`
    Slash,
    /// A lone `=`.
    Assign,
    /// `==`
    Eq,
    /// `!=`
    Ne,
    /// A lone `>`.
    Gt,
    /// A lone `<`.
    Lt,
    /// `>=`
    Ge,
    /// `<=`
    Le,
    /// `.`
    Dot,
    /// `(`
    LParen,
    /// `)`
    RParen,
    /// `{`
    LBrace,
    /// `}`
    RBrace,
    /// `[`
    LBracket,
    /// `]`
    RBracket,
    /// `,`
    Comma,
    /// `;`
    Semicolon,
    /// `:`
    Colon,
    /// The end of the input.
    Eof,
}

/// The mathematical model of a token kind.
pub enum TokS {
    KwIf,
    KwElse,
    KwLoop,
    KwWhile,
    KwFor,
    KwIn,
    KwFunc,
    KwReturn,
    KwLet,
    KwConst,
    KwVar,
    KwBreak,
    KwContinue,
    KwAnd,
    KwOr,
    KwNot,
    Num(int),
    Str(Seq<char>),
    Bool(bool),
    Ident(Seq<char>),
    Plus,
    Minus,
    Star,
    Slash,
    Assign,
    Eq,
    Ne,
    Gt,
    Lt,
    Ge,
    Le,
    Dot,
    LParen,
    RParen,
    LBrace,
    RBrace,
    LBracket,
    RBracket,
    Comma,
    Semicolon,
    Colon,
    Eof,
}

impl TokenType {
    /// The mathematical model of this token kind.
    pub open spec fn deep(self) -> TokS {
        match self {
            TokenType::KwIf => TokS::KwIf,
            TokenType::KwElse => TokS::KwElse,
            TokenType::KwLoop => TokS::KwLoop,
            TokenType::KwWhile => TokS::KwWhile,
            TokenType::KwFor => TokS::KwFor,
            TokenType::KwIn => TokS::KwIn,
            TokenType::KwFunc => TokS::KwFunc,
            TokenType::KwReturn => TokS::KwReturn,
            TokenType::KwLet => TokS::KwLet,
            TokenType::KwConst => TokS::KwConst,
            TokenType::KwVar => TokS::KwVar,
            TokenType::KwBreak => TokS::KwBreak,
            TokenType::KwContinue => TokS::KwContinue,
            TokenType::KwAnd => TokS::KwAnd,
            TokenType::KwOr => TokS::KwOr,
            TokenType::KwNot => TokS::KwNot,
            TokenType::Num(n) => TokS::Num(n as int),
            TokenType::Str(s) => TokS::Str(s@),
            TokenType::Bool(b) => TokS::Bool(b),
            TokenType::Ident(s) => TokS::Ident(s@),
            TokenType::Plus => TokS::Plus,
            TokenType::Minus => TokS::Minus,
            TokenType::Star => TokS::Star,
            TokenType::Slash => TokS::Slash,
            TokenType::Assign => TokS::Assign,
            TokenType::Eq => TokS::Eq,
            TokenType::Ne => TokS::Ne,
            TokenType::Gt => TokS::Gt,
            TokenType::Lt => TokS::Lt,
            TokenType::Ge => TokS::Ge,
            TokenType::Le => TokS::Le,
            TokenType::Dot => TokS::Dot,
            TokenType::LParen => TokS::LParen,
            TokenType::RParen => TokS::RParen,
            TokenType::LBrace => TokS::LBrace,
            TokenType::RBrace => TokS::RBrace,
            TokenType::LBracket => TokS::LBracket,
            TokenType::RBracket => TokS::RBracket,
            TokenType::Comma => TokS::Comma,
            TokenType::Semicolon => TokS::Semicolon,
            TokenType::Colon => TokS::Colon,
            TokenType::Eof => TokS::Eof,
        }
    }
}

/// A token with the 1-based line and column it started at.
#[derive(Debug, Clone)]
pub struct Token {
    pub token_type: TokenType,
    pub line: usize,
    pub column: usize,
}

/// The mathematical model of a token.
pub struct TokenS {
    pub kind: TokS,
    pub line: int,
    pub column: int,
}

impl Token {
    /// The mathematical model of this token.
    pub open spec fn deep(self) -> TokenS {
        TokenS { kind: self.token_type.deep(), line: self.line as int, column: self.column as int }
    }
}

/// The models of a token list, elementwise.
pub open spec fn deep_tokens(ts: Seq<Token>) -> Seq<TokenS> {
    ts.map(|i: int, t: Token| t.deep())
}

/// The mathematical model of a lexical error.
pub enum LexErrS {
    UnknownChar(char, int, int),
    UnterminatedString(int, int),
    MalformedNumber(int, int),
}

impl LexError {
    /// The mathematical model of this error.
    pub open spec fn deep(self) -> LexErrS {
        match self {
            LexError::UnknownChar { ch, line, column } => LexErrS::UnknownChar(
                ch,
                line as int,
                column as int,
            ),
            LexError::UnterminatedString { line, column } => LexErrS::UnterminatedString(
                line as int,
                column as int,
            ),
            LexError::MalformedNumber { line, column } => LexErrS::MalformedNumber(
                line as int,
                column as int,
            ),
        }
    }
}

/// Whether `c` is insignificant whitespace: the ASCII blanks plus the
/// common Unicode space separators, the ideographic space among them.
pub open spec fn is_space_char(c: char) -> bool {
    ||| c == ' '
    ||| c == '\t'
    ||| c == '\r'
    ||| c == '\n'
    ||| c == '\u{000B}'
    ||| c == '\u{000C}'
    ||| c == '\u{0085}'
    ||| c == '\u{00A0}'
    ||| c == '\u{2028}'
    ||| c == '\u{2029}'
    ||| c == '\u{1680}'
    ||| ('\u{2000}' <= c && c <= '\u{200A}')
    ||| c == '\u{202F}'
    ||| c == '\u{205F}'
    ||| c == '\u{3000}'
}

/// Whether `c` lies in the language's CJK word-character ranges: the
/// unified ideographs, extensions A to E, and the compatibility blocks.
pub open spec fn is_cjk_char(c: char) -> bool {
    ||| ('\u{4E00}' <= c && c <= '\u{9FFF}')
    ||| ('\u{3400}' <= c && c <= '\u{4DBF}')
    ||| ('\u{20000}' <= c && c <= '\u{2A6DF}')
    ||| ('\u{2A700}' <= c && c <= '\u{2B73F}')
    ||| ('\u{2B740}' <= c && c <= '\u{2B81F}')
    ||| ('\u{2B820}' <= c && c <= '\u{2CEAF}')
    ||| ('\u{F900}' <= c && c <= '\u{FAFF}')
    ||| ('\u{2F800}' <= c && c <= '\u{2FA1F}')
}

/// Whether `c` is an ASCII letter.
pub open spec fn is_ascii_letter(c: char) -> bool {
    ('a' <= c && c <= 'z') || ('A' <= c && c <= 'Z')
}

/// Whether `c` lies in the other letter ranges words accept: the Latin
/// supplements and extensions (the two arithmetic signs in Latin-1
/// excepted), Greek, Cyrillic, the kana, and the hangul syllables.
pub open spec fn is_letter_char(c: char) -> bool {
    ||| is_ascii_letter(c)
    ||| ('\u{00C0}' <= c && c <= '\u{02AF}' && c != '\u{00D7}' && c != '\u{00F7}')
    ||| ('\u{0370}' <= c && c <= '\u{03FF}')
    ||| ('\u{0400}' <= c && c <= '\u{04FF}')
    ||| ('\u{3040}' <= c && c <= '\u{30FF}')
    ||| ('\u{AC00}' <= c && c <= '\u{D7AF}')
}

/// Whether a word (identifier or keyword) may start with `c`.
pub open spec fn is_word_start(c: char) -> bool {
    is_cjk_char(c) || is_letter_char(c)
}

/// Whether a word may continue with `c`.
pub open spec fn is_word_continue(c: char) -> bool {
    is_word_start(c) || is_digit_char(c) || c == '_'
}

/// The keyword or boolean literal a spelling stands for, if any; every
/// other spelling is an identifier.
pub open spec fn keyword_of(w: Seq<char>) -> Option<TokS> {
    if w == seq!['如', '果'] {
        Some(TokS::KwIf)
    } else if w == seq!['否', '则'] {
        Some(TokS::KwElse)
    } else if w == seq!['循', '环'] {
        Some(TokS::KwLoop)
    } else if w == seq!['当'] {
        Some(TokS::KwWhile)
    } else if w == seq!['对', '于'] {
        Some(TokS::KwFor)
    } else if w == seq!['在'] {
        Some(TokS::KwIn)
    } else if w == seq!['函', '数'] {
        Some(TokS::KwFunc)
    } else if w == seq!['返', '回'] {
        Some(TokS::KwReturn)
    } else if w == seq!['让'] {
        Some(TokS::KwLet)
    } else if w == seq!['常', '量'] {
        Some(TokS::KwConst)
    } else if w == seq!['变', '量'] {
        Some(TokS::KwVar)
    } else if w == seq!['跳', '出'] {
        Some(TokS::KwBreak)
    } else if w == seq!['继', '续'] {
        Some(TokS::KwContinue)
    } else if w == seq!['且'] {
        Some(TokS::KwAnd)
    } else if w == seq!['或'] {
        Some(TokS::KwOr)
    } else if w == seq!['非'] {
        Some(TokS::KwNot)
    } else if w == seq!['真'] {
        Some(TokS::Bool(true))
    } else if w == seq!['假'] {
        Some(TokS::Bool(false))
    } else {
        None
    }
}

/// The line and column after reading `c` at (`line`, `col`).
pub open spec fn advance_pos(line: int, col: int, c: char) -> (int, int) {
    if c == '\n' {
        (line + 1, 1)
    } else {
        (line, col + 1)
    }
}

/// The position just past the run of decimal digits starting at `i`.
pub open spec fn digits_end(s: Seq<char>, i: int) -> int
    decreases s.len() - i
        when 0 <= i
{
    if i < s.len() && is_digit_char(s[i]) {
        digits_end(s, i + 1)
    } else {
        i
    }
}

/// The position just past the run of word characters starting at `i`.
pub open spec fn word_end(s: Seq<char>, i: int) -> int
    decreases s.len() - i
        when 0 <= i
{
    if i < s.len() && is_word_continue(s[i]) {
        word_end(s, i + 1)
    } else {
        i
    }
}

/// The position of the next newline at or after `i`, or the input's end.
pub open spec fn line_end(s: Seq<char>, i: int) -> int
    decreases s.len() - i
        when 0 <= i
{
    if i < s.len() && s[i] != '\n' {
        line_end(s, i + 1)
    } else {
        i
    }
}

/// A digit run ends within the input, at or past where it starts.
pub proof fn lemma_digits_end(s: Seq<char>, i: int)
    requires
        0 <= i <= s.len(),
    ensures
        i <= digits_end(s, i) <= s.len(),
    decreases s.len() - i,
{
    if i < s.len() && is_digit_char(s[i]) {
        lemma_digits_end(s, i + 1);
    }
}

/// A word ends within the input, at or past where it starts.
pub proof fn lemma_word_end(s: Seq<char>, i: int)
    requires
        0 <= i <= s.len(),
    ensures
        i <= word_end(s, i) <= s.len(),
    decreases s.len() - i,
{
    if i < s.len() && is_word_continue(s[i]) {
        lemma_word_end(s, i + 1);
    }
}

/// A line ends within the input, at or past where it starts.
pub proof fn lemma_line_end(s: Seq<char>, i: int)
    requires
        0 <= i <= s.len(),
    ensures
        i <= line_end(s, i) <= s.len(),
    decreases s.len() - i,
{
    if i < s.len() && s[i] != '\n' {
        lemma_line_end(s, i + 1);
    }
}

/// The decoded character an escape sequence stands for; an unknown escaped
/// character passes through literally.
pub open spec fn escape_char(c: char) -> char {
    if c == 'n' {
        '\n'
    } else if c == 't' {
        '\t'
    } else if c == 'r' {
        '\r'
    } else {
        c
    }
}

/// What scanning a string literal's content from `i` (just past the
/// opening quote) yields.
pub enum StrScan {
    /// The decoded value, and the position, line and column just past the
    /// closing quote.
    Done(Seq<char>, int, int, int),
    /// No closing quote before the input's end.
    Unterminated,
}

/// Scans a string literal's content: a closing quote ends it, a backslash
/// decodes the next character, and every other character passes through.
pub open spec fn scan_string(s: Seq<char>, i: int, line: int, col: int) -> StrScan
    decreases s.len() - i
        when 0 <= i
{
    if i >= s.len() {
        StrScan::Unterminated
    } else if s[i] == '"' {
        StrScan::Done(Seq::empty(), i + 1, line, col + 1)
    } else if s[i] == '\\' {
        if i + 1 < s.len() {
            let (l1, c1) = advance_pos(line, col, s[i]);
            let (l2, c2) = advance_pos(l1, c1, s[i + 1]);
            match scan_string(s, i + 2, l2, c2) {
                StrScan::Done(v, j, l, c) => StrScan::Done(
                    seq![escape_char(s[i + 1])] + v,
                    j,
                    l,
                    c,
                ),
                StrScan::Unterminated => StrScan::Unterminated,
            }
        } else {
            StrScan::Unterminated
        }
    } else {
        let (l1, c1) = advance_pos(line, col, s[i]);
        match scan_string(s, i + 1, l1, c1) {
            StrScan::Done(v, j, l, c) => StrScan::Done(seq![s[i]] + v, j, l, c),
            StrScan::Unterminated => StrScan::Unterminated,
        }
    }
}

/// What the lexer does next at position `i`: produce a token, skip
/// insignificant text, end the input, or fail.
pub enum NextTok {
    /// A token, and the position, line and column just past it.
    Tok(TokenS, int, int, int),
    /// Whitespace or a comment: the position, line and column just past it.
    Skip(int, int, int),
    /// The input is exhausted.
    End,
    /// A lexical error.
    Fail(LexErrS),
}

/// One step of the lexer at (`i`, `line`, `col`), mirroring the order the
/// lexer tries things in: whitespace, single-character tokens and comments,
/// the one-token-lookahead operators, string literals, numbers, words, and
/// finally the unknown-character error.
pub open spec fn next_step(s: Seq<char>, i: int, line: int, col: int) -> NextTok {
    if i >= s.len() {
        NextTok::End
    } else {
        let c = s[i];
        if is_space_char(c) {
            let (l1, c1) = advance_pos(line, col, c);
            NextTok::Skip(i + 1, l1, c1)
        } else if c == '+' {
            NextTok::Tok(TokenS { kind: TokS::Plus, line, column: col }, i + 1, line, col + 1)
        } else if c == '-' {
            NextTok::Tok(TokenS { kind: TokS::Minus, line, column: col }, i + 1, line, col + 1)
        } else if c == '*' {
            NextTok::Tok(TokenS { kind: TokS::Star, line, column: col }, i + 1, line, col + 1)
        } else if c == '/' {
            if i + 1 < s.len() && s[i + 1] == '/' {
                let j = line_end(s, i + 2);
                NextTok::Skip(j, line, col + (j - i))
            } else {
                NextTok::Tok(TokenS { kind: TokS::Slash, line, column: col }, i + 1, line, col + 1)
            }
        } else if c == '=' {
            if i + 1 < s.len() && s[i + 1] == '=' {
                NextTok::Tok(TokenS { kind: TokS::Eq, line, column: col }, i + 2, line, col + 2)
            } else {
                NextTok::Tok(TokenS { kind: TokS::Assign, line, column: col }, i + 1, line, col + 1)
            }
        } else if c == '!' {
            if i + 1 < s.len() && s[i + 1] == '=' {
                NextTok::Tok(TokenS { kind: TokS::Ne, line, column: col }, i + 2, line, col + 2)
            } else {
                NextTok::Fail(LexErrS::UnknownChar('!', line, col))
            }
        } else if c == '>' {
            if i + 1 < s.len() && s[i + 1] == '=' {
                NextTok::Tok(TokenS { kind: TokS::Ge, line, column: col }, i + 2, line, col + 2)
            } else {
                NextTok::Tok(TokenS { kind: TokS::Gt, line, column: col }, i + 1, line, col + 1)
            }
        } else if c == '<' {
            if i + 1 < s.len() && s[i + 1] == '=' {
                NextTok::Tok(TokenS { kind: TokS::Le, line, column: col }, i + 2, line, col + 2)
            } else {
                NextTok::Tok(TokenS { kind: TokS::Lt, line, column: col }, i + 1, line, col + 1)
            }
        } else if c == '(' {
            NextTok::Tok(TokenS { kind: TokS::LParen, line, column: col }, i + 1, line, col + 1)
        } else if c == ')' {
            NextTok::Tok(TokenS { kind: TokS::RParen, line, column: col }, i + 1, line, col + 1)
        } else if c == '{' {
            NextTok::Tok(TokenS { kind: TokS::LBrace, line, column: col }, i + 1, line, col + 1)
        } else if c == '}' {
            NextTok::Tok(TokenS { kind: TokS::RBrace, line, column: col }, i + 1, line, col + 1)
        } else if c == '[' {
            NextTok::Tok(TokenS { kind: TokS::LBracket, line, column: col }, i + 1, line, col + 1)
        } else if c == ']' {
            NextTok::Tok(TokenS { kind: TokS::RBracket, line, column: col }, i + 1, line, col + 1)
        } else if c == ',' {
            NextTok::Tok(TokenS { kind: TokS::Comma, line, column: col }, i + 1, line, col + 1)
        } else if c == ';' {
            NextTok::Tok(TokenS { kind: TokS::Semicolon, line, column: col }, i + 1, line, col + 1)
        } else if c == ':' {
            NextTok::Tok(TokenS { kind: TokS::Colon, line, column: col }, i + 1, line, col + 1)
        } else if c == '.' {
            NextTok::Tok(TokenS { kind: TokS::Dot, line, column: col }, i + 1, line, col + 1)
        } else if c == '"' {
            match scan_string(s, i + 1, line, col + 1) {
                StrScan::Done(v, j, l, cc) => NextTok::Tok(
                    TokenS { kind: TokS::Str(v), line, column: col + 1 },
                    j,
                    l,
                    cc,
                ),
                StrScan::Unterminated => NextTok::Fail(
                    LexErrS::UnterminatedString(line, col + 1),
                ),
            }
        } else if is_digit_char(c) {
            let d = digits_end(s, i);
            let j = if d < s.len() && s[d] == '.' {
                digits_end(s, d + 1)
            } else {
                d
            };
            let whole = digits_value(s.subrange(i, d));
            let frac_zero = forall|k: int| d + 1 <= k < j ==> s[k] == '0';
            if whole <= i64::MAX && frac_zero {
                NextTok::Tok(
                    TokenS { kind: TokS::Num(whole), line, column: col },
                    j,
                    line,
                    col + (j - i),
                )
            } else {
                NextTok::Fail(LexErrS::MalformedNumber(line, col))
            }
        } else if is_word_start(c) {
            let j = word_end(s, i);
            let w = s.subrange(i, j);
            let kind = match keyword_of(w) {
                Some(k) => k,
                None => TokS::Ident(w),
            };
            NextTok::Tok(TokenS { kind, line, column: col }, j, line, col + (j - i))
        } else {
            NextTok::Fail(LexErrS::UnknownChar(c, line, col))
        }
    }
}

/// A scanned string ends within the input, past where it starts.
pub proof fn lemma_scan_string_advances(s: Seq<char>, i: int, line: int, col: int)
    requires
        0 <= i <= s.len(),
    ensures
        scan_string(s, i, line, col) matches StrScan::Done(_, j, _, _) ==> i < j <= s.len(),
    decreases s.len() - i,
{
    if i < s.len() && s[i] != '"' {
        if s[i] == '\\' && i + 1 < s.len() {
            let (l1, c1) = advance_pos(line, col, s[i]);
            let (l2, c2) = advance_pos(l1, c1, s[i + 1]);
            lemma_scan_string_advances(s, i + 2, l2, c2);
        } else if s[i] != '\\' {
            let (l1, c1) = advance_pos(line, col, s[i]);
            lemma_scan_string_advances(s, i + 1, l1, c1);
        }
    }
}

/// Each lexer step moves strictly forward through the input.
pub proof fn lemma_next_step_advances(s: Seq<char>, i: int, line: int, col: int)
    requires
        0 <= i <= s.len(),
    ensures
        next_step(s, i, line, col) matches NextTok::Tok(_, j, _, _) ==> i < j <= s.len(),
        next_step(s, i, line, col) matches NextTok::Skip(j, _, _) ==> i < j <= s.len(),
{
    if i < s.len() {
        let c = s[i];
        if c == '/' && i + 1 < s.len() && s[i + 1] == '/' {
            lemma_line_end(s, i + 2);
        }
        if c == '"' {
            lemma_scan_string_advances(s, i + 1, line, col + 1);
        }
        if is_digit_char(c) {
            lemma_digits_end(s, i + 1);
            let d = digits_end(s, i);
            if d < s.len() && s[d] == '.' {
                lemma_digits_end(s, d + 1);
            }
        }
        if is_word_continue(c) {
            lemma_word_end(s, i + 1);
        }
    }
}

/// The token sequence the input from `i` on stands for, ending in the
/// end-of-input token, or the first lexical error. The impossible
/// non-advancing branches only keep the recursion well-founded:
/// [`lemma_next_step_advances`] shows they are never taken.
pub open spec fn tokenize_from(s: Seq<char>, i: int, line: int, col: int) -> Result<
    Seq<TokenS>,
    LexErrS,
>
    decreases s.len() - i
        when 0 <= i
{
    match next_step(s, i, line, col) {
        NextTok::End => Ok(seq![TokenS { kind: TokS::Eof, line, column: col }]),
        NextTok::Fail(e) => Err(e),
        NextTok::Tok(t, j, l, c) => if i < j <= s.len() {
            match tokenize_from(s, j, l, c) {
                Ok(rest) => Ok(seq![t] + rest),
                Err(e) => Err(e),
            }
        } else {
            Err(LexErrS::UnknownChar(s[i], line, col))
        },
        NextTok::Skip(j, l, c) => if i < j <= s.len() {
            tokenize_from(s, j, l, c)
        } else {
            Err(LexErrS::UnknownChar(s[i], line, col))
        },
    }
}

/// What tokenizing a whole source text yields.
pub open spec fn tokens_of(s: Seq<char>) -> Result<Seq<TokenS>, LexErrS> {
    tokenize_from(s, 0, 1, 1)
}

/// A successful lexing always yields at least the end-of-input token.
pub proof fn lemma_tokens_nonempty(s: Seq<char>, i: int, line: int, col: int)
    requires
        0 <= i <= s.len(),
    ensures
        tokenize_from(s, i, line, col) matches Ok(ts) ==> ts.len() >= 1,
    decreases s.len() - i,
{
    match next_step(s, i, line, col) {
        NextTok::Tok(t, j, l, c) => {
            if i < j <= s.len() {
                lemma_tokens_nonempty(s, j, l, c);
            }
        }
        NextTok::Skip(j, l, c) => {
            if i < j <= s.len() {
                lemma_tokens_nonempty(s, j, l, c);
            }
        }
        _ => {}
    }
}

/// Prefixes already-produced tokens onto a remaining-lexing result.
pub open spec fn prepend_tokens(ts: Seq<TokenS>, r: Result<Seq<TokenS>, LexErrS>) -> Result<
    Seq<TokenS>,
    LexErrS,
> {
    match r {
        Ok(rest) => Ok(ts + rest),
        Err(e) => Err(e),
    }
}

/// Whether `c` is insignificant whitespace.
fn is_space(c: char) -> (r: bool)
    ensures
        r == is_space_char(c),
{
    c == ' ' || c == '\t' || c == '\r' || c == '\n' || c == '\u{000B}' || c == '\u{000C}'
        || c == '\u{0085}' || c == '\u{00A0}' || c == '\u{2028}' || c == '\u{2029}'
        || c == '\u{1680}' || ('\u{2000}' <= c && c <= '\u{200A}') || c == '\u{202F}'
        || c == '\u{205F}' || c == '\u{3000}'
}

/// Whether `c` is a decimal digit.
fn is_digit(c: char) -> (r: bool)
    ensures
        r == is_digit_char(c),
{
    '0' <= c && c <= '9'
}

/// Whether `c` is a letter a word accepts, per [`is_letter_char`].
fn is_letter(c: char) -> (r: bool)
    ensures
        r == is_letter_char(c),
{
    ('a' <= c && c <= 'z') || ('A' <= c && c <= 'Z') || ('\u{00C0}' <= c && c <= '\u{02AF}'
        && c != '\u{00D7}' && c != '\u{00F7}') || ('\u{0370}' <= c && c <= '\u{03FF}') || (
    '\u{0400}' <= c && c <= '\u{04FF}') || ('\u{3040}' <= c && c <= '\u{30FF}') || (
    '\u{AC00}' <= c && c <= '\u{D7AF}')
}

/// The token a word spells: a keyword, a boolean literal, or an identifier.
fn word_token(w: &Vec<char>) -> (r: TokenType)
    ensures
        r.deep() == (match keyword_of(w@) {
            Some(k) => k,
            None => TokS::Ident(w@),
        }),
{
    if w.len() == 1 {
        let c = w[0];
        proof {
            assert(w@ =~= seq![w@[0]]);
        }
        if c == '当' {
            return TokenType::KwWhile;
        }
        if c == '在' {
            return TokenType::KwIn;
        }
        if c == '让' {
            return TokenType::KwLet;
        }
        if c == '且' {
            return TokenType::KwAnd;
        }
        if c == '或' {
            return TokenType::KwOr;
        }
        if c == '非' {
            return TokenType::KwNot;
        }
        if c == '真' {
            return TokenType::Bool(true);
        }
        if c == '假' {
            return TokenType::Bool(false);
        }
    } else if w.len() == 2 {
        let a = w[0];
        let b = w[1];
        proof {
            assert(w@ =~= seq![w@[0], w@[1]]);
        }
        if a == '如' && b == '果' {
            return TokenType::KwIf;
        }
        if a == '否' && b == '则' {
            return TokenType::KwElse;
        }
        if a == '循' && b == '环' {
            return TokenType::KwLoop;
        }
        if a == '对' && b == '于' {
            return TokenType::KwFor;
        }
        if a == '函' && b == '数' {
            return TokenType::KwFunc;
        }
        if a == '返' && b == '回' {
            return TokenType::KwReturn;
        }
        if a == '常' && b == '量' {
            return TokenType::KwConst;
        }
        if a == '变' && b == '量' {
            return TokenType::KwVar;
        }
        if a == '跳' && b == '出' {
            return TokenType::KwBreak;
        }
        if a == '继' && b == '续' {
            return TokenType::KwContinue;
        }
    }
    let mut s = String::new();
    let mut i: usize = 0;
    while i < w.len()
        invariant
            i <= w@.len(),
            s@ == w@.take(i as int),
        decreases w@.len() - i,
    {
        push_char(&mut s, w[i]);
        proof {
            assert(s@ =~= w@.take(i + 1 as int));
        }
        i = i + 1;
    }
    proof {
        assert(w@.take(w@.len() as int) =~= w@);
    }
    TokenType::Ident(s)
}

/// The lexer's cursor over the source text, with the 1-based line and
/// column of the next character.
#[derive(Debug)]
pub struct Lexer {
    input: Vec<char>,
    pos: usize,
    line: usize,
    column: usize,
}

impl Lexer {
    /// The source text under the cursor.
    pub closed spec fn source(self) -> Seq<char> {
        self.input@
    }

    /// The cursor's invariant: it is inside the text, and line and column
    /// stay small enough that position arithmetic cannot overflow.
    pub closed spec fn wf(self) -> bool {
        &&& self.pos <= self.input@.len()
        &&& self.input@.len() <= usize::MAX - 2
        &&& 1 <= self.line <= self.pos + 1
        &&& 1 <= self.column <= self.pos + 1
    }

    /// Whether the cursor still stands at the very beginning.
    pub closed spec fn at_start(self) -> bool {
        self.pos == 0 && self.line == 1 && self.column == 1
    }

    /// A lexer over `input`, at line 1, column 1. The length bound is a
    /// machine limit: positions one or two past the text must fit in usize.
    pub fn new(input: &str) -> (r: Lexer)
        requires
            input@.len() <= usize::MAX - 2,
        ensures
            r.wf(),
            r.at_start(),
            r.source() == input@,
    {
        Lexer { input: str_chars(input), pos: 0, line: 1, column: 1 }
    }

    /// Whether `c` lies in the language's CJK word-character ranges.
    pub fn is_chinese_char(&self, c: char) -> (r: bool)
        ensures
            r == is_cjk_char(c),
    {
        ('\u{4E00}' <= c && c <= '\u{9FFF}') || ('\u{3400}' <= c && c <= '\u{4DBF}') || (
        '\u{20000}' <= c && c <= '\u{2A6DF}') || ('\u{2A700}' <= c && c <= '\u{2B73F}') || (
        '\u{2B740}' <= c && c <= '\u{2B81F}') || ('\u{2B820}' <= c && c <= '\u{2CEAF}') || (
        '\u{F900}' <= c && c <= '\u{FAFF}') || ('\u{2F800}' <= c && c <= '\u{2FA1F}')
    }

    /// Steps the cursor over one character, keeping line and column.
    fn advance(&mut self)
        requires
            old(self).wf(),
            old(self).pos < old(self).input@.len(),
        ensures
            final(self).wf(),
            final(self).input == old(self).input,
            final(self).pos == old(self).pos + 1,
            (final(self).line as int, final(self).column as int) == advance_pos(
                old(self).line as int,
                old(self).column as int,
                old(self).input@[old(self).pos as int],
            ),
    {
        let c = self.input[self.pos];
        self.pos = self.pos + 1;
        if c == '\n' {
            self.line = self.line + 1;
            self.column = 1;
        } else {
            self.column = self.column + 1;
        }
    }

    /// Tokenizes the whole source: the token sequence ending in the
    /// end-of-input token that [`tokens_of`] gives, or its first lexical
    /// error.
    #[verifier::loop_isolation(false)]
    #[verifier::rlimit(100)]
    pub fn tokenize(&mut self) -> (r: Result<Vec<Token>, LexError>)
        requires
            old(self).wf(),
            old(self).at_start(),
        ensures
            match r {
                Ok(ts) => tokens_of(old(self).source()) == Ok::<_, LexErrS>(deep_tokens(ts@)),
                Err(e) => tokens_of(old(self).source()) == Err::<Seq<TokenS>, _>(e.deep()),
            },
    {
        let ghost s = self.input@;
        let mut out: Vec<Token> = Vec::new();
        loop
            invariant
                self.wf(),
                self.input@ == s,
                prepend_tokens(
                    deep_tokens(out@),
                    tokenize_from(s, self.pos as int, self.line as int, self.column as int),
                ) == tokens_of(s),
            decreases s.len() - self.pos,
        {
            let ghost pos0 = self.pos as int;
            let ghost line0 = self.line as int;
            let ghost col0 = self.column as int;
            proof {
                lemma_next_step_advances(s, pos0, line0, col0);
            }
            if self.pos == self.input.len() {
                let tok = Token { token_type: TokenType::Eof, line: self.line, column: self.column };
                let ghost outpre = out@;
                out.push(tok);
                proof {
                    assert(deep_tokens(out@) =~= deep_tokens(outpre) + seq![
                        TokenS { kind: TokS::Eof, line: line0, column: col0 },
                    ]);
                }
                return Ok(out);
            }
            let c = self.input[self.pos];
            if is_space(c) {
                self.advance();
            } else if c == '+' || c == '-' || c == '*' || c == '(' || c == ')' || c == '{'
                || c == '}' || c == '[' || c == ']' || c == ',' || c == ';' || c == ':'
                || c == '.' {
                let kind = if c == '+' {
                    TokenType::Plus
                } else if c == '-' {
                    TokenType::Minus
                } else if c == '*' {
                    TokenType::Star
                } else if c == '(' {
                    TokenType::LParen
                } else if c == ')' {
                    TokenType::RParen
                } else if c == '{' {
                    TokenType::LBrace
                } else if c == '}' {
                    TokenType::RBrace
                } else if c == '[' {
                    TokenType::LBracket
                } else if c == ']' {
                    TokenType::RBracket
                } else if c == ',' {
                    TokenType::Comma
                } else if c == ';' {
                    TokenType::Semicolon
                } else if c == ':' {
                    TokenType::Colon
                } else {
                    TokenType::Dot
                };
                let tok = Token { token_type: kind, line: self.line, column: self.column };
                self.advance();
                self.push_token(tok, Ghost(s), Ghost(pos0), Ghost(line0), Ghost(col0), &mut out);
            } else if c == '/' {
                if self.pos + 1 < self.input.len() && self.input[self.pos + 1] == '/' {
                    // a line comment: skip to (not including) the next newline
                    self.advance();
                    self.advance();
                    while self.pos < self.input.len() && self.input[self.pos] != '\n'
                        invariant
                            self.wf(),
                            self.input@ == s,
                            pos0 + 2 <= self.pos <= s.len(),
                            self.line == line0,
                            self.column == col0 + (self.pos - pos0),
                            line_end(s, self.pos as int) == line_end(s, pos0 + 2),
                        decreases s.len() - self.pos,
                    {
                        self.advance();
                    }
                    proof {
                        assert(line_end(s, self.pos as int) == self.pos as int);
                    }
                } else {
                    let tok = Token {
                        token_type: TokenType::Slash,
                        line: self.line,
                        column: self.column,
                    };
                    self.advance();
                    self.push_token(
                        tok,
                        Ghost(s),
                        Ghost(pos0),
                        Ghost(line0),
                        Ghost(col0),
                        &mut out,
                    );
                }
            } else if c == '!' {
                if self.pos + 1 < self.input.len() && self.input[self.pos + 1] == '=' {
                    let tok = Token {
                        token_type: TokenType::Ne,
                        line: self.line,
                        column: self.column,
                    };
                    self.advance();
                    self.advance();
                    self.push_token(
                        tok,
                        Ghost(s),
                        Ghost(pos0),
                        Ghost(line0),
                        Ghost(col0),
                        &mut out,
                    );
                } else {
                    return Err(
                        LexError::UnknownChar { ch: '!', line: self.line, column: self.column },
                    );
                }
            } else if c == '=' || c == '>' || c == '<' {
                let two = self.pos + 1 < self.input.len() && self.input[self.pos + 1] == '=';
                let kind = if c == '=' {
                    if two {
                        TokenType::Eq
                    } else {
                        TokenType::Assign
                    }
                } else if c == '>' {
                    if two {
                        TokenType::Ge
                    } else {
                        TokenType::Gt
                    }
                } else {
                    if two {
                        TokenType::Le
                    } else {
                        TokenType::Lt
                    }
                };
                let tok = Token { token_type: kind, line: self.line, column: self.column };
                self.advance();
                if two {
                    self.advance();
                }
                self.push_token(tok, Ghost(s), Ghost(pos0), Ghost(line0), Ghost(col0), &mut out);
            } else if c == '"' {
                match self.lex_string() {
                    Ok(tok) => {
                        self.push_token(
                            tok,
                            Ghost(s),
                            Ghost(pos0),
                            Ghost(line0),
                            Ghost(col0),
                            &mut out,
                        );
                    }
                    Err(e) => {
                        return Err(e);
                    }
                }
            } else if is_digit(c) {
                match self.lex_number() {
                    Ok(tok) => {
                        self.push_token(
                            tok,
                            Ghost(s),
                            Ghost(pos0),
                            Ghost(line0),
                            Ghost(col0),
                            &mut out,
                        );
                    }
                    Err(e) => {
                        return Err(e);
                    }
                }
            } else if self.is_chinese_char(c) || is_letter(c) {
                let tok = self.lex_word();
                self.push_token(tok, Ghost(s), Ghost(pos0), Ghost(line0), Ghost(col0), &mut out);
            } else {
                return Err(LexError::UnknownChar { ch: c, line: self.line, column: self.column });
            }
        }
    }

    /// Reads one string literal, decoding escapes, per the scanning rule of
    /// [`scan_string`].
    #[verifier::loop_isolation(false)]
    fn lex_string(&mut self) -> (r: Result<Token, LexError>)
        requires
            old(self).wf(),
            old(self).pos < old(self).input@.len(),
            old(self).input@[old(self).pos as int] == '"',
        ensures
            final(self).wf(),
            final(self).input@ == old(self).input@,
            match r {
                Ok(tok) => next_step(
                    old(self).input@,
                    old(self).pos as int,
                    old(self).line as int,
                    old(self).column as int,
                ) == NextTok::Tok(
                    tok.deep(),
                    final(self).pos as int,
                    final(self).line as int,
                    final(self).column as int,
                ),
                Err(e) => next_step(
                    old(self).input@,
                    old(self).pos as int,
                    old(self).line as int,
                    old(self).column as int,
                ) == NextTok::Fail(e.deep()),
            },
    {
        let ghost s = self.input@;
        let ghost pos0 = self.pos as int;
        let ghost line0 = self.line as int;
        let ghost col0 = self.column as int;
        let start_line = self.line;
        let start_col = self.column + 1;
        self.advance();
        let mut value = String::new();
        loop
            invariant
                self.wf(),
                self.input@ == s,
                pos0 + 1 <= self.pos <= s.len(),
                (match scan_string(s, self.pos as int, self.line as int, self.column as int) {
                    StrScan::Done(v, j, l, cc) => scan_string(s, pos0 + 1, line0, col0 + 1)
                        == StrScan::Done(value@ + v, j, l, cc),
                    StrScan::Unterminated => scan_string(s, pos0 + 1, line0, col0 + 1)
                        is Unterminated,
                }),
            decreases s.len() - self.pos,
        {
            if self.pos == self.input.len() {
                return Err(LexError::UnterminatedString { line: start_line, column: start_col });
            }
            let sc = self.input[self.pos];
            if sc == '"' {
                self.advance();
                proof {
                    assert(value@ + Seq::<char>::empty() =~= value@);
                }
                return Ok(
                    Token { token_type: TokenType::Str(value), line: start_line, column: start_col },
                );
            } else if sc == '\\' {
                if self.pos + 1 < self.input.len() {
                    let ec0 = self.input[self.pos + 1];
                    let ec = if ec0 == 'n' {
                        '\n'
                    } else if ec0 == 't' {
                        '\t'
                    } else if ec0 == 'r' {
                        '\r'
                    } else {
                        ec0
                    };
                    let ghost vpre = value@;
                    push_char(&mut value, ec);
                    self.advance();
                    self.advance();
                    proof {
                        assert(value@ =~= vpre + seq![ec]);
                        assert forall|v2: Seq<char>|
                            true implies (vpre + seq![ec]) + v2 =~= vpre + (seq![ec] + v2) by {}
                    }
                } else {
                    return Err(
                        LexError::UnterminatedString { line: start_line, column: start_col },
                    );
                }
            } else {
                let ghost vpre = value@;
                push_char(&mut value, sc);
                self.advance();
                proof {
                    assert(value@ =~= vpre + seq![sc]);
                    assert forall|v2: Seq<char>|
                        true implies (vpre + seq![sc]) + v2 =~= vpre + (seq![sc] + v2) by {}
                }
            }
        }
    }

    /// Reads one number literal: decimal digits with at most one decimal
    /// point; a nonzero fractional part or a value over the number range is
    /// the malformed-number error.
    #[verifier::loop_isolation(false)]
    fn lex_number(&mut self) -> (r: Result<Token, LexError>)
        requires
            old(self).wf(),
            old(self).pos < old(self).input@.len(),
            is_digit_char(old(self).input@[old(self).pos as int]),
            !is_space_char(old(self).input@[old(self).pos as int]),
        ensures
            final(self).wf(),
            final(self).input@ == old(self).input@,
            match r {
                Ok(tok) => next_step(
                    old(self).input@,
                    old(self).pos as int,
                    old(self).line as int,
                    old(self).column as int,
                ) == NextTok::Tok(
                    tok.deep(),
                    final(self).pos as int,
                    final(self).line as int,
                    final(self).column as int,
                ),
                Err(e) => next_step(
                    old(self).input@,
                    old(self).pos as int,
                    old(self).line as int,
                    old(self).column as int,
                ) == NextTok::Fail(e.deep()),
            },
    {
        let ghost s = self.input@;
        let ghost pos0 = self.pos as int;
        let ghost line0 = self.line as int;
        let ghost col0 = self.column as int;
        let start_line = self.line;
        let start_col = self.column;
        let mut acc: i64 = 0;
        let mut over = false;
        while self.pos < self.input.len() && is_digit(self.input[self.pos])
            invariant
                self.wf(),
                self.input@ == s,
                pos0 <= self.pos <= s.len(),
                self.line == line0,
                self.column == col0 + (self.pos - pos0),
                digits_end(s, self.pos as int) == digits_end(s, pos0),
                0 <= acc,
                !over ==> acc == digits_value(s.subrange(pos0, self.pos as int)),
                over ==> digits_value(s.subrange(pos0, self.pos as int)) > i64::MAX,
            decreases s.len() - self.pos,
        {
            let d = self.input[self.pos];
            let dv: i64 = (d as u32 as i64) - ('0' as u32 as i64);
            let ghost sub0 = s.subrange(pos0, self.pos as int);
            let ghost sub1 = s.subrange(pos0, self.pos + 1 as int);
            proof {
                assert(sub1.drop_last() =~= sub0);
                assert(sub1.last() == s[self.pos as int]);
            }
            if !over {
                match acc.checked_mul(10) {
                    Some(m) => match m.checked_add(dv) {
                        Some(a2) => {
                            acc = a2;
                        }
                        None => {
                            over = true;
                        }
                    },
                    None => {
                        over = true;
                    }
                }
            }
            self.advance();
        }
        proof {
            assert(digits_end(s, self.pos as int) == self.pos as int);
        }
        let ghost dend = self.pos as int;
        let mut frac_bad = false;
        if self.pos < self.input.len() && self.input[self.pos] == '.' {
            self.advance();
            let ghost dstart = self.pos as int;
            while self.pos < self.input.len() && is_digit(self.input[self.pos])
                invariant
                    self.wf(),
                    self.input@ == s,
                    dstart <= self.pos <= s.len(),
                    self.line == line0,
                    self.column == col0 + (self.pos - pos0),
                    digits_end(s, self.pos as int) == digits_end(s, dstart),
                    !frac_bad ==> (forall|k: int| dstart <= k < self.pos ==> s[k] == '0'),
                    frac_bad ==> !(forall|k: int|
                        dstart <= k < digits_end(s, dstart) ==> s[k] == '0'),
                decreases s.len() - self.pos,
            {
                if self.input[self.pos] != '0' {
                    proof {
                        lemma_digits_end(s, self.pos + 1 as int);
                    }
                    frac_bad = true;
                }
                self.advance();
            }
            proof {
                assert(digits_end(s, self.pos as int) == self.pos as int);
            }
        }
        if over || frac_bad {
            return Err(LexError::MalformedNumber { line: start_line, column: start_col });
        }
        Ok(Token { token_type: TokenType::Num(acc), line: start_line, column: start_col })
    }

    /// Reads one word and maps it to its keyword, boolean literal or
    /// identifier token.
    #[verifier::loop_isolation(false)]
    fn lex_word(&mut self) -> (tok: Token)
        requires
            old(self).wf(),
            old(self).pos < old(self).input@.len(),
            is_word_start(old(self).input@[old(self).pos as int]),
            !is_space_char(old(self).input@[old(self).pos as int]),
            !is_digit_char(old(self).input@[old(self).pos as int]),
        ensures
            final(self).wf(),
            final(self).input@ == old(self).input@,
            next_step(
                old(self).input@,
                old(self).pos as int,
                old(self).line as int,
                old(self).column as int,
            ) == NextTok::Tok(
                tok.deep(),
                final(self).pos as int,
                final(self).line as int,
                final(self).column as int,
            ),
    {
        let ghost s = self.input@;
        let ghost pos0 = self.pos as int;
        let ghost line0 = self.line as int;
        let ghost col0 = self.column as int;
        let start_line = self.line;
        let start_col = self.column;
        let mut w: Vec<char> = Vec::new();
        while self.pos < self.input.len() && (self.is_chinese_char(self.input[self.pos])
            || is_letter(self.input[self.pos]) || is_digit(self.input[self.pos])
            || self.input[self.pos] == '_')
            invariant
                self.wf(),
                self.input@ == s,
                pos0 <= self.pos <= s.len(),
                self.line == line0,
                self.column == col0 + (self.pos - pos0),
                word_end(s, self.pos as int) == word_end(s, pos0),
                w@ == s.subrange(pos0, self.pos as int),
            decreases s.len() - self.pos,
        {
            w.push(self.input[self.pos]);
            proof {
                assert(w@ =~= s.subrange(pos0, self.pos + 1 as int));
            }
            self.advance();
        }
        proof {
            assert(word_end(s, self.pos as int) == self.pos as int);
        }
        let kind = word_token(&w);
        Token { token_type: kind, line: start_line, column: start_col }
    }

    /// Appends one produced token, carrying the lexing invariant one step:
    /// the remaining text's tokens after the produced one are the remaining
    /// text's tokens before it.
    fn push_token(
        &self,
        tok: Token,
        Ghost(s): Ghost<Seq<char>>,
        Ghost(pos0): Ghost<int>,
        Ghost(line0): Ghost<int>,
        Ghost(col0): Ghost<int>,
        out: &mut Vec<Token>,
    )
        requires
            self.wf(),
            self.input@ == s,
            next_step(s, pos0, line0, col0) == NextTok::Tok(
                tok.deep(),
                self.pos as int,
                self.line as int,
                self.column as int,
            ),
            0 <= pos0 < self.pos as int <= s.len(),
        ensures
            final(out)@ == old(out)@.push(tok),
            prepend_tokens(
                deep_tokens(final(out)@),
                tokenize_from(s, self.pos as int, self.line as int, self.column as int),
            ) == prepend_tokens(deep_tokens(old(out)@), tokenize_from(s, pos0, line0, col0)),
    {
        proof {
            let rest = tokenize_from(
                s,
                self.pos as int,
                self.line as int,
                self.column as int,
            );
            assert(deep_tokens(out@.push(tok)) =~= deep_tokens(out@) + seq![tok.deep()]);
            match rest {
                Ok(ts) => {
                    assert((deep_tokens(out@) + seq![tok.deep()]) + ts =~= deep_tokens(out@) + (
                    seq![tok.deep()] + ts));
                }
                Err(_) => {}
            }
        }
        out.push(tok);
    }
}

} // verus!
