//! The lexical grammar: which lexeme begins at a position of the source, and
//! the sequence of tokens and diagnostics that a whole source amounts to.
//!
//! Everything here is mathematics over `Seq<char>`; the scanner is proved to
//! compute exactly this.

use crate::diagnostic::{DiagnosticView, ErrorKind};
use crate::token::{LiteralView, TokenView};
use crate::token_type::TokenType;
use vstd::prelude::*;

verus! {

/// Whether `c` is an ASCII decimal digit.
pub open spec fn is_digit(c: char) -> bool {
    '0' <= c <= '9'
}

/// Whether `c` is an ASCII letter or the underscore.
pub open spec fn is_alpha(c: char) -> bool {
    ('a' <= c <= 'z') || ('A' <= c <= 'Z') || c == '_'
}

/// Whether `c` may continue an identifier.
pub open spec fn is_alpha_numeric(c: char) -> bool {
    is_alpha(c) || is_digit(c)
}

/// Whether `c` is white space that stays on the line.
pub open spec fn is_blank(c: char) -> bool {
    c == ' ' || c == '\r' || c == '\t'
}

/// The category of a character that is a token by itself.
pub open spec fn punctuation(c: char) -> Option<TokenType> {
    if c == '(' {
        Some(TokenType::LeftParen)
    } else if c == ')' {
        Some(TokenType::RightParen)
    } else if c == '{' {
        Some(TokenType::LeftBrace)
    } else if c == '}' {
        Some(TokenType::RightBrace)
    } else if c == ',' {
        Some(TokenType::Comma)
    } else if c == '.' {
        Some(TokenType::Dot)
    } else if c == '-' {
        Some(TokenType::Minus)
    } else if c == '+' {
        Some(TokenType::Plus)
    } else if c == ';' {
        Some(TokenType::Semicolon)
    } else if c == '*' {
        Some(TokenType::Star)
    } else {
        None
    }
}

/// The category of an operator: that of the character `c` alone, or, where
/// `with_equal` holds, that of `c` with `=` behind it.
pub open spec fn operator(c: char, with_equal: bool) -> Option<TokenType> {
    if c == '!' {
        Some(if with_equal { TokenType::BangEqual } else { TokenType::Bang })
    } else if c == '=' {
        Some(if with_equal { TokenType::EqualEqual } else { TokenType::Equal })
    } else if c == '<' {
        Some(if with_equal { TokenType::LessEqual } else { TokenType::Less })
    } else if c == '>' {
        Some(if with_equal { TokenType::GreaterEqual } else { TokenType::Greater })
    } else {
        None
    }
}

/// The reserved words, each with its category.
pub open spec fn keywords() -> Map<Seq<char>, TokenType> {
    map![
        "and"@ => TokenType::And,
        "class"@ => TokenType::Class,
        "else"@ => TokenType::Else,
        "false"@ => TokenType::False,
        "for"@ => TokenType::For,
        "fun"@ => TokenType::Fun,
        "if"@ => TokenType::If,
        "nil"@ => TokenType::Nil,
        "or"@ => TokenType::Or,
        "print"@ => TokenType::Print,
        "return"@ => TokenType::Return,
        "super"@ => TokenType::Super,
        "this"@ => TokenType::This,
        "true"@ => TokenType::True,
        "var"@ => TokenType::Var,
        "while"@ => TokenType::While
    ]
}

/// The category of an identifier-shaped lexeme: that of the reserved word it
/// is, letter for letter, and `Identifier` if it is none.
pub open spec fn word_kind(text: Seq<char>) -> TokenType {
    if keywords().contains_key(text) {
        keywords()[text]
    } else {
        TokenType::Identifier
    }
}

/// The kinds of character runs that a lexeme is made of.
pub enum Run {
    /// Decimal digits.
    Digits,
    /// Letters, digits and underscores.
    Word,
    /// Anything but a double quote.
    Quoted,
}

impl Run {
    /// Whether `c` may stand in a run of this kind.
    pub open spec fn admits(self, c: char) -> bool {
        match self {
            Run::Digits => is_digit(c),
            Run::Word => is_alpha_numeric(c),
            Run::Quoted => c != '"',
        }
    }
}

/// The index just behind the longest run of kind `run` that begins at `from`:
/// the first index at or after `from` whose character the run does not admit,
/// or the length of the source where there is none.
pub open spec fn run_end(src: Seq<char>, from: int, run: Run) -> int
    decreases src.len() - from,
{
    if 0 <= from < src.len() && run.admits(src[from]) {
        run_end(src, from + 1, run)
    } else {
        from
    }
}

/// The number of newline characters in `src[from..to]`.
pub open spec fn newlines(src: Seq<char>, from: int, to: int) -> nat
    decreases to - from,
{
    if from < to {
        newlines(src, from, to - 1) + if src[to - 1] == '\n' {
            1nat
        } else {
            0nat
        }
    } else {
        0
    }
}

/// The index just behind the number literal that begins at `start`: a run of
/// digits, and after it a point and a second run of digits where the point
/// is followed by a digit.
pub open spec fn number_end(src: Seq<char>, start: int) -> int {
    let whole = run_end(src, start, Run::Digits);
    if whole + 1 < src.len() && src[whole] == '.' && is_digit(src[whole + 1]) {
        run_end(src, whole + 1, Run::Digits)
    } else {
        whole
    }
}

/// What recognising one lexeme comes to.
pub struct Lexed {
    /// The index of the first character behind the lexeme.
    pub end: int,
    /// The line on which the lexeme ends.
    pub line: nat,
    /// The token, where the lexeme is one.
    pub token: Option<TokenView>,
    /// The diagnostic, where the lexeme is an error.
    pub diagnostic: Option<DiagnosticView>,
}

/// A lexeme `src[start..end]` that is the token of category `kind`.
pub open spec fn lexed_token(
    src: Seq<char>,
    start: int,
    end: int,
    kind: TokenType,
    literal: Option<LiteralView>,
    line: nat,
) -> Lexed {
    Lexed {
        end,
        line,
        token: Some(TokenView { kind, lexeme: src.subrange(start, end), literal, line }),
        diagnostic: None,
    }
}

/// The string literal whose opening quote is at `start`.
///
/// It runs up to the next double quote. Each newline in it counts for the
/// line; the token stands on the line of the closing quote. Where the source
/// ends before a closing quote, the rest of the source is consumed and
/// reported, on the last line, as an unterminated string.
pub open spec fn lex_string(src: Seq<char>, start: int, line: nat) -> Lexed {
    let close = run_end(src, start + 1, Run::Quoted);
    let last_line = line + newlines(src, start + 1, close);
    if close < src.len() {
        lexed_token(
            src,
            start,
            close + 1,
            TokenType::String,
            Some(LiteralView::Str(src.subrange(start + 1, close))),
            last_line,
        )
    } else {
        Lexed {
            end: close,
            line: last_line,
            token: None,
            diagnostic: Some(
                DiagnosticView { kind: ErrorKind::UnterminatedString, line: last_line },
            ),
        }
    }
}

/// The number literal that begins with the digit at `start`.
pub open spec fn lex_number(src: Seq<char>, start: int, line: nat) -> Lexed {
    let end = number_end(src, start);
    lexed_token(
        src,
        start,
        end,
        TokenType::Number,
        Some(LiteralView::Num(src.subrange(start, end))),
        line,
    )
}

/// The identifier or reserved word that begins with the letter at `start`.
pub open spec fn lex_word(src: Seq<char>, start: int, line: nat) -> Lexed {
    let end = run_end(src, start, Run::Word);
    lexed_token(src, start, end, word_kind(src.subrange(start, end)), None, line)
}

/// The lexeme that begins at `start`, read on line `line`.
pub open spec fn lex_at(src: Seq<char>, start: int, line: nat) -> Lexed
    recommends
        0 <= start < src.len(),
{
    let c = src[start];
    if punctuation(c) is Some {
        lexed_token(src, start, start + 1, punctuation(c)->0, None, line)
    } else if operator(c, false) is Some {
        let with_equal = start + 1 < src.len() && src[start + 1] == '=';
        let end = if with_equal { start + 2 } else { start + 1 };
        lexed_token(src, start, end, operator(c, with_equal)->0, None, line)
    } else if is_blank(c) {
        Lexed { end: start + 1, line, token: None, diagnostic: None }
    } else if c == '\n' {
        Lexed { end: start + 1, line: line + 1, token: None, diagnostic: None }
    } else if c == '"' {
        lex_string(src, start, line)
    } else if is_digit(c) {
        lex_number(src, start, line)
    } else if is_alpha(c) {
        lex_word(src, start, line)
    } else {
        Lexed {
            end: start + 1,
            line,
            token: None,
            diagnostic: Some(DiagnosticView { kind: ErrorKind::UnexpectedCharacter, line }),
        }
    }
}

/// The end-of-input token of a source that ends on line `line`.
pub open spec fn end_of_input(line: nat) -> TokenView {
    TokenView { kind: TokenType::EOF, lexeme: Seq::empty(), literal: None, line }
}

/// What scanning comes to: the tokens and the diagnostics, each in the order
/// of the source.
pub struct Scanned {
    pub tokens: Seq<TokenView>,
    pub diagnostics: Seq<DiagnosticView>,
}

/// The sequence of no item or of one.
pub open spec fn optional<T>(item: Option<T>) -> Seq<T> {
    match item {
        Some(x) => seq![x],
        None => Seq::empty(),
    }
}

/// The tokens and diagnostics of `src[pos..]`, read from line `line` on, with
/// the end-of-input token behind them.
pub open spec fn scan_from(src: Seq<char>, pos: int, line: nat) -> Scanned
    decreases src.len() - pos,
{
    if 0 <= pos < src.len() {
        let first = lex_at(src, pos, line);
        proof {
            lemma_lex_at_advances(src, pos, line);
        }
        let rest = scan_from(src, first.end, first.line);
        Scanned {
            tokens: optional(first.token) + rest.tokens,
            diagnostics: optional(first.diagnostic) + rest.diagnostics,
        }
    } else {
        Scanned { tokens: seq![end_of_input(line)], diagnostics: Seq::empty() }
    }
}

/// The tokens and diagnostics of the whole source `src`.
pub open spec fn scan(src: Seq<char>) -> Scanned {
    scan_from(src, 0, 1)
}

/// A run ends at or after its beginning and within the source.
pub proof fn lemma_run_end_bounds(src: Seq<char>, from: int, run: Run)
    requires
        0 <= from <= src.len(),
    ensures
        from <= run_end(src, from, run) <= src.len(),
    decreases src.len() - from,
{
    if from < src.len() && run.admits(src[from]) {
        lemma_run_end_bounds(src, from + 1, run);
    }
}

/// A run is maximal: the run admits each of its characters, and the
/// character behind it, if there is one, it does not admit.
pub proof fn lemma_run_end_maximal(src: Seq<char>, from: int, run: Run)
    requires
        0 <= from <= src.len(),
    ensures
        forall|i: int| from <= i < run_end(src, from, run) ==> run.admits(#[trigger] src[i]),
        run_end(src, from, run) < src.len() ==> !run.admits(src[run_end(src, from, run)]),
    decreases src.len() - from,
{
    if from < src.len() && run.admits(src[from]) {
        lemma_run_end_maximal(src, from + 1, run);
    }
}

/// A number literal ends behind its first digit and within the source.
pub proof fn lemma_number_end_bounds(src: Seq<char>, start: int)
    requires
        0 <= start < src.len(),
        is_digit(src[start]),
    ensures
        start < number_end(src, start) <= src.len(),
{
    lemma_run_end_bounds(src, start + 1, Run::Digits);
    let whole = run_end(src, start, Run::Digits);
    if whole + 1 < src.len() {
        lemma_run_end_bounds(src, whole + 1, Run::Digits);
    }
}

/// Every lexeme holds at least one character and ends within the source, and
/// the line does not go back.
pub proof fn lemma_lex_at_advances(src: Seq<char>, start: int, line: nat)
    requires
        0 <= start < src.len(),
    ensures
        start < lex_at(src, start, line).end <= src.len(),
        line <= lex_at(src, start, line).line,
{
    let c = src[start];
    if punctuation(c) is Some {
    } else if operator(c, false) is Some {
    } else if is_blank(c) {
    } else if c == '\n' {
    } else if c == '"' {
        lemma_run_end_bounds(src, start + 1, Run::Quoted);
    } else if is_digit(c) {
        lemma_number_end_bounds(src, start);
    } else if is_alpha(c) {
        lemma_run_end_bounds(src, start + 1, Run::Word);
    }
}

} // verus!
