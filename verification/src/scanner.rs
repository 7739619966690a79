//! The scanner: one pass over the source, from left to right.

use crate::diagnostic::{diagnostic_views, Diagnostic, DiagnosticView, ErrorKind};
use crate::grammar::{
    end_of_input, is_alpha, is_alpha_numeric, is_digit, keywords, lex_at, lex_number, lex_string,
    lex_word, lexed_token, newlines, optional, run_end, scan, scan_from, Lexed, Run, Scanned,
};
use crate::text::push_chars;
use crate::token::{literal_view, token_views, LiteralType, Token, TokenView};
use crate::token_type::TokenType;
use vstd::hash_map::StringHashMap;
use vstd::prelude::*;
use vstd::string::*;

verus! {

/// A scanner over one source text.
///
/// A scanner is made for one source and makes one pass over it. The tokens
/// and the diagnostics of that pass stay in it.
pub struct Scanner {
    /// The characters of the source, with one NUL behind them, so that the
    /// character at `current` can always be looked at. The source is thus
    /// shorter than the longest vector, and the line counter, which counts
    /// no more newlines than characters were read, cannot overflow.
    source: Vec<char>,
    tokens: Vec<Token>,
    diagnostics: Vec<Diagnostic>,
    /// Where the lexeme that is being read begins.
    start: usize,
    /// The next character to read.
    current: usize,
    line: usize,
    /// Whether the pass is over and the end-of-input token is in `tokens`.
    finished: bool,
    keywords: StringHashMap<TokenType>,
}

impl Scanner {
    /// The source text that the scanner was made for.
    pub closed spec fn source_text(&self) -> Seq<char> {
        self.source@.drop_last()
    }

    /// The tokens produced so far.
    pub closed spec fn token_seq(&self) -> Seq<TokenView> {
        token_views(self.tokens@)
    }

    /// The diagnostics reported so far.
    pub closed spec fn diagnostic_seq(&self) -> Seq<DiagnosticView> {
        diagnostic_views(self.diagnostics@)
    }

    /// Whether the pass over the source has been made.
    pub closed spec fn is_finished(&self) -> bool {
        self.finished
    }

    /// The buffer, the cursor, the line counter and the reserved words fit
    /// together.
    spec fn sound(&self) -> bool {
        &&& self.source.len() > 0
        &&& self.source@.last() == '\0'
        &&& self.start <= self.current < self.source.len()
        &&& 1 <= self.line <= self.current + 1
        &&& self.keywords@ == keywords()
    }

    /// What is still to come: nothing once the pass is over, else the tokens
    /// and diagnostics of the source from the cursor on.
    spec fn remainder(&self) -> Scanned {
        if self.finished {
            Scanned { tokens: Seq::empty(), diagnostics: Seq::empty() }
        } else {
            scan_from(self.source_text(), self.current as int, self.line as nat)
        }
    }

    /// The scanner's invariant: what it has produced, followed by what is
    /// still to come, is the scan of its source.
    pub closed spec fn wf(&self) -> bool {
        &&& self.sound()
        &&& self.token_seq() + self.remainder().tokens == scan(self.source_text()).tokens
        &&& self.diagnostic_seq() + self.remainder().diagnostics == scan(
            self.source_text(),
        ).diagnostics
    }

    /// The scanner has read one lexeme since it was `before`, and `step` is
    /// what came of it.
    spec fn stepped(&self, before: &Scanner, step: Lexed) -> bool {
        &&& self.source == before.source
        &&& self.keywords == before.keywords
        &&& self.finished == before.finished
        &&& self.start == before.start
        &&& self.current == step.end
        &&& self.line == step.line
        &&& self.token_seq() == before.token_seq() + optional(step.token)
        &&& self.diagnostic_seq() == before.diagnostic_seq() + optional(step.diagnostic)
    }

    /// Makes a scanner for `source`, with its cursor on the first character
    /// of line 1.
    pub fn new(source: String) -> (scanner: Scanner)
        ensures
            scanner.wf(),
            scanner.source_text() == source@,
            scanner.token_seq() == Seq::<TokenView>::empty(),
            scanner.diagnostic_seq() == Seq::<DiagnosticView>::empty(),
            !scanner.is_finished(),
    {
        let mut chars: Vec<char> = Vec::new();
        for c in it: source.as_str().chars()
            invariant
                chars@ == it.seq().take(it.index() as int),
        {
            chars.push(c);
        }
        chars.push('\0');
        let mut keywords: StringHashMap<TokenType> = StringHashMap::new();
        keywords.insert(String::from_str("and"), TokenType::And);
        keywords.insert(String::from_str("class"), TokenType::Class);
        keywords.insert(String::from_str("else"), TokenType::Else);
        keywords.insert(String::from_str("false"), TokenType::False);
        keywords.insert(String::from_str("for"), TokenType::For);
        keywords.insert(String::from_str("fun"), TokenType::Fun);
        keywords.insert(String::from_str("if"), TokenType::If);
        keywords.insert(String::from_str("nil"), TokenType::Nil);
        keywords.insert(String::from_str("or"), TokenType::Or);
        keywords.insert(String::from_str("print"), TokenType::Print);
        keywords.insert(String::from_str("return"), TokenType::Return);
        keywords.insert(String::from_str("super"), TokenType::Super);
        keywords.insert(String::from_str("this"), TokenType::This);
        keywords.insert(String::from_str("true"), TokenType::True);
        keywords.insert(String::from_str("var"), TokenType::Var);
        keywords.insert(String::from_str("while"), TokenType::While);
        let scanner = Scanner {
            source: chars,
            tokens: Vec::new(),
            diagnostics: Vec::new(),
            start: 0,
            current: 0,
            line: 1,
            finished: false,
            keywords,
        };
        scanner
    }

    /// Whether the cursor is behind the last character of the source.
    fn is_at_end(&self) -> (at_end: bool)
        requires
            self.sound(),
        ensures
            at_end == (self.current == self.source_text().len()),
    {
        self.current + 1 >= self.source.len()
    }

    /// Reads the character under the cursor and moves the cursor behind it.
    fn advance(&mut self) -> (c: char)
        requires
            old(self).current + 1 < old(self).source.len(),
        ensures
            c == old(self).source_text()[old(self).current as int],
            *final(self) == (Scanner { current: (old(self).current + 1) as usize, ..*old(self) }),
    {
        self.current += 1;
        self.source[self.current - 1]
    }

    /// The character under the cursor, NUL at the end of the source.
    fn peek(&self) -> (c: char)
        requires
            self.sound(),
        ensures
            c == if self.current < self.source_text().len() {
                self.source_text()[self.current as int]
            } else {
                '\0'
            },
    {
        self.source[self.current]
    }

    /// The character behind the one under the cursor, NUL where the source
    /// has none.
    fn peek_next(&self) -> (c: char)
        requires
            self.sound(),
        ensures
            c == if self.current + 1 < self.source_text().len() {
                self.source_text()[self.current + 1]
            } else {
                '\0'
            },
    {
        if self.current + 1 >= self.source.len() {
            return '\0';
        }
        self.source[self.current + 1]
    }

    /// Reads the character under the cursor if it is `expected`.
    fn match_lex(&mut self, expected: char) -> (matched: bool)
        requires
            old(self).sound(),
        ensures
            matched == (old(self).current < old(self).source_text().len() && old(
                self,
            ).source_text()[old(self).current as int] == expected),
            *final(self) == (Scanner {
                current: if matched {
                    (old(self).current + 1) as usize
                } else {
                    old(self).current
                },
                ..*old(self)
            }),
    {
        if self.is_at_end() {
            return false;
        }
        if self.source[self.current] != expected {
            return false;
        }
        self.current += 1;
        true
    }

    /// The text `source[from..to]`.
    fn text(&self, from: usize, to: usize) -> (text: String)
        requires
            self.sound(),
            from <= to <= self.source_text().len(),
        ensures
            text@ == self.source_text().subrange(from as int, to as int),
    {
        let mut text = String::new();
        push_chars(&mut text, &self.source, from, to);
        text
    }

    /// Appends the token of category `token_type` whose lexeme runs from
    /// `start` to the cursor.
    fn add_token(&mut self, token_type: TokenType, literal: Option<LiteralType>)
        requires
            old(self).sound(),
        ensures
            final(self).token_seq() == old(self).token_seq() + optional(
                lexed_token(
                    old(self).source_text(),
                    old(self).start as int,
                    old(self).current as int,
                    token_type,
                    literal_view(literal),
                    old(self).line as nat,
                ).token,
            ),
            *final(self) == (Scanner { tokens: final(self).tokens, ..*old(self) }),
    {
        let text = self.text(self.start, self.current);
        let token = Token::new(token_type, text, literal, self.line);
        self.tokens.push(token);
    }

    /// Reports an error of kind `kind` on line `line`.
    fn error(&mut self, line: usize, kind: ErrorKind)
        ensures
            final(self).diagnostic_seq() == old(self).diagnostic_seq() + seq![
                DiagnosticView { kind, line: line as nat },
            ],
            *final(self) == (Scanner { diagnostics: final(self).diagnostics, ..*old(self) }),
    {
        let diagnostic = Diagnostic::new(kind, line);
        self.diagnostics.push(diagnostic);
    }

    /// Whether `c` is an ASCII decimal digit.
    fn is_digit(c: char) -> (digit: bool)
        ensures
            digit == is_digit(c),
    {
        c >= '0' && c <= '9'
    }

    /// Whether `c` is an ASCII letter or the underscore.
    fn is_alpha(c: char) -> (alpha: bool)
        ensures
            alpha == is_alpha(c),
    {
        (c >= 'a' && c <= 'z') || (c >= 'A' && c <= 'Z') || c == '_'
    }

    /// Whether `c` may continue an identifier.
    fn is_alpha_numeric(c: char) -> (alpha_numeric: bool)
        ensures
            alpha_numeric == is_alpha_numeric(c),
    {
        Self::is_alpha(c) || Self::is_digit(c)
    }

    /// Reads a string literal whose opening quote has just been read.
    fn string(&mut self)
        requires
            old(self).sound(),
            old(self).start + 1 == old(self).current,
            old(self).source_text()[old(self).start as int] == '"',
        ensures
            final(self).sound(),
            final(self).stepped(
                old(self),
                lex_string(old(self).source_text(), old(self).start as int, old(self).line as nat),
            ),
    {
        let ghost src = self.source_text();
        let ghost start = self.start as int;
        while self.peek() != '"' && !self.is_at_end()
            invariant
                self.sound(),
                *self == (Scanner { current: self.current, line: self.line, ..*old(self) }),
                src == self.source_text(),
                start == self.start,
                start < self.current,
                run_end(src, start + 1, Run::Quoted) == run_end(src, self.current as int, Run::Quoted),
                self.line == old(self).line + newlines(src, start + 1, self.current as int),
            decreases src.len() - self.current,
        {
            if self.peek() == '\n' {
                self.line += 1;
            }
            self.advance();
        }

        if self.is_at_end() {
            self.error(self.line, ErrorKind::UnterminatedString);
            return ;
        }
        self.advance();

        let value = self.text(self.start + 1, self.current - 1);
        self.add_token(TokenType::String, Some(LiteralType::Str(value)));
    }

    /// Reads a number literal whose first digit has just been read.
    fn number(&mut self)
        requires
            old(self).sound(),
            old(self).start + 1 == old(self).current,
            is_digit(old(self).source_text()[old(self).start as int]),
        ensures
            final(self).sound(),
            final(self).stepped(
                old(self),
                lex_number(old(self).source_text(), old(self).start as int, old(self).line as nat),
            ),
    {
        let ghost src = self.source_text();
        let ghost start = self.start as int;
        while Self::is_digit(self.peek())
            invariant
                self.sound(),
                *self == (Scanner { current: self.current, ..*old(self) }),
                src == self.source_text(),
                start < self.current,
                run_end(src, start, Run::Digits) == run_end(src, self.current as int, Run::Digits),
            decreases src.len() - self.current,
        {
            self.advance();
        }

        if self.peek() == '.' && Self::is_digit(self.peek_next()) {
            let ghost whole = self.current as int;
            self.advance();

            while Self::is_digit(self.peek())
                invariant
                    self.sound(),
                    *self == (Scanner { current: self.current, ..*old(self) }),
                    src == self.source_text(),
                    start < self.current,
                    run_end(src, whole + 1, Run::Digits) == run_end(
                        src,
                        self.current as int,
                        Run::Digits,
                    ),
                decreases src.len() - self.current,
            {
                self.advance();
            }
        }

        let numeral = self.text(self.start, self.current);
        self.add_token(TokenType::Number, Some(LiteralType::Num(numeral)));
    }

    /// Reads an identifier or a reserved word whose first letter has just
    /// been read.
    fn identifier(&mut self)
        requires
            old(self).sound(),
            old(self).start + 1 == old(self).current,
            is_alpha(old(self).source_text()[old(self).start as int]),
        ensures
            final(self).sound(),
            final(self).stepped(
                old(self),
                lex_word(old(self).source_text(), old(self).start as int, old(self).line as nat),
            ),
    {
        let ghost src = self.source_text();
        let ghost start = self.start as int;
        while Self::is_alpha_numeric(self.peek())
            invariant
                self.sound(),
                *self == (Scanner { current: self.current, ..*old(self) }),
                src == self.source_text(),
                start < self.current,
                run_end(src, start, Run::Word) == run_end(src, self.current as int, Run::Word),
            decreases src.len() - self.current,
        {
            self.advance();
        }

        let text = self.text(self.start, self.current);
        let token_type = match self.keywords.get(text.as_str()) {
            Some(reserved) => *reserved,
            None => TokenType::Identifier,
        };
        self.add_token(token_type, None);
    }

    /// Reads the lexeme that begins under the cursor.
    fn scan_token(&mut self)
        requires
            old(self).sound(),
            old(self).start == old(self).current,
            old(self).current < old(self).source_text().len(),
        ensures
            final(self).sound(),
            final(self).stepped(
                old(self),
                lex_at(old(self).source_text(), old(self).start as int, old(self).line as nat),
            ),
    {
        let c = self.advance();

        match c {
            '(' => self.add_token(TokenType::LeftParen, None),
            ')' => self.add_token(TokenType::RightParen, None),
            '{' => self.add_token(TokenType::LeftBrace, None),
            '}' => self.add_token(TokenType::RightBrace, None),
            ',' => self.add_token(TokenType::Comma, None),
            '.' => self.add_token(TokenType::Dot, None),
            '-' => self.add_token(TokenType::Minus, None),
            '+' => self.add_token(TokenType::Plus, None),
            ';' => self.add_token(TokenType::Semicolon, None),
            '*' => self.add_token(TokenType::Star, None),
            '!' => {
                let token_type = if self.match_lex('=') {
                    TokenType::BangEqual
                } else {
                    TokenType::Bang
                };
                self.add_token(token_type, None);
            },
            '=' => {
                let token_type = if self.match_lex('=') {
                    TokenType::EqualEqual
                } else {
                    TokenType::Equal
                };
                self.add_token(token_type, None);
            },
            '<' => {
                let token_type = if self.match_lex('=') {
                    TokenType::LessEqual
                } else {
                    TokenType::Less
                };
                self.add_token(token_type, None);
            },
            '>' => {
                let token_type = if self.match_lex('=') {
                    TokenType::GreaterEqual
                } else {
                    TokenType::Greater
                };
                self.add_token(token_type, None);
            },
            // White space.
            ' ' | '\r' | '\t' => {},
            '\n' => self.line += 1,
            '"' => self.string(),
            _ => {
                if Self::is_digit(c) {
                    self.number();
                } else if Self::is_alpha(c) {
                    self.identifier();
                } else {
                    self.error(self.line, ErrorKind::UnexpectedCharacter);
                }
            },
        }
    }

    /// Scans the source and returns its tokens, the last of which is the
    /// end-of-input token.
    ///
    /// The pass is made once: on a scanner that has made it, the call leaves
    /// everything as it is and returns the same tokens.
    pub fn scan_tokens(&mut self) -> (tokens: &Vec<Token>)
        requires
            old(self).wf(),
        ensures
            final(self).wf(),
            final(self).is_finished(),
            final(self).source_text() == old(self).source_text(),
            final(self).token_seq() == scan(old(self).source_text()).tokens,
            final(self).diagnostic_seq() == scan(old(self).source_text()).diagnostics,
            token_views(tokens@) == final(self).token_seq(),
    {
        if !self.finished {
            let ghost src = self.source_text();
            while !self.is_at_end()
                invariant
                    self.wf(),
                    !self.finished,
                    self.source_text() == src,
                decreases src.len() - self.current,
            {
                let ghost before = *self;
                self.start = self.current;
                self.scan_token();
                proof {
                    let step = lex_at(src, before.current as int, before.line as nat);
                    let rest = scan_from(src, step.end, step.line);
                    assert(self.token_seq() + rest.tokens =~= before.token_seq() + (optional(
                        step.token,
                    ) + rest.tokens));
                    assert(self.diagnostic_seq() + rest.diagnostics =~= before.diagnostic_seq() + (
                    optional(step.diagnostic) + rest.diagnostics));
                }
            }

            let ghost before = *self;
            self.tokens.push(Token::new(TokenType::EOF, String::new(), None, self.line));
            self.finished = true;
            proof {
                assert(self.token_seq() =~= before.token_seq() + seq![
                    end_of_input(before.line as nat),
                ]);
            }
        }
        &self.tokens
    }

    /// The tokens produced so far: all of them once the pass has been made.
    pub fn tokens(&self) -> (tokens: &Vec<Token>)
        ensures
            token_views(tokens@) == self.token_seq(),
    {
        &self.tokens
    }

    /// The diagnostics reported so far, in the order of the source.
    pub fn diagnostics(&self) -> (diagnostics: &Vec<Diagnostic>)
        ensures
            diagnostic_views(diagnostics@) == self.diagnostic_seq(),
    {
        &self.diagnostics
    }

    /// Whether anything has been reported so far.
    pub fn had_error(&self) -> (had_error: bool)
        ensures
            had_error == (self.diagnostic_seq().len() > 0),
    {
        self.diagnostics.len() > 0
    }
}

/// A scanner that has made its pass holds the scan of its source: the tokens
/// up to the end-of-input token, and the diagnostics.
pub proof fn lemma_finished_scanner_holds_the_scan(scanner: Scanner)
    requires
        scanner.wf(),
        scanner.is_finished(),
    ensures
        scanner.token_seq() == scan(scanner.source_text()).tokens,
        scanner.diagnostic_seq() == scan(scanner.source_text()).diagnostics,
{
}

/// Scanning is a function of the source: two scanners that have made their
/// pass over the same source hold the same tokens and the same diagnostics.
pub proof fn lemma_scans_of_one_source_agree(first: Scanner, second: Scanner)
    requires
        first.wf(),
        second.wf(),
        first.is_finished(),
        second.is_finished(),
        first.source_text() == second.source_text(),
    ensures
        first.token_seq() == second.token_seq(),
        first.diagnostic_seq() == second.diagnostic_seq(),
{
    lemma_finished_scanner_holds_the_scan(first);
    lemma_finished_scanner_holds_the_scan(second);
}

} // verus!
