//! Tokens: a classified lexeme with its decoded literal and its line.

use crate::text::{decimal, push_decimal};
use crate::token_type::TokenType;
use vstd::prelude::*;
use vstd::string::*;

verus! {

/// The decoded payload of a literal token.
#[derive(Clone, Debug, PartialEq, Eq, Hash)]
pub enum LiteralType {
    /// The text strictly between the quotes of a string literal.
    Str(String),
    /// The decimal numeral of a number literal: one or more digits, then
    /// optionally a point and one or more digits.
    Num(String),
}

/// A literal value with its text as a sequence of characters.
pub enum LiteralView {
    Str(Seq<char>),
    Num(Seq<char>),
}

impl View for LiteralType {
    type V = LiteralView;

    open spec fn view(&self) -> LiteralView {
        match self {
            LiteralType::Str(text) => LiteralView::Str(text@),
            LiteralType::Num(text) => LiteralView::Num(text@),
        }
    }
}

/// The view of an optional literal value.
pub open spec fn literal_view(literal: Option<LiteralType>) -> Option<LiteralView> {
    match literal {
        Some(value) => Some(value@),
        None => None,
    }
}

/// One classified lexeme.
#[derive(Clone, Debug, PartialEq, Eq, Hash)]
pub struct Token {
    token_type: TokenType,
    lexeme: String,
    literal: Option<LiteralType>,
    line: usize,
}

/// What a token holds, as mathematical values.
pub struct TokenView {
    /// The category of the lexeme.
    pub kind: TokenType,
    /// The exact substring of the source that was matched.
    pub lexeme: Seq<char>,
    /// The decoded value of a string or number literal.
    pub literal: Option<LiteralView>,
    /// The 1-based line on which the lexeme ends.
    pub line: nat,
}

impl View for Token {
    type V = TokenView;

    closed spec fn view(&self) -> TokenView {
        TokenView {
            kind: self.token_type,
            lexeme: self.lexeme@,
            literal: literal_view(self.literal),
            line: self.line as nat,
        }
    }
}

/// The views of a sequence of tokens, in order.
pub open spec fn token_views(tokens: Seq<Token>) -> Seq<TokenView> {
    tokens.map_values(|t: Token| t@)
}

impl TokenView {
    /// How the token is written for a person: category, lexeme and line,
    /// with one space between them.
    pub open spec fn rendering(self) -> Seq<char> {
        self.kind.spec_name() + seq![' '] + self.lexeme + seq![' '] + decimal(self.line)
    }
}

impl Token {
    /// Makes a token from its four parts.
    pub fn new(token_type: TokenType, lexeme: String, literal: Option<LiteralType>, line: usize) -> (token: Token)
        ensures
            token@ == (TokenView {
                kind: token_type,
                lexeme: lexeme@,
                literal: literal_view(literal),
                line: line as nat,
            }),
    {
        Token { token_type, lexeme, literal, line }
    }

    /// The category of the lexeme.
    pub fn token_type(&self) -> (kind: TokenType)
        ensures
            kind == self@.kind,
    {
        self.token_type
    }

    /// The exact substring of the source that was matched.
    pub fn lexeme(&self) -> (text: &str)
        ensures
            text@ == self@.lexeme,
    {
        self.lexeme.as_str()
    }

    /// The decoded value, present on string and number literals.
    pub fn literal(&self) -> (literal: &Option<LiteralType>)
        ensures
            literal_view(*literal) == self@.literal,
    {
        &self.literal
    }

    /// The 1-based line on which the lexeme ends.
    pub fn line(&self) -> (line: usize)
        ensures
            line as nat == self@.line,
    {
        self.line
    }

    /// Writes the token for a person: category, lexeme and line.
    pub fn to_string(&self) -> (text: String)
        ensures
            text@ == self@.rendering(),
    {
        let mut text = String::from_str(self.token_type.name());
        text.push(' ');
        text.append(self.lexeme.as_str());
        text.push(' ');
        push_decimal(&mut text, self.line);
        text
    }
}

} // verus!
