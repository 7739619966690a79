use rlox::diagnostic::{Diagnostic, ErrorKind};
use rlox::scanner::Scanner;
use rlox::token::{LiteralType, Token};
use rlox::token_type::TokenType;

fn scan(source: &str) -> (Vec<Token>, Vec<Diagnostic>) {
    let mut scanner = Scanner::new(source.to_string());
    let tokens = scanner.scan_tokens().clone();
    let diagnostics = scanner.diagnostics().clone();
    (tokens, diagnostics)
}

fn kinds(tokens: &[Token]) -> Vec<TokenType> {
    tokens.iter().map(|t| t.token_type()).collect()
}

fn number(token: &Token) -> f64 {
    match token.literal() {
        Some(LiteralType::Num(numeral)) => numeral.parse::<f64>().unwrap(),
        other => panic!("not a number literal: {:?}", other),
    }
}

#[test]
fn empty_source_is_only_end_of_input() {
    let (tokens, diagnostics) = scan("");
    assert_eq!(tokens, vec![Token::new(TokenType::EOF, String::new(), None, 1)]);
    assert!(diagnostics.is_empty());
}

#[test]
fn sum_of_two_numbers() {
    let (tokens, diagnostics) = scan("1+2");
    assert_eq!(
        tokens,
        vec![
            Token::new(TokenType::Number, "1".to_string(), Some(LiteralType::Num("1".to_string())), 1),
            Token::new(TokenType::Plus, "+".to_string(), None, 1),
            Token::new(TokenType::Number, "2".to_string(), Some(LiteralType::Num("2".to_string())), 1),
            Token::new(TokenType::EOF, String::new(), None, 1),
        ]
    );
    assert_eq!(number(&tokens[0]), 1.0);
    assert_eq!(number(&tokens[2]), 2.0);
    assert!(tokens.iter().all(|t| t.line() == 1));
    assert!(diagnostics.is_empty());
}

#[test]
fn string_with_newline_stands_on_closing_line() {
    let (tokens, diagnostics) = scan("\"a\nb\"");
    assert_eq!(
        tokens,
        vec![
            Token::new(
                TokenType::String,
                "\"a\nb\"".to_string(),
                Some(LiteralType::Str("a\nb".to_string())),
                2
            ),
            Token::new(TokenType::EOF, String::new(), None, 2),
        ]
    );
    assert!(diagnostics.is_empty());
}

#[test]
fn string_counts_every_embedded_newline() {
    let (tokens, _) = scan("\n\"a\n\n\nb\" x");
    assert_eq!(kinds(&tokens), vec![TokenType::String, TokenType::Identifier, TokenType::EOF]);
    assert_eq!(tokens[0].line(), 5);
    assert_eq!(tokens[1].line(), 5);
    assert_eq!(tokens[2].line(), 5);
}

#[test]
fn unterminated_string_is_reported_once() {
    let (tokens, diagnostics) = scan("\"unterminated");
    assert_eq!(tokens, vec![Token::new(TokenType::EOF, String::new(), None, 1)]);
    assert_eq!(diagnostics, vec![Diagnostic::new(ErrorKind::UnterminatedString, 1)]);
    assert_eq!(diagnostics[0].message(), "Unterminated String.");
}

#[test]
fn unterminated_string_is_reported_on_last_line() {
    let (tokens, diagnostics) = scan("a \"x\ny\n");
    assert_eq!(
        tokens,
        vec![
            Token::new(TokenType::Identifier, "a".to_string(), None, 1),
            Token::new(TokenType::EOF, String::new(), None, 3),
        ]
    );
    assert_eq!(diagnostics, vec![Diagnostic::new(ErrorKind::UnterminatedString, 3)]);
}

#[test]
fn reserved_word_is_matched_whole() {
    let (tokens, diagnostics) = scan("and android");
    assert_eq!(
        tokens,
        vec![
            Token::new(TokenType::And, "and".to_string(), None, 1),
            Token::new(TokenType::Identifier, "android".to_string(), None, 1),
            Token::new(TokenType::EOF, String::new(), None, 1),
        ]
    );
    assert!(diagnostics.is_empty());
}

#[test]
fn reserved_words_are_case_sensitive() {
    let (tokens, _) = scan("And AND and_ _and and1");
    assert_eq!(
        kinds(&tokens),
        vec![
            TokenType::Identifier,
            TokenType::Identifier,
            TokenType::Identifier,
            TokenType::Identifier,
            TokenType::Identifier,
            TokenType::EOF,
        ]
    );
}

#[test]
fn every_reserved_word_has_its_kind() {
    let (tokens, diagnostics) = scan(
        "and class else false for fun if nil or print return super this true var while",
    );
    assert_eq!(
        kinds(&tokens),
        vec![
            TokenType::And,
            TokenType::Class,
            TokenType::Else,
            TokenType::False,
            TokenType::For,
            TokenType::Fun,
            TokenType::If,
            TokenType::Nil,
            TokenType::Or,
            TokenType::Print,
            TokenType::Return,
            TokenType::Super,
            TokenType::This,
            TokenType::True,
            TokenType::Var,
            TokenType::While,
            TokenType::EOF,
        ]
    );
    assert!(tokens.iter().all(|t| t.literal().is_none()));
    assert!(diagnostics.is_empty());
}

#[test]
fn number_with_fraction_is_one_token() {
    let (tokens, diagnostics) = scan("123.456");
    assert_eq!(
        tokens,
        vec![
            Token::new(
                TokenType::Number,
                "123.456".to_string(),
                Some(LiteralType::Num("123.456".to_string())),
                1
            ),
            Token::new(TokenType::EOF, String::new(), None, 1),
        ]
    );
    assert_eq!(number(&tokens[0]), 123.456);
    assert!(diagnostics.is_empty());
}

#[test]
fn trailing_point_is_left_for_the_next_lexeme() {
    let (tokens, diagnostics) = scan("123.");
    assert_eq!(
        tokens,
        vec![
            Token::new(TokenType::Number, "123".to_string(), Some(LiteralType::Num("123".to_string())), 1),
            Token::new(TokenType::Dot, ".".to_string(), None, 1),
            Token::new(TokenType::EOF, String::new(), None, 1),
        ]
    );
    assert_eq!(number(&tokens[0]), 123.0);
    assert!(diagnostics.is_empty());
}

#[test]
fn point_before_a_letter_is_not_a_fraction() {
    let (tokens, _) = scan("1.x 2..3 4.5.6");
    assert_eq!(
        tokens.iter().map(|t| t.lexeme().to_string()).collect::<Vec<_>>(),
        vec!["1", ".", "x", "2", ".", ".", "3", "4.5", ".", "6", ""]
    );
    assert_eq!(
        kinds(&tokens),
        vec![
            TokenType::Number,
            TokenType::Dot,
            TokenType::Identifier,
            TokenType::Number,
            TokenType::Dot,
            TokenType::Dot,
            TokenType::Number,
            TokenType::Number,
            TokenType::Dot,
            TokenType::Number,
            TokenType::EOF,
        ]
    );
    assert_eq!(number(&tokens[7]), 4.5);
}

#[test]
fn leading_point_is_a_dot() {
    let (tokens, _) = scan(".5");
    assert_eq!(kinds(&tokens), vec![TokenType::Dot, TokenType::Number, TokenType::EOF]);
}

#[test]
fn unexpected_character_is_reported_and_skipped() {
    let (tokens, diagnostics) = scan("@");
    assert_eq!(tokens, vec![Token::new(TokenType::EOF, String::new(), None, 1)]);
    assert_eq!(diagnostics, vec![Diagnostic::new(ErrorKind::UnexpectedCharacter, 1)]);
    assert_eq!(diagnostics[0].message(), "Unexpected character");
}

#[test]
fn scanning_resumes_behind_an_unexpected_character() {
    let (tokens, diagnostics) = scan("a\n@b # c");
    assert_eq!(
        tokens,
        vec![
            Token::new(TokenType::Identifier, "a".to_string(), None, 1),
            Token::new(TokenType::Identifier, "b".to_string(), None, 2),
            Token::new(TokenType::Identifier, "c".to_string(), None, 2),
            Token::new(TokenType::EOF, String::new(), None, 2),
        ]
    );
    assert_eq!(
        diagnostics,
        vec![
            Diagnostic::new(ErrorKind::UnexpectedCharacter, 2),
            Diagnostic::new(ErrorKind::UnexpectedCharacter, 2),
        ]
    );
}

#[test]
fn slash_begins_no_lexeme() {
    let (tokens, diagnostics) = scan("1/2");
    assert_eq!(kinds(&tokens), vec![TokenType::Number, TokenType::Number, TokenType::EOF]);
    assert_eq!(diagnostics, vec![Diagnostic::new(ErrorKind::UnexpectedCharacter, 1)]);
}

#[test]
fn characters_outside_ascii_are_unexpected_but_allowed_in_strings() {
    let (tokens, diagnostics) = scan("é \"žluť\" λx");
    assert_eq!(
        tokens,
        vec![
            Token::new(
                TokenType::String,
                "\"žluť\"".to_string(),
                Some(LiteralType::Str("žluť".to_string())),
                1
            ),
            Token::new(TokenType::Identifier, "x".to_string(), None, 1),
            Token::new(TokenType::EOF, String::new(), None, 1),
        ]
    );
    assert_eq!(
        diagnostics,
        vec![
            Diagnostic::new(ErrorKind::UnexpectedCharacter, 1),
            Diagnostic::new(ErrorKind::UnexpectedCharacter, 1),
        ]
    );
}

#[test]
fn nul_in_the_source_is_an_unexpected_character() {
    let (tokens, diagnostics) = scan("a\0b \"x\0y\"");
    assert_eq!(
        tokens,
        vec![
            Token::new(TokenType::Identifier, "a".to_string(), None, 1),
            Token::new(TokenType::Identifier, "b".to_string(), None, 1),
            Token::new(
                TokenType::String,
                "\"x\0y\"".to_string(),
                Some(LiteralType::Str("x\0y".to_string())),
                1
            ),
            Token::new(TokenType::EOF, String::new(), None, 1),
        ]
    );
    assert_eq!(diagnostics, vec![Diagnostic::new(ErrorKind::UnexpectedCharacter, 1)]);
}

#[test]
fn punctuation_each_has_its_kind() {
    let (tokens, diagnostics) = scan("(){},.-+;*");
    assert_eq!(
        kinds(&tokens),
        vec![
            TokenType::LeftParen,
            TokenType::RightParen,
            TokenType::LeftBrace,
            TokenType::RightBrace,
            TokenType::Comma,
            TokenType::Dot,
            TokenType::Minus,
            TokenType::Plus,
            TokenType::Semicolon,
            TokenType::Star,
            TokenType::EOF,
        ]
    );
    assert_eq!(
        tokens.iter().map(|t| t.lexeme().to_string()).collect::<Vec<_>>(),
        vec!["(", ")", "{", "}", ",", ".", "-", "+", ";", "*", ""]
    );
    assert!(diagnostics.is_empty());
}

#[test]
fn operators_absorb_a_following_equal_sign() {
    let (tokens, diagnostics) = scan("! != = == < <= > >=");
    assert_eq!(
        kinds(&tokens),
        vec![
            TokenType::Bang,
            TokenType::BangEqual,
            TokenType::Equal,
            TokenType::EqualEqual,
            TokenType::Less,
            TokenType::LessEqual,
            TokenType::Greater,
            TokenType::GreaterEqual,
            TokenType::EOF,
        ]
    );
    assert_eq!(
        tokens.iter().map(|t| t.lexeme().to_string()).collect::<Vec<_>>(),
        vec!["!", "!=", "=", "==", "<", "<=", ">", ">=", ""]
    );
    assert!(diagnostics.is_empty());
}

#[test]
fn operators_are_read_greedily() {
    let (tokens, _) = scan("===!==<==>");
    assert_eq!(
        kinds(&tokens),
        vec![
            TokenType::EqualEqual,
            TokenType::Equal,
            TokenType::BangEqual,
            TokenType::Equal,
            TokenType::LessEqual,
            TokenType::Equal,
            TokenType::Greater,
            TokenType::EOF,
        ]
    );
}

#[test]
fn operator_at_the_end_of_the_source() {
    let (tokens, _) = scan("a<");
    assert_eq!(kinds(&tokens), vec![TokenType::Identifier, TokenType::Less, TokenType::EOF]);
}

#[test]
fn white_space_gives_no_token() {
    let (tokens, diagnostics) = scan(" \t\r ");
    assert_eq!(tokens, vec![Token::new(TokenType::EOF, String::new(), None, 1)]);
    assert!(diagnostics.is_empty());
}

#[test]
fn newline_advances_the_line() {
    let (tokens, _) = scan("a\nb\r\n\nc\n");
    assert_eq!(
        tokens,
        vec![
            Token::new(TokenType::Identifier, "a".to_string(), None, 1),
            Token::new(TokenType::Identifier, "b".to_string(), None, 2),
            Token::new(TokenType::Identifier, "c".to_string(), None, 4),
            Token::new(TokenType::EOF, String::new(), None, 5),
        ]
    );
}

#[test]
fn empty_string_literal() {
    let (tokens, _) = scan("\"\"");
    assert_eq!(
        tokens,
        vec![
            Token::new(TokenType::String, "\"\"".to_string(), Some(LiteralType::Str(String::new())), 1),
            Token::new(TokenType::EOF, String::new(), None, 1),
        ]
    );
}

#[test]
fn string_literal_has_no_escapes() {
    let (tokens, diagnostics) = scan("\"a\\\"b");
    assert_eq!(
        tokens,
        vec![
            Token::new(
                TokenType::String,
                "\"a\\\"".to_string(),
                Some(LiteralType::Str("a\\".to_string())),
                1
            ),
            Token::new(TokenType::Identifier, "b".to_string(), None, 1),
            Token::new(TokenType::EOF, String::new(), None, 1),
        ]
    );
    assert!(diagnostics.is_empty());
}

#[test]
fn identifiers_take_letters_digits_and_underscores() {
    let (tokens, _) = scan("_a1_b2 x9y(z_");
    assert_eq!(
        tokens.iter().map(|t| t.lexeme().to_string()).collect::<Vec<_>>(),
        vec!["_a1_b2", "x9y", "(", "z_", ""]
    );
}

#[test]
fn number_followed_by_letters_is_split() {
    let (tokens, _) = scan("12ab");
    assert_eq!(
        tokens,
        vec![
            Token::new(TokenType::Number, "12".to_string(), Some(LiteralType::Num("12".to_string())), 1),
            Token::new(TokenType::Identifier, "ab".to_string(), None, 1),
            Token::new(TokenType::EOF, String::new(), None, 1),
        ]
    );
}

#[test]
fn a_small_program() {
    let source = "var answer = (6 * 7);\nif (answer >= 42) { print \"yes\"; }\n";
    let (tokens, diagnostics) = scan(source);
    assert_eq!(
        kinds(&tokens),
        vec![
            TokenType::Var,
            TokenType::Identifier,
            TokenType::Equal,
            TokenType::LeftParen,
            TokenType::Number,
            TokenType::Star,
            TokenType::Number,
            TokenType::RightParen,
            TokenType::Semicolon,
            TokenType::If,
            TokenType::LeftParen,
            TokenType::Identifier,
            TokenType::GreaterEqual,
            TokenType::Number,
            TokenType::RightParen,
            TokenType::LeftBrace,
            TokenType::Print,
            TokenType::String,
            TokenType::Semicolon,
            TokenType::RightBrace,
            TokenType::EOF,
        ]
    );
    assert_eq!(
        tokens.iter().map(|t| t.line()).collect::<Vec<_>>(),
        vec![1, 1, 1, 1, 1, 1, 1, 1, 1, 2, 2, 2, 2, 2, 2, 2, 2, 2, 2, 2, 3]
    );
    assert!(diagnostics.is_empty());
}

#[test]
fn last_token_is_the_only_end_of_input() {
    for source in ["", "a", "@", "\"open", "1.5 + x\n", "\n\n", "and or", "\"a\nb\" @ 7."] {
        let (tokens, _) = scan(source);
        let last = tokens.last().unwrap();
        assert_eq!(last.token_type(), TokenType::EOF);
        assert_eq!(last.lexeme(), "");
        assert!(last.literal().is_none());
        let count = tokens.iter().filter(|t| t.token_type() == TokenType::EOF).count();
        assert_eq!(count, 1);
    }
}

#[test]
fn lines_never_go_back() {
    for source in ["a\nb\n\"x\ny\"\nc", "\n\n\n", "1\n2 3\n@\n\"open\n\n", "x"] {
        let (tokens, diagnostics) = scan(source);
        assert!(tokens[0].line() >= 1);
        assert!(tokens.windows(2).all(|w| w[0].line() <= w[1].line()));
        assert!(diagnostics.windows(2).all(|w| w[0].line <= w[1].line));
    }
}

#[test]
fn two_scans_of_one_source_agree() {
    let source = "var a = \"x\ny\"; @ 12.5 != b\n\"open";
    let (first_tokens, first_diagnostics) = scan(source);
    let (second_tokens, second_diagnostics) = scan(source);
    assert_eq!(first_tokens, second_tokens);
    assert_eq!(first_diagnostics, second_diagnostics);
}

#[test]
fn second_call_does_not_scan_again() {
    let mut scanner = Scanner::new("a + 1 @".to_string());
    let first = scanner.scan_tokens().clone();
    let second = scanner.scan_tokens().clone();
    assert_eq!(first, second);
    assert_eq!(first.len(), 4);
    assert_eq!(scanner.tokens(), &first);
    assert_eq!(scanner.diagnostics().len(), 1);
    assert!(scanner.had_error());
}

#[test]
fn fresh_scanner_holds_nothing() {
    let scanner = Scanner::new("a b c".to_string());
    assert!(scanner.tokens().is_empty());
    assert!(scanner.diagnostics().is_empty());
    assert!(!scanner.had_error());
}

#[test]
fn literals_only_on_strings_and_numbers() {
    let (tokens, _) = scan("a \"s\" 1 ( != nil 2.5");
    for token in &tokens {
        let carries = token.literal().is_some();
        let literal_kind =
            token.token_type() == TokenType::String || token.token_type() == TokenType::Number;
        assert_eq!(carries, literal_kind);
    }
}
