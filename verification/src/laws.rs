//! What holds of every scan.

use crate::grammar::{
    is_alpha, is_alpha_numeric, is_blank, is_digit, keywords, lemma_lex_at_advances,
    lemma_run_end_bounds, lemma_run_end_maximal, lex_at, newlines, operator, punctuation, run_end,
    scan, scan_from, word_kind, Run,
};
use crate::token::{LiteralView, TokenView};
use crate::token_type::TokenType;
use vstd::prelude::*;

verus! {

/// Whether every character of `text` is a decimal digit.
pub open spec fn all_digits(text: Seq<char>) -> bool {
    forall|i: int| 0 <= i < text.len() ==> is_digit(#[trigger] text[i])
}

/// Whether `text` is a decimal numeral: one or more digits, or one or more
/// digits, a point, and one or more digits.
pub open spec fn is_numeral(text: Seq<char>) -> bool {
    ||| text.len() > 0 && all_digits(text)
    ||| exists|point: int|
        {
            &&& 0 < point < text.len() - 1
            &&& #[trigger] text[point] == '.'
            &&& all_digits(text.subrange(0, point))
            &&& all_digits(text.subrange(point + 1, text.len() as int))
        }
}

/// Whether `text` has the shape of an identifier: a letter or an underscore,
/// then letters, digits and underscores.
pub open spec fn is_word(text: Seq<char>) -> bool {
    &&& text.len() > 0
    &&& is_alpha(text[0])
    &&& forall|i: int| 0 <= i < text.len() ==> is_alpha_numeric(#[trigger] text[i])
}

/// Whether `text` is a string literal as it is written: a double quote, any
/// characters but a double quote, and a double quote.
pub open spec fn is_quoted(text: Seq<char>) -> bool {
    &&& text.len() >= 2
    &&& text[0] == '"'
    &&& text[text.len() - 1] == '"'
    &&& forall|i: int| 0 < i < text.len() - 1 ==> #[trigger] text[i] != '"'
}

/// Whether `text` is the lexeme of the punctuation mark or operator of
/// category `kind`.
pub open spec fn is_symbol(text: Seq<char>, kind: TokenType) -> bool {
    ||| text.len() == 1 && punctuation(text[0]) == Some(kind)
    ||| text.len() == 1 && operator(text[0], false) == Some(kind)
    ||| text.len() == 2 && text[1] == '=' && operator(text[0], true) == Some(kind)
}

/// Whether a token is one that the grammar allows: its lexeme has the shape
/// that its category asks for, and its literal is what the lexeme decodes to.
pub open spec fn well_formed(token: TokenView) -> bool {
    if token.kind == TokenType::EOF {
        token.lexeme.len() == 0 && token.literal is None
    } else if token.kind == TokenType::String {
        &&& is_quoted(token.lexeme)
        &&& token.literal == Some(
            LiteralView::Str(token.lexeme.subrange(1, token.lexeme.len() - 1)),
        )
    } else if token.kind == TokenType::Number {
        is_numeral(token.lexeme) && token.literal == Some(LiteralView::Num(token.lexeme))
    } else if token.kind == TokenType::Identifier || token.kind.is_reserved_word() {
        is_word(token.lexeme) && token.kind == word_kind(token.lexeme) && token.literal is None
    } else {
        is_symbol(token.lexeme, token.kind) && token.literal is None
    }
}

/// An identifier-shaped lexeme is classified as a reserved word if and only
/// if it is, letter for letter, one of the reserved words; any other is an
/// identifier.
pub proof fn lemma_reserved_words_are_exact(text: Seq<char>)
    ensures
        word_kind(text).is_reserved_word() <==> keywords().contains_key(text),
        !keywords().contains_key(text) <==> word_kind(text) == TokenType::Identifier,
{
}

/// The lexeme decides the token: two well-formed tokens with the same
/// lexeme have the same category and the same literal.
pub proof fn lemma_lexeme_decides_token(a: TokenView, b: TokenView)
    requires
        well_formed(a),
        well_formed(b),
        a.lexeme == b.lexeme,
    ensures
        a.kind == b.kind,
        a.literal == b.literal,
{
    lemma_reserved_words_are_exact(a.lexeme);
    if a.lexeme.len() > 0 {
        let c = a.lexeme[0];
        if is_numeral(a.lexeme) {
            assert(is_digit(c)) by {
                if !all_digits(a.lexeme) {
                    let point = choose|point: int|
                        {
                            &&& 0 < point < a.lexeme.len() - 1
                            &&& #[trigger] a.lexeme[point] == '.'
                            &&& all_digits(a.lexeme.subrange(0, point))
                            &&& all_digits(a.lexeme.subrange(point + 1, a.lexeme.len() as int))
                        };
                    assert(a.lexeme.subrange(0, point)[0] == c);
                }
            }
        }
    }
}

/// Whether none of the characters `src[from..to]` is a newline.
spec fn on_one_line(src: Seq<char>, from: int, to: int) -> bool {
    forall|i: int| from <= i < to ==> #[trigger] src[i] != '\n'
}

/// A stretch of the source without a newline counts for no line.
proof fn lemma_no_newlines(src: Seq<char>, from: int, to: int)
    requires
        on_one_line(src, from, to),
    ensures
        newlines(src, from, to) == 0,
    decreases to - from,
{
    if from < to {
        lemma_no_newlines(src, from, to - 1);
    }
}

/// The newlines of two stretches that lie one behind the other add up.
proof fn lemma_newlines_add(src: Seq<char>, from: int, mid: int, to: int)
    requires
        from <= mid <= to,
    ensures
        newlines(src, from, to) == newlines(src, from, mid) + newlines(src, mid, to),
    decreases to - mid,
{
    if mid < to {
        lemma_newlines_add(src, from, mid, to - 1);
    }
}

/// Reading one lexeme advances the line by the number of newlines in the
/// lexeme.
pub proof fn lemma_lexeme_counts_newlines(src: Seq<char>, start: int, line: nat)
    requires
        0 <= start < src.len(),
    ensures
        lex_at(src, start, line).line == line + newlines(
            src,
            start,
            lex_at(src, start, line).end,
        ),
{
    let c = src[start];
    let end = lex_at(src, start, line).end;
    lemma_lex_at_advances(src, start, line);
    if punctuation(c) is Some || is_blank(c) {
        lemma_no_newlines(src, start, end);
    } else if operator(c, false) is Some {
        lemma_no_newlines(src, start, end);
    } else if c == '\n' {
        lemma_no_newlines(src, start, start);
    } else if c == '"' {
        let close = run_end(src, start + 1, Run::Quoted);
        lemma_run_end_bounds(src, start + 1, Run::Quoted);
        lemma_no_newlines(src, start, start + 1);
        lemma_newlines_add(src, start, start + 1, close);
        if close < src.len() {
            lemma_run_end_maximal(src, start + 1, Run::Quoted);
            lemma_no_newlines(src, close, close + 1);
            lemma_newlines_add(src, start, close, close + 1);
        }
    } else if is_digit(c) {
        let whole = run_end(src, start, Run::Digits);
        lemma_run_end_bounds(src, start, Run::Digits);
        lemma_run_end_maximal(src, start, Run::Digits);
        if end != whole {
            lemma_run_end_bounds(src, whole + 1, Run::Digits);
            lemma_run_end_maximal(src, whole + 1, Run::Digits);
        }
        lemma_no_newlines(src, start, end);
    } else if is_alpha(c) {
        lemma_run_end_maximal(src, start, Run::Word);
        lemma_no_newlines(src, start, end);
    } else {
        lemma_no_newlines(src, start, end);
    }
}

/// The token of every lexeme is well-formed, is not the end-of-input token,
/// stands on the line on which the lexeme ends, and holds the characters of
/// the lexeme, of which there is at least one.
pub proof fn lemma_lexeme_token(src: Seq<char>, start: int, line: nat)
    requires
        0 <= start < src.len(),
    ensures
        match lex_at(src, start, line).token {
            Some(token) => {
                &&& well_formed(token)
                &&& token.kind != TokenType::EOF
                &&& token.line == lex_at(src, start, line).line
                &&& token.lexeme == src.subrange(start, lex_at(src, start, line).end)
                &&& token.lexeme.len() > 0
            },
            None => true,
        },
{
    lemma_lex_at_advances(src, start, line);
    let c = src[start];
    let end = lex_at(src, start, line).end;
    let text = src.subrange(start, end);
    if punctuation(c) is Some || operator(c, false) is Some {
    } else if c == '"' {
        let close = run_end(src, start + 1, Run::Quoted);
        lemma_run_end_bounds(src, start + 1, Run::Quoted);
        lemma_run_end_maximal(src, start + 1, Run::Quoted);
        if close < src.len() {
            assert(text.subrange(1, text.len() - 1) =~= src.subrange(start + 1, close));
            assert(is_quoted(text));
        }
    } else if is_digit(c) {
        let whole = run_end(src, start, Run::Digits);
        lemma_run_end_bounds(src, start, Run::Digits);
        lemma_run_end_maximal(src, start, Run::Digits);
        if end == whole {
            assert(all_digits(text));
        } else {
            lemma_run_end_bounds(src, whole + 1, Run::Digits);
            lemma_run_end_maximal(src, whole + 1, Run::Digits);
            let point = whole - start;
            assert(text[point] == '.');
            assert(all_digits(text.subrange(0, point))) by {
                assert forall|i: int| 0 <= i < point implies is_digit(
                    #[trigger] text.subrange(0, point)[i],
                ) by {
                    assert(Run::Digits.admits(src[start + i]));
                }
            }
            assert(all_digits(text.subrange(point + 1, text.len() as int)));
        }
    } else if is_alpha(c) {
        lemma_run_end_bounds(src, start, Run::Word);
        lemma_run_end_maximal(src, start, Run::Word);
        lemma_reserved_words_are_exact(text);
        assert(is_word(text));
    }
}

/// The shape of a scan from any position: its tokens are well-formed, it
/// ends with the one end-of-input token, and its lines begin at the line
/// given, never go back, and end at that line plus the newlines of the rest
/// of the source.
proof fn lemma_scan_from_shape(src: Seq<char>, pos: int, line: nat)
    requires
        0 <= pos <= src.len(),
    ensures
        ({
            let tokens = scan_from(src, pos, line).tokens;
            let diagnostics = scan_from(src, pos, line).diagnostics;
            let last_line = line + newlines(src, pos, src.len() as int);
            &&& tokens.len() >= 1
            &&& tokens.last().kind == TokenType::EOF
            &&& tokens.last().line == last_line
            &&& forall|i: int| 0 <= i < tokens.len() ==> well_formed(#[trigger] tokens[i])
            &&& forall|i: int|
                0 <= i < tokens.len() - 1 ==> (#[trigger] tokens[i]).kind != TokenType::EOF
            &&& forall|i: int| 0 <= i < tokens.len() ==> line <= (#[trigger] tokens[i]).line
            &&& forall|i: int, j: int|
                0 <= i <= j < tokens.len() ==> (#[trigger] tokens[i]).line <= (
                #[trigger] tokens[j]).line
            &&& forall|i: int|
                0 <= i < diagnostics.len() ==> line <= (#[trigger] diagnostics[i]).line
                    <= last_line
            &&& forall|i: int, j: int|
                0 <= i <= j < diagnostics.len() ==> (#[trigger] diagnostics[i]).line <= (
                #[trigger] diagnostics[j]).line
        }),
    decreases src.len() - pos,
{
    if pos < src.len() {
        let first = lex_at(src, pos, line);
        lemma_lex_at_advances(src, pos, line);
        lemma_lexeme_token(src, pos, line);
        lemma_lexeme_counts_newlines(src, pos, line);
        lemma_newlines_add(src, pos, first.end, src.len() as int);
        lemma_scan_from_shape(src, first.end, first.line);
    }
}

/// Whether `text` stands in `src` at index `at`.
pub open spec fn stands_at(src: Seq<char>, text: Seq<char>, at: int) -> bool {
    0 <= at && at + text.len() <= src.len() && src.subrange(at, at + text.len()) == text
}

/// Whether `places` gives, for each of `tokens`, an index of `src` at or
/// after `from` at which the token's lexeme stands, each lexeme behind the
/// one before it.
pub open spec fn in_source_order(
    src: Seq<char>,
    tokens: Seq<TokenView>,
    places: Seq<int>,
    from: int,
) -> bool {
    &&& places.len() == tokens.len()
    &&& forall|i: int|
        0 <= i < tokens.len() ==> from <= #[trigger] places[i] && stands_at(
            src,
            tokens[i].lexeme,
            places[i],
        )
    &&& forall|i: int, j: int|
        0 <= i < j < tokens.len() ==> #[trigger] places[i] + tokens[i].lexeme.len()
            <= #[trigger] places[j]
}

/// The tokens of a scan from any position stand in the source in the order
/// of the scan, at or after that position.
proof fn lemma_scan_from_places(src: Seq<char>, pos: int, line: nat) -> (places: Seq<int>)
    requires
        0 <= pos <= src.len(),
    ensures
        in_source_order(src, scan_from(src, pos, line).tokens, places, pos),
    decreases src.len() - pos,
{
    if pos < src.len() {
        let first = lex_at(src, pos, line);
        lemma_lex_at_advances(src, pos, line);
        lemma_lexeme_token(src, pos, line);
        let rest = lemma_scan_from_places(src, first.end, first.line);
        match first.token {
            Some(token) => seq![pos] + rest,
            None => rest,
        }
    } else {
        assert(src.subrange(pos, pos) =~= Seq::<char>::empty());
        seq![pos]
    }
}

/// The tokens of a scan follow the source: each lexeme stands in the source,
/// behind the lexeme of the token before it.
pub proof fn lemma_scan_follows_the_source(src: Seq<char>) -> (places: Seq<int>)
    ensures
        in_source_order(src, scan(src).tokens, places, 0),
{
    lemma_scan_from_places(src, 0, 1)
}

/// Every scan ends with the end-of-input token and holds no other
/// end-of-input token.
pub proof fn lemma_scan_ends_with_end_of_input(src: Seq<char>)
    ensures
        scan(src).tokens.len() >= 1,
        scan(src).tokens.last().kind == TokenType::EOF,
        forall|i: int|
            0 <= i < scan(src).tokens.len() - 1 ==> (#[trigger] scan(src).tokens[i]).kind
                != TokenType::EOF,
{
    lemma_scan_from_shape(src, 0, 1);
}

/// The lines of the tokens of a scan begin at 1 or later and never go back.
pub proof fn lemma_scan_lines_ascend(src: Seq<char>)
    ensures
        forall|i: int|
            0 <= i < scan(src).tokens.len() ==> 1 <= (#[trigger] scan(src).tokens[i]).line,
        forall|i: int, j: int|
            0 <= i <= j < scan(src).tokens.len() ==> (#[trigger] scan(src).tokens[i]).line <= (
            #[trigger] scan(src).tokens[j]).line,
{
    lemma_scan_from_shape(src, 0, 1);
}

/// The end-of-input token stands on the last line of the source: line 1
/// plus one line for each newline in the source.
pub proof fn lemma_scan_counts_lines(src: Seq<char>)
    ensures
        scan(src).tokens.last().line == 1 + newlines(src, 0, src.len() as int),
{
    lemma_scan_from_shape(src, 0, 1);
}

/// Every token of a scan is well-formed.
pub proof fn lemma_scan_tokens_are_well_formed(src: Seq<char>)
    ensures
        forall|i: int| 0 <= i < scan(src).tokens.len() ==> well_formed(#[trigger] scan(src).tokens[i]),
{
    lemma_scan_from_shape(src, 0, 1);
}

/// The lines of the diagnostics of a scan lie between 1 and the last line of
/// the source and never go back.
pub proof fn lemma_scan_diagnostic_lines_ascend(src: Seq<char>)
    ensures
        forall|i: int|
            0 <= i < scan(src).diagnostics.len() ==> 1 <= (#[trigger] scan(src).diagnostics[i]).line
                <= scan(src).tokens.last().line,
        forall|i: int, j: int|
            0 <= i <= j < scan(src).diagnostics.len() ==> (#[trigger] scan(
                src,
            ).diagnostics[i]).line <= (#[trigger] scan(src).diagnostics[j]).line,
{
    lemma_scan_from_shape(src, 0, 1);
}

} // verus!
