//! What scanning a source text yields, stated over sequences of characters.

use vstd::prelude::*;
use crate::text::located;
use crate::token::{is_digit, is_numeral, TokenTypeView, TokenView};

verus! {

/// What `char::is_alphabetic` answers for `c`.
pub uninterp spec fn alphabetic(c: char) -> bool;

/// What `char::is_alphanumeric` answers for `c`.
pub uninterp spec fn alphanumeric(c: char) -> bool;

/// What `char::is_numeric` answers for `c`.
pub uninterp spec fn numeric(c: char) -> bool;

/// `char::is_alphabetic`: whether the character has Unicode's `Alphabetic`
/// property. The answer depends on the character alone and is only named.
pub assume_specification[ char::is_alphabetic ](c: char) -> (r: bool)
    ensures
        r == alphabetic(c),
;

/// `char::is_alphanumeric`: whether the character is alphabetic or numeric
/// in Unicode's sense. The answer depends on the character alone and is only
/// named.
pub assume_specification[ char::is_alphanumeric ](c: char) -> (r: bool)
    ensures
        r == alphanumeric(c),
;

/// `char::is_numeric`: whether the character is in one of Unicode's number
/// categories. The answer depends on the character alone and is only named.
pub assume_specification[ char::is_numeric ](c: char) -> (r: bool)
    ensures
        r == numeric(c),
;

/// The characters that separate lexemes without being one.
pub open spec fn is_blank(c: char) -> bool {
    c == ' ' || c == '\r' || c == '\t'
}

/// White space: a blank or a line feed.
pub open spec fn is_whitespace(c: char) -> bool {
    is_blank(c) || c == '\n'
}

/// The characters that continue a numeral once it has begun.
pub open spec fn continues_numeral(c: char) -> bool {
    numeric(c) || c == '.'
}

/// The characters that continue a word once it has begun.
pub open spec fn continues_word(c: char) -> bool {
    alphanumeric(c) || c == '_'
}

/// The line of position `pos`: one more than the line feeds before it.
pub open spec fn line_at(src: Seq<char>, pos: int) -> nat
    decreases pos,
{
    if pos <= 0 {
        1
    } else if src[pos - 1] == '\n' {
        line_at(src, pos - 1) + 1
    } else {
        line_at(src, pos - 1)
    }
}

/// The column of position `pos`: one more than the characters between it and
/// the start of its line.
pub open spec fn column_at(src: Seq<char>, pos: int) -> nat
    decreases pos,
{
    if pos <= 0 {
        1
    } else if src[pos - 1] == '\n' {
        1
    } else {
        column_at(src, pos - 1) + 1
    }
}

/// How many characters from `pos` on continue a numeral.
pub open spec fn numeral_run(src: Seq<char>, pos: int) -> nat
    decreases src.len() - pos,
{
    if 0 <= pos < src.len() && continues_numeral(src[pos]) {
        1 + numeral_run(src, pos + 1)
    } else {
        0
    }
}

/// How many characters from `pos` on continue a word.
pub open spec fn word_run(src: Seq<char>, pos: int) -> nat
    decreases src.len() - pos,
{
    if 0 <= pos < src.len() && continues_word(src[pos]) {
        1 + word_run(src, pos + 1)
    } else {
        0
    }
}

/// How many characters from `pos` on come before the next `"`, or before the
/// end of the text if there is none.
pub open spec fn unquoted_run(src: Seq<char>, pos: int) -> nat
    decreases src.len() - pos,
{
    if 0 <= pos < src.len() && src[pos] != '"' {
        1 + unquoted_run(src, pos + 1)
    } else {
        0
    }
}

/// What a stretch of source text turns out to be.
pub enum Lexed {
    /// A token of this kind.
    Token(TokenTypeView),
    /// A lexical error, with its message.
    Fault(Seq<char>),
    /// A blank, which yields nothing.
    Blank,
}

/// A stretch of source text from some position to `end`, and what it is.
pub struct Lexeme {
    pub item: Lexed,
    pub end: int,
}

/// The kind of a word: one of the three keywords, or an identifier.
pub open spec fn word_kind(word: Seq<char>) -> TokenTypeView {
    if word == "if"@ {
        TokenTypeView::If
    } else if word == "then"@ {
        TokenTypeView::Then
    } else if word == "else"@ {
        TokenTypeView::Else
    } else {
        TokenTypeView::Identifier(word)
    }
}

/// The message for a run of numeral characters that is no numeral.
pub open spec fn numeral_fault(text: Seq<char>) -> Seq<char> {
    "Failed to parse '"@ + text + "' as a number: invalid float literal"@
}

/// The message for a character that begins no lexeme.
pub open spec fn character_fault(c: char) -> Seq<char> {
    "Unexpected character: "@.push(c)
}

/// The lexeme that begins at `pos`, a position inside `src`. The characters
/// that begin the different lexemes are disjoint; the rules are tried in this
/// order. Every lexeme holds at least one character and ends inside `src`.
pub open spec fn lexeme_at(src: Seq<char>, pos: int) -> Lexeme {
    let c = src[pos];
    if c == '+' {
        Lexeme { item: Lexed::Token(TokenTypeView::Plus), end: pos + 1 }
    } else if c == '-' {
        Lexeme { item: Lexed::Token(TokenTypeView::Minus), end: pos + 1 }
    } else if c == '*' {
        Lexeme { item: Lexed::Token(TokenTypeView::Star), end: pos + 1 }
    } else if c == '/' {
        Lexeme { item: Lexed::Token(TokenTypeView::Slash), end: pos + 1 }
    } else if c == '<' {
        Lexeme { item: Lexed::Token(TokenTypeView::LessThan), end: pos + 1 }
    } else if c == '>' {
        Lexeme { item: Lexed::Token(TokenTypeView::GreaterThan), end: pos + 1 }
    } else if c == '(' {
        Lexeme { item: Lexed::Token(TokenTypeView::LeftParen), end: pos + 1 }
    } else if c == ')' {
        Lexeme { item: Lexed::Token(TokenTypeView::RightParen), end: pos + 1 }
    } else if c == '|' {
        if pos + 2 < src.len() && src[pos + 1] == '-' && src[pos + 2] == '>' {
            Lexeme { item: Lexed::Token(TokenTypeView::MapsTo), end: pos + 3 }
        } else {
            Lexeme { item: Lexed::Fault("Expected a |-> (MapsTo) symbol"@), end: pos + 1 }
        }
    } else if c == ':' {
        if pos + 1 < src.len() && src[pos + 1] == '=' {
            Lexeme { item: Lexed::Token(TokenTypeView::Binding), end: pos + 2 }
        } else {
            Lexeme { item: Lexed::Fault("Expected a := (Binding) symbol"@), end: pos + 1 }
        }
    } else if c == '"' {
        let close = pos + 1 + unquoted_run(src, pos + 1);
        if close < src.len() {
            Lexeme {
                item: Lexed::Token(TokenTypeView::String(src.subrange(pos + 1, close))),
                end: close + 1,
            }
        } else {
            Lexeme { item: Lexed::Fault("Unterminated string literal"@), end: close }
        }
    } else if c == '\n' || c == ';' {
        Lexeme { item: Lexed::Token(TokenTypeView::EndStmt), end: pos + 1 }
    } else if is_blank(c) {
        Lexeme { item: Lexed::Blank, end: pos + 1 }
    } else if is_digit(c) || c == '.' {
        let end = pos + 1 + numeral_run(src, pos + 1);
        let text = src.subrange(pos, end);
        if is_numeral(text) {
            Lexeme { item: Lexed::Token(TokenTypeView::Number(text)), end }
        } else {
            Lexeme { item: Lexed::Fault(numeral_fault(text)), end }
        }
    } else if alphabetic(c) {
        let end = pos + 1 + word_run(src, pos + 1);
        Lexeme { item: Lexed::Token(word_kind(src.subrange(pos, end))), end }
    } else {
        Lexeme { item: Lexed::Fault(character_fault(c)), end: pos + 1 }
    }
}

/// The token of kind `kind` read from `src` between `pos` and `end`.
pub open spec fn token_from(src: Seq<char>, pos: int, end: int, kind: TokenTypeView) -> TokenView {
    TokenView {
        kind,
        lexeme: src.subrange(pos, end),
        line: line_at(src, pos),
        column: column_at(src, pos),
    }
}

/// The end-of-input token of `src`.
pub open spec fn eof_token(src: Seq<char>) -> TokenView {
    token_from(src, src.len() as int, src.len() as int, TokenTypeView::Eof)
}

/// The tokens of `src` from `pos` on: those of its lexemes, in order, and
/// one end-of-input token at the end.
pub open spec fn scanned_tokens(src: Seq<char>, pos: int) -> Seq<TokenView>
    decreases src.len() - pos,
{
    if pos < 0 || pos >= src.len() {
        seq![eof_token(src)]
    } else {
        let lexeme = lexeme_at(src, pos);
        if lexeme.end <= pos || lexeme.end > src.len() {
            seq![eof_token(src)]
        } else {
            match lexeme.item {
                Lexed::Token(kind) => seq![token_from(src, pos, lexeme.end, kind)]
                    + scanned_tokens(src, lexeme.end),
                _ => scanned_tokens(src, lexeme.end),
            }
        }
    }
}

/// The lexical errors of `src` from `pos` on, in order, each with the
/// position at which its lexeme begins.
pub open spec fn scan_faults(src: Seq<char>, pos: int) -> Seq<Seq<char>>
    decreases src.len() - pos,
{
    if pos < 0 || pos >= src.len() {
        Seq::empty()
    } else {
        let lexeme = lexeme_at(src, pos);
        if lexeme.end <= pos || lexeme.end > src.len() {
            Seq::empty()
        } else {
            match lexeme.item {
                Lexed::Fault(message) => seq![
                    located(line_at(src, pos), column_at(src, pos), message),
                ] + scan_faults(src, lexeme.end),
                _ => scan_faults(src, lexeme.end),
            }
        }
    }
}

/// Lines and columns are at most one more than the position they belong to.
pub proof fn lemma_position_bounds(src: Seq<char>, pos: int)
    requires
        0 <= pos,
    ensures
        1 <= line_at(src, pos) <= pos + 1,
        1 <= column_at(src, pos) <= pos + 1,
    decreases pos,
{
    if pos > 0 {
        lemma_position_bounds(src, pos - 1);
    }
}

/// A run that starts inside the text ends inside it.
pub proof fn lemma_run_bounds(src: Seq<char>, pos: int)
    requires
        0 <= pos <= src.len(),
    ensures
        pos + numeral_run(src, pos) <= src.len(),
        pos + word_run(src, pos) <= src.len(),
        pos + unquoted_run(src, pos) <= src.len(),
    decreases src.len() - pos,
{
    if pos < src.len() {
        lemma_run_bounds(src, pos + 1);
    }
}

/// Every lexeme holds at least one character and ends inside the text.
pub proof fn lemma_lexeme_bounds(src: Seq<char>, pos: int)
    requires
        0 <= pos < src.len(),
    ensures
        pos < lexeme_at(src, pos).end <= src.len(),
        !(lexeme_at(src, pos).item matches Lexed::Token(TokenTypeView::Eof)),
{
    lemma_run_bounds(src, pos + 1);
}

/// A token sequence ends with exactly one end-of-input token: the last token
/// of a scan is the end-of-input token of the text, and no token before it
/// is one.
pub proof fn lemma_one_eof_at_the_end(src: Seq<char>, pos: int)
    requires
        0 <= pos <= src.len(),
    ensures
        scanned_tokens(src, pos).len() >= 1,
        scanned_tokens(src, pos).last() == eof_token(src),
        forall|i: int|
            0 <= i < scanned_tokens(src, pos).len() - 1 ==> (#[trigger] scanned_tokens(
                src,
                pos,
            )[i]).kind != TokenTypeView::Eof,
    decreases src.len() - pos,
{
    if pos < src.len() {
        lemma_lexeme_bounds(src, pos);
        let lexeme = lexeme_at(src, pos);
        lemma_one_eof_at_the_end(src, lexeme.end);
        let rest = scanned_tokens(src, lexeme.end);
        match lexeme.item {
            Lexed::Token(kind) => {
                let first = token_from(src, pos, lexeme.end, kind);
                let all = scanned_tokens(src, pos);
                assert(all =~= seq![first] + rest);
                assert forall|i: int| 0 <= i < all.len() - 1 implies (#[trigger] all[i]).kind
                    != TokenTypeView::Eof by {
                    if i > 0 {
                        assert(all[i] == rest[i - 1]);
                    }
                }
            },
            _ => {},
        }
    }
}

/// A text of blanks alone scans to the end-of-input token and nothing else,
/// without an error.
pub proof fn lemma_blank_text_scans_to_eof(src: Seq<char>, pos: int)
    requires
        0 <= pos <= src.len(),
        forall|i: int| 0 <= i < src.len() ==> is_blank(#[trigger] src[i]),
    ensures
        scanned_tokens(src, pos) == seq![eof_token(src)],
        scan_faults(src, pos) == Seq::<Seq<char>>::empty(),
    decreases src.len() - pos,
{
    if pos < src.len() {
        assert(is_blank(src[pos]));
        lemma_blank_text_scans_to_eof(src, pos + 1);
    }
}

/// A text of white space alone scans without an error, to terminators (one
/// for each line feed) and the end-of-input token behind them.
pub proof fn lemma_whitespace_scans_to_terminators(src: Seq<char>, pos: int)
    requires
        0 <= pos <= src.len(),
        forall|i: int| 0 <= i < src.len() ==> is_whitespace(#[trigger] src[i]),
    ensures
        scan_faults(src, pos) == Seq::<Seq<char>>::empty(),
        scanned_tokens(src, pos).len() >= 1,
        scanned_tokens(src, pos).last() == eof_token(src),
        forall|i: int|
            0 <= i < scanned_tokens(src, pos).len() - 1 ==> (#[trigger] scanned_tokens(
                src,
                pos,
            )[i]).kind == TokenTypeView::EndStmt,
    decreases src.len() - pos,
{
    lemma_one_eof_at_the_end(src, pos);
    if pos < src.len() {
        assert(is_whitespace(src[pos]));
        lemma_whitespace_scans_to_terminators(src, pos + 1);
        let rest = scanned_tokens(src, pos + 1);
        if src[pos] == '\n' {
            let first = token_from(src, pos, pos + 1, TokenTypeView::EndStmt);
            let all = scanned_tokens(src, pos);
            assert(all =~= seq![first] + rest);
            assert forall|i: int| 0 <= i < all.len() - 1 implies (#[trigger] all[i]).kind
                == TokenTypeView::EndStmt by {
                if i > 0 {
                    assert(all[i] == rest[i - 1]);
                }
            }
        }
    }
}

} // verus!
