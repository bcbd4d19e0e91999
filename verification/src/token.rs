//! Tokens, and the numerals that number tokens carry.

use vstd::prelude::*;
use crate::lexical::{
    alphabetic, column_at, is_blank, lemma_one_eof_at_the_end, lemma_position_bounds, lexeme_at,
    line_at, numeral_run, scan_faults, scanned_tokens, token_from, unquoted_run, word_run,
    Lexed,
};
use crate::syntax::ends_with_eof;
use crate::text::{
    joined, located, located_string, quoted, quoted_string, report_string, string_views,
};

verus! {

/// Whether `c` is one of the ten ASCII digits.
pub open spec fn is_digit(c: char) -> bool {
    '0' <= c && c <= '9'
}

/// How many `.` characters `text` holds.
pub open spec fn dot_count(text: Seq<char>) -> nat
    decreases text.len(),
{
    if text.len() == 0 {
        0
    } else {
        dot_count(text.drop_last()) + if text.last() == '.' {
            1nat
        } else {
            0nat
        }
    }
}

/// The numerals of the language: ASCII digits around at most one `.`, with
/// at least one digit. `5`, `5.`, `.5` and `45.67` are numerals; `.` and
/// `1.2.3` are not.
pub open spec fn is_numeral(text: Seq<char>) -> bool {
    &&& forall|i: int| 0 <= i < text.len() ==> is_digit(#[trigger] text[i]) || text[i] == '.'
    &&& exists|i: int| 0 <= i < text.len() && is_digit(#[trigger] text[i])
    &&& dot_count(text) <= 1
}

/// The text of a number as it was written. The library never computes with
/// the value; it only passes the numeral on.
#[derive(Debug, PartialEq)]
pub struct Numeral {
    text: String,
}

impl View for Numeral {
    type V = Seq<char>;

    closed spec fn view(&self) -> Seq<char> {
        self.text@
    }
}

impl Clone for Numeral {
    fn clone(&self) -> (r: Self)
        ensures
            r@ == self@,
    {
        proof {
            use_type_invariant(self);
        }
        Numeral { text: self.text.clone() }
    }
}

impl Numeral {
    #[verifier::type_invariant]
    closed spec fn well_formed(self) -> bool {
        is_numeral(self.text@)
    }

    /// Takes `text` as a numeral if it is one.
    pub fn parse(text: &str) -> (r: Option<Numeral>)
        ensures
            r.is_some() == is_numeral(text@),
            r matches Some(n) ==> n@ == text@,
    {
        let n: usize = text.unicode_len();
        let mut dots: usize = 0;
        let mut digits: bool = false;
        let mut i: usize = 0;
        while i < n
            invariant
                i <= n,
                n == text@.len(),
                dots <= i,
                dots == dot_count(text@.take(i as int)),
                digits == exists|k: int| 0 <= k < i && is_digit(#[trigger] text@[k]),
                forall|k: int| 0 <= k < i ==> is_digit(#[trigger] text@[k]) || text@[k] == '.',
            decreases n - i,
        {
            let c = text.get_char(i);
            proof {
                assert(text@.take(i + 1).drop_last() =~= text@.take(i as int));
            }
            if c == '.' {
                dots = dots + 1;
            } else if '0' <= c && c <= '9' {
                digits = true;
            } else {
                assert(!is_numeral(text@));
                return None;
            }
            i = i + 1;
        }
        proof {
            assert(text@.take(n as int) =~= text@);
        }
        if digits && dots <= 1 {
            Some(Numeral { text: String::from_str(text) })
        } else {
            None
        }
    }

    /// The numeral as written.
    pub fn text(&self) -> (r: &str)
        ensures
            r@ == self@,
            is_numeral(r@),
    {
        proof {
            use_type_invariant(self);
        }
        self.text.as_str()
    }
}

/// The kinds of token, each with what it carries.
#[derive(Debug, PartialEq)]
pub enum TokenType {
    Plus,
    Minus,
    Star,
    Slash,
    LessThan,
    GreaterThan,
    LeftParen,
    RightParen,
    Identifier(String),
    Number(Numeral),
    String(String),
    If,
    Then,
    Else,
    MapsTo,
    Binding,
    EndStmt,
    Eof,
}

/// The model of a [`TokenType`]: texts are sequences of characters.
pub enum TokenTypeView {
    Plus,
    Minus,
    Star,
    Slash,
    LessThan,
    GreaterThan,
    LeftParen,
    RightParen,
    Identifier(Seq<char>),
    Number(Seq<char>),
    String(Seq<char>),
    If,
    Then,
    Else,
    MapsTo,
    Binding,
    EndStmt,
    Eof,
}

impl View for TokenType {
    type V = TokenTypeView;

    open spec fn view(&self) -> TokenTypeView {
        match self {
            TokenType::Plus => TokenTypeView::Plus,
            TokenType::Minus => TokenTypeView::Minus,
            TokenType::Star => TokenTypeView::Star,
            TokenType::Slash => TokenTypeView::Slash,
            TokenType::LessThan => TokenTypeView::LessThan,
            TokenType::GreaterThan => TokenTypeView::GreaterThan,
            TokenType::LeftParen => TokenTypeView::LeftParen,
            TokenType::RightParen => TokenTypeView::RightParen,
            TokenType::Identifier(name) => TokenTypeView::Identifier(name@),
            TokenType::Number(numeral) => TokenTypeView::Number(numeral@),
            TokenType::String(text) => TokenTypeView::String(text@),
            TokenType::If => TokenTypeView::If,
            TokenType::Then => TokenTypeView::Then,
            TokenType::Else => TokenTypeView::Else,
            TokenType::MapsTo => TokenTypeView::MapsTo,
            TokenType::Binding => TokenTypeView::Binding,
            TokenType::EndStmt => TokenTypeView::EndStmt,
            TokenType::Eof => TokenTypeView::Eof,
        }
    }
}

/// A token kind as it is written in messages.
pub open spec fn kind_name(kind: TokenTypeView) -> Seq<char> {
    match kind {
        TokenTypeView::Plus => "Plus"@,
        TokenTypeView::Minus => "Minus"@,
        TokenTypeView::Star => "Star"@,
        TokenTypeView::Slash => "Slash"@,
        TokenTypeView::LessThan => "LessThan"@,
        TokenTypeView::GreaterThan => "GreaterThan"@,
        TokenTypeView::LeftParen => "LeftParen"@,
        TokenTypeView::RightParen => "RightParen"@,
        TokenTypeView::Identifier(name) => "Identifier("@ + quoted(name) + ")"@,
        TokenTypeView::Number(numeral) => "Number("@ + numeral + ")"@,
        TokenTypeView::String(text) => "String("@ + quoted(text) + ")"@,
        TokenTypeView::If => "If"@,
        TokenTypeView::Then => "Then"@,
        TokenTypeView::Else => "Else"@,
        TokenTypeView::MapsTo => "MapsTo"@,
        TokenTypeView::Binding => "Binding"@,
        TokenTypeView::EndStmt => "EndStmt"@,
        TokenTypeView::Eof => "Eof"@,
    }
}

impl TokenType {
    /// The kind as it is written in messages.
    pub fn name(&self) -> (r: String)
        ensures
            r@ == kind_name(self@),
    {
        match self {
            TokenType::Plus => String::from_str("Plus"),
            TokenType::Minus => String::from_str("Minus"),
            TokenType::Star => String::from_str("Star"),
            TokenType::Slash => String::from_str("Slash"),
            TokenType::LessThan => String::from_str("LessThan"),
            TokenType::GreaterThan => String::from_str("GreaterThan"),
            TokenType::LeftParen => String::from_str("LeftParen"),
            TokenType::RightParen => String::from_str("RightParen"),
            TokenType::Identifier(name) => {
                let mut text = String::from_str("Identifier(");
                let inner = quoted_string(name.as_str());
                text.append(inner.as_str());
                text.append(")");
                text
            },
            TokenType::Number(numeral) => {
                let mut text = String::from_str("Number(");
                text.append(numeral.text());
                text.append(")");
                text
            },
            TokenType::String(content) => {
                let mut text = String::from_str("String(");
                let inner = quoted_string(content.as_str());
                text.append(inner.as_str());
                text.append(")");
                text
            },
            TokenType::If => String::from_str("If"),
            TokenType::Then => String::from_str("Then"),
            TokenType::Else => String::from_str("Else"),
            TokenType::MapsTo => String::from_str("MapsTo"),
            TokenType::Binding => String::from_str("Binding"),
            TokenType::EndStmt => String::from_str("EndStmt"),
            TokenType::Eof => String::from_str("Eof"),
        }
    }
}

impl Clone for TokenType {
    fn clone(&self) -> (r: Self)
        ensures
            r@ == self@,
    {
        match self {
            TokenType::Plus => TokenType::Plus,
            TokenType::Minus => TokenType::Minus,
            TokenType::Star => TokenType::Star,
            TokenType::Slash => TokenType::Slash,
            TokenType::LessThan => TokenType::LessThan,
            TokenType::GreaterThan => TokenType::GreaterThan,
            TokenType::LeftParen => TokenType::LeftParen,
            TokenType::RightParen => TokenType::RightParen,
            TokenType::Identifier(name) => TokenType::Identifier(name.clone()),
            TokenType::Number(numeral) => TokenType::Number(numeral.clone()),
            TokenType::String(text) => TokenType::String(text.clone()),
            TokenType::If => TokenType::If,
            TokenType::Then => TokenType::Then,
            TokenType::Else => TokenType::Else,
            TokenType::MapsTo => TokenType::MapsTo,
            TokenType::Binding => TokenType::Binding,
            TokenType::EndStmt => TokenType::EndStmt,
            TokenType::Eof => TokenType::Eof,
        }
    }
}

/// A token: its kind, the text it was read from, and the line and column at
/// which that text begins (both counted from 1).
#[derive(Debug, PartialEq)]
pub struct Token {
    pub kind: TokenType,
    pub lexeme: String,
    pub line: usize,
    pub column: usize,
}

/// The model of a [`Token`].
pub struct TokenView {
    pub kind: TokenTypeView,
    pub lexeme: Seq<char>,
    pub line: nat,
    pub column: nat,
}

impl View for Token {
    type V = TokenView;

    open spec fn view(&self) -> TokenView {
        TokenView {
            kind: self.kind@,
            lexeme: self.lexeme@,
            line: self.line as nat,
            column: self.column as nat,
        }
    }
}

impl Clone for Token {
    fn clone(&self) -> (r: Self)
        ensures
            r@ == self@,
    {
        Token {
            kind: self.kind.clone(),
            lexeme: self.lexeme.clone(),
            line: self.line,
            column: self.column,
        }
    }
}

/// The models of the tokens of `tokens`, in order.
pub open spec fn token_views(tokens: Seq<Token>) -> Seq<TokenView> {
    Seq::new(tokens.len(), |i: int| tokens[i]@)
}

/// A scanner over one source text.
pub struct Scanner {
    source: String,
    start: usize,
    current: usize,
    line: usize,
    column: usize,
}

/// Whether `r` is what the lexeme of `src` at `pos` yields, and `end` is
/// where that lexeme ends.
pub open spec fn lexed_as(src: Seq<char>, pos: int, end: int, r: Result<Token, String>) -> bool {
    let lexeme = lexeme_at(src, pos);
    &&& end == lexeme.end
    &&& match r {
        Ok(token) => lexeme.item == Lexed::Token(token@.kind) && token@ == token_from(
            src,
            pos,
            end,
            token@.kind,
        ),
        Err(message) => lexeme.item matches Lexed::Fault(text) && message@ == located(
            line_at(src, pos),
            column_at(src, pos),
            text,
        ),
    }
}

impl Scanner {
    /// The text that is scanned.
    pub closed spec fn source(&self) -> Seq<char> {
        self.source@
    }

    /// How many characters of the text have been read.
    pub closed spec fn position(&self) -> int {
        self.current as int
    }

    /// The scanner is inside its text and knows the line and column it is at.
    pub closed spec fn well_formed(&self) -> bool {
        &&& self.source@.len() < usize::MAX
        &&& self.start <= self.current <= self.source@.len()
        &&& self.line == line_at(self.source@, self.current as int)
        &&& self.column == column_at(self.source@, self.current as int)
    }

    /// A scanner at the start of `source`.
    pub fn new(source: &str) -> (r: Self)
        requires
            source@.len() < usize::MAX,
        ensures
            r.well_formed(),
            r.source() == source@,
            r.position() == 0,
    {
        Self { source: String::from_str(source), start: 0, current: 0, line: 1, column: 1 }
    }

    /// The lexical errors of one scan as one text.
    pub fn report(errors: &[String]) -> (r: String)
        ensures
            r@ == "Scanner errors:"@ + "\n"@ + joined(string_views(errors@)),
    {
        report_string("Scanner errors:", errors)
    }

    fn make_token(&self, kind: TokenType, line: usize, column: usize) -> (r: Result<Token, String>)
        requires
            self.well_formed(),
        ensures
            r matches Ok(token) && token@ == (TokenView {
                kind: kind@,
                lexeme: self.source@.subrange(self.start as int, self.current as int),
                line: line as nat,
                column: column as nat,
            }),
    {
        let lexeme = self.source.as_str().substring_char(self.start, self.current);
        Ok(Token { kind, lexeme: String::from_str(lexeme), line, column })
    }

    fn make_error(&self, message: &str, line: usize, column: usize) -> (r: Result<Token, String>)
        ensures
            r matches Err(text) && text@ == located(line as nat, column as nat, message@),
    {
        Err(located_string(line, column, message))
    }

    /// Scans the rest of the text. Scanning goes on after an error: the
    /// result is every token, the last of them the one end-of-input token,
    /// if no lexeme is in error, and every error otherwise.
    pub fn scan(&mut self) -> (r: Result<Vec<Token>, Vec<String>>)
        requires
            old(self).well_formed(),
        ensures
            final(self).well_formed(),
            final(self).source() == old(self).source(),
            final(self).position() == old(self).source().len(),
            match r {
                Ok(tokens) => {
                    &&& scan_faults(old(self).source(), old(self).position()).len() == 0
                    &&& token_views(tokens@) == scanned_tokens(
                        old(self).source(),
                        old(self).position(),
                    )
                    &&& ends_with_eof(token_views(tokens@))
                },
                Err(errors) => {
                    &&& errors@.len() > 0
                    &&& string_views(errors@) == scan_faults(
                        old(self).source(),
                        old(self).position(),
                    )
                },
            },
    {
        let mut tokens: Vec<Token> = Vec::new();
        let mut errors: Vec<String> = Vec::new();
        let ghost src = self.source@;
        let ghost from = self.current as int;
        proof {
            lemma_one_eof_at_the_end(src, from);
        }
        let mut done = false;
        while !done
            invariant
                self.well_formed(),
                self.source@ == src,
                from <= self.current,
                done ==> self.current == src.len(),
                scanned_tokens(src, from) == if done {
                    token_views(tokens@)
                } else {
                    token_views(tokens@) + scanned_tokens(src, self.current as int)
                },
                scan_faults(src, from) == if done {
                    string_views(errors@)
                } else {
                    string_views(errors@) + scan_faults(src, self.current as int)
                },
            decreases src.len() - self.current, if done { 0int } else { 1int },
        {
            let ghost before_tokens = token_views(tokens@);
            let ghost before_errors = string_views(errors@);
            match self.scan_token() {
                Ok(token) => {
                    let is_eof = matches!(token.kind, TokenType::Eof);
                    tokens.push(token);
                    assert(token_views(tokens@) =~= before_tokens + seq![token@]);
                    if is_eof {
                        done = true;
                        assert(scan_faults(src, from) =~= string_views(errors@));
                    }
                },
                Err(message) => {
                    errors.push(message);
                    assert(string_views(errors@) =~= before_errors + seq![message@]);
                },
            }
        }
        if errors.is_empty() {
            Ok(tokens)
        } else {
            Err(errors)
        }
    }

    fn scan_token(&mut self) -> (r: Result<Token, String>)
        requires
            old(self).well_formed(),
        ensures
            final(self).well_formed(),
            final(self).source@ == old(self).source@,
            final(self).current >= old(self).current,
            match r {
                Ok(token) => if token@.kind == TokenTypeView::Eof {
                    &&& final(self).current == old(self).source@.len()
                    &&& scanned_tokens(old(self).source@, old(self).current as int) == seq![token@]
                    &&& scan_faults(old(self).source@, old(self).current as int) == Seq::<
                        Seq<char>,
                    >::empty()
                } else {
                    &&& final(self).current > old(self).current
                    &&& scanned_tokens(old(self).source@, old(self).current as int) == seq![token@]
                        + scanned_tokens(old(self).source@, final(self).current as int)
                    &&& scan_faults(old(self).source@, old(self).current as int) == scan_faults(
                        old(self).source@,
                        final(self).current as int,
                    )
                },
                Err(message) => {
                    &&& final(self).current > old(self).current
                    &&& scanned_tokens(old(self).source@, old(self).current as int)
                        == scanned_tokens(old(self).source@, final(self).current as int)
                    &&& scan_faults(old(self).source@, old(self).current as int) == seq![message@]
                        + scan_faults(old(self).source@, final(self).current as int)
                },
            },
    {
        let ghost src = self.source@;
        let ghost from = self.current as int;
        let mut next = self.current();
        while next == Some(' ') || next == Some('\r') || next == Some('\t')
            invariant
                self.well_formed(),
                self.source@ == src,
                from <= self.current,
                next == (if self.current < src.len() {
                    Some(src[self.current as int])
                } else {
                    None
                }),
                scanned_tokens(src, from) == scanned_tokens(src, self.current as int),
                scan_faults(src, from) == scan_faults(src, self.current as int),
            decreases src.len() - self.current,
        {
            self.advance();
            next = self.current();
        }
        self.start = self.current;
        let line = self.line;
        let column = self.column;
        let ch = match next {
            Some(value) => value,
            None => {
                return self.make_token(TokenType::Eof, line, column);
            },
        };
        let r = if ch == '+' {
            self.advance();
            self.make_token(TokenType::Plus, line, column)
        } else if ch == '-' {
            self.advance();
            self.make_token(TokenType::Minus, line, column)
        } else if ch == '*' {
            self.advance();
            self.make_token(TokenType::Star, line, column)
        } else if ch == '/' {
            self.advance();
            self.make_token(TokenType::Slash, line, column)
        } else if ch == '<' {
            self.advance();
            self.make_token(TokenType::LessThan, line, column)
        } else if ch == '>' {
            self.advance();
            self.make_token(TokenType::GreaterThan, line, column)
        } else if ch == '(' {
            self.advance();
            self.make_token(TokenType::LeftParen, line, column)
        } else if ch == ')' {
            self.advance();
            self.make_token(TokenType::RightParen, line, column)
        } else if ch == '|' {
            self.maps_to(line, column)
        } else if ch == ':' {
            self.binding(line, column)
        } else if ch == '"' {
            self.string(line, column)
        } else if ch == '\n' || ch == ';' {
            self.advance();
            self.make_token(TokenType::EndStmt, line, column)
        } else if ('0' <= ch && ch <= '9') || ch == '.' {
            self.number(line, column)
        } else if ch.is_alphabetic() {
            self.identifier(line, column)
        } else {
            self.advance();
            let mut message = String::from_str("Unexpected character: ");
            message.append(self.source.as_str().substring_char(self.start, self.current));
            assert(message@ =~= "Unexpected character: "@.push(ch));
            self.make_error(message.as_str(), line, column)
        };
        assert(lexed_as(src, self.start as int, self.current as int, r));
        r
    }

    fn char_at(&self, index: usize) -> (r: Option<char>)
        ensures
            r == (if index < self.source@.len() {
                Some(self.source@[index as int])
            } else {
                None
            }),
    {
        if index < self.source.as_str().unicode_len() {
            Some(self.source.as_str().get_char(index))
        } else {
            None
        }
    }

    fn current(&self) -> (r: Option<char>)
        ensures
            r == (if self.current < self.source@.len() {
                Some(self.source@[self.current as int])
            } else {
                None
            }),
    {
        self.char_at(self.current)
    }

    fn advance(&mut self)
        requires
            old(self).well_formed(),
            old(self).current < old(self).source@.len(),
        ensures
            final(self).well_formed(),
            final(self).source == old(self).source,
            final(self).start == old(self).start,
            final(self).current == old(self).current + 1,
    {
        let c = self.source.as_str().get_char(self.current);
        proof {
            lemma_position_bounds(self.source@, self.current as int);
        }
        self.current = self.current + 1;
        if c == '\n' {
            self.line = self.line + 1;
            self.column = 1;
        } else {
            self.column = self.column + 1;
        }
    }

    fn advance_by(&mut self, amount: usize)
        requires
            old(self).well_formed(),
            old(self).current + amount <= old(self).source@.len(),
        ensures
            final(self).well_formed(),
            final(self).source == old(self).source,
            final(self).start == old(self).start,
            final(self).current == old(self).current + amount,
    {
        let mut done: usize = 0;
        while done < amount
            invariant
                self.well_formed(),
                self.source == old(self).source,
                self.start == old(self).start,
                done <= amount,
                self.current == old(self).current + done,
                old(self).current + amount <= old(self).source@.len(),
            decreases amount - done,
        {
            self.advance();
            done = done + 1;
        }
    }

    fn number(&mut self, line: usize, column: usize) -> (r: Result<Token, String>)
        requires
            old(self).well_formed(),
            old(self).start == old(self).current,
            old(self).current < old(self).source@.len(),
            line == line_at(old(self).source@, old(self).current as int),
            column == column_at(old(self).source@, old(self).current as int),
            is_digit(old(self).source@[old(self).current as int]) || old(self).source@[old(
                self,
            ).current as int] == '.',
            old(self).plain_at_start(),
        ensures
            final(self).well_formed(),
            final(self).source == old(self).source,
            final(self).start == old(self).start,
            lexed_as(old(self).source@, old(self).current as int, final(self).current as int, r),
    {
        let ghost src = self.source@;
        self.advance();
        let mut next = self.current();
        while next.is_some() && (next.unwrap().is_numeric() || next.unwrap() == '.')
            invariant
                self.well_formed(),
                self.source == old(self).source,
                self.source@ == src,
                self.start == old(self).start,
                self.start < self.current,
                next == (if self.current < src.len() {
                    Some(src[self.current as int])
                } else {
                    None
                }),
                self.current + numeral_run(src, self.current as int) == self.start + 1
                    + numeral_run(src, self.start + 1),
            decreases src.len() - self.current,
        {
            self.advance();
            next = self.current();
        }
        let lexeme = self.source.as_str().substring_char(self.start, self.current);
        match Numeral::parse(lexeme) {
            Some(numeral) => self.make_token(TokenType::Number(numeral), line, column),
            None => {
                let mut message = String::from_str("Failed to parse '");
                message.append(lexeme);
                message.append("' as a number: invalid float literal");
                self.make_error(message.as_str(), line, column)
            },
        }
    }

    fn identifier(&mut self, line: usize, column: usize) -> (r: Result<Token, String>)
        requires
            old(self).well_formed(),
            old(self).start == old(self).current,
            old(self).current < old(self).source@.len(),
            line == line_at(old(self).source@, old(self).current as int),
            column == column_at(old(self).source@, old(self).current as int),
            alphabetic(old(self).source@[old(self).current as int]),
            old(self).plain_at_start(),
            !is_digit(old(self).source@[old(self).current as int]),
            old(self).source@[old(self).current as int] != '.',
        ensures
            final(self).well_formed(),
            final(self).source == old(self).source,
            final(self).start == old(self).start,
            lexed_as(old(self).source@, old(self).current as int, final(self).current as int, r),
    {
        let ghost src = self.source@;
        self.advance();
        let mut next = self.current();
        while next.is_some() && (next.unwrap().is_alphanumeric() || next.unwrap() == '_')
            invariant
                self.well_formed(),
                self.source == old(self).source,
                self.source@ == src,
                self.start == old(self).start,
                self.start < self.current,
                next == (if self.current < src.len() {
                    Some(src[self.current as int])
                } else {
                    None
                }),
                self.current + word_run(src, self.current as int) == self.start + 1 + word_run(
                    src,
                    self.start + 1,
                ),
            decreases src.len() - self.current,
        {
            self.advance();
            next = self.current();
        }
        let lexeme = String::from_str(
            self.source.as_str().substring_char(self.start, self.current),
        );
        if lexeme == String::from_str("if") {
            self.make_token(TokenType::If, line, column)
        } else if lexeme == String::from_str("then") {
            self.make_token(TokenType::Then, line, column)
        } else if lexeme == String::from_str("else") {
            self.make_token(TokenType::Else, line, column)
        } else {
            self.make_token(TokenType::Identifier(lexeme), line, column)
        }
    }

    /// The character at the start of the lexeme is none of those that are a
    /// lexeme by themselves or begin a symbol or a string.
    spec fn plain_at_start(&self) -> bool {
        let c = self.source@[self.start as int];
        &&& c != '+' && c != '-' && c != '*' && c != '/' && c != '<' && c != '>'
        &&& c != '(' && c != ')' && c != '|' && c != ':' && c != '"'
        &&& c != '\n' && c != ';' && !is_blank(c)
    }

    fn maps_to(&mut self, line: usize, column: usize) -> (r: Result<Token, String>)
        requires
            old(self).well_formed(),
            old(self).start == old(self).current,
            old(self).current < old(self).source@.len(),
            line == line_at(old(self).source@, old(self).current as int),
            column == column_at(old(self).source@, old(self).current as int),
            old(self).source@[old(self).current as int] == '|',
        ensures
            final(self).well_formed(),
            final(self).source == old(self).source,
            final(self).start == old(self).start,
            lexed_as(old(self).source@, old(self).current as int, final(self).current as int, r),
    {
        let second = self.char_at(self.current + 1);
        let third = if second.is_some() {
            self.char_at(self.current + 2)
        } else {
            None
        };
        if second == Some('-') && third == Some('>') {
            self.advance_by(3);
            self.make_token(TokenType::MapsTo, line, column)
        } else {
            self.advance();
            self.make_error("Expected a |-> (MapsTo) symbol", line, column)
        }
    }

    fn binding(&mut self, line: usize, column: usize) -> (r: Result<Token, String>)
        requires
            old(self).well_formed(),
            old(self).start == old(self).current,
            old(self).current < old(self).source@.len(),
            line == line_at(old(self).source@, old(self).current as int),
            column == column_at(old(self).source@, old(self).current as int),
            old(self).source@[old(self).current as int] == ':',
        ensures
            final(self).well_formed(),
            final(self).source == old(self).source,
            final(self).start == old(self).start,
            lexed_as(old(self).source@, old(self).current as int, final(self).current as int, r),
    {
        let second = self.char_at(self.current + 1);
        if second == Some('=') {
            self.advance_by(2);
            self.make_token(TokenType::Binding, line, column)
        } else {
            self.advance();
            self.make_error("Expected a := (Binding) symbol", line, column)
        }
    }

    fn string(&mut self, line: usize, column: usize) -> (r: Result<Token, String>)
        requires
            old(self).well_formed(),
            old(self).start == old(self).current,
            old(self).current < old(self).source@.len(),
            line == line_at(old(self).source@, old(self).current as int),
            column == column_at(old(self).source@, old(self).current as int),
            old(self).source@[old(self).current as int] == '"',
        ensures
            final(self).well_formed(),
            final(self).source == old(self).source,
            final(self).start == old(self).start,
            lexed_as(old(self).source@, old(self).current as int, final(self).current as int, r),
    {
        let ghost src = self.source@;
        self.advance();
        let mut is_terminated = false;
        let mut next = self.current();
        while next.is_some() && !is_terminated
            invariant
                self.well_formed(),
                self.source == old(self).source,
                self.source@ == src,
                self.start == old(self).start,
                self.start < self.current,
                next == (if self.current < src.len() {
                    Some(src[self.current as int])
                } else {
                    None
                }),
                !is_terminated ==> self.current + unquoted_run(src, self.current as int)
                    == self.start + 1 + unquoted_run(src, self.start + 1),
                is_terminated ==> self.current == self.start + 1 + unquoted_run(
                    src,
                    self.start + 1,
                ) + 1 && self.current - 1 < src.len(),
            decreases src.len() - self.current, if is_terminated { 0int } else { 1int },
        {
            let ch = next.unwrap();
            self.advance();
            if ch == '"' {
                is_terminated = true;
            }
            next = self.current();
        }
        if !is_terminated {
            return self.make_error("Unterminated string literal", line, column);
        }
        let content = self.source.as_str().substring_char(self.start + 1, self.current - 1);
        self.make_token(TokenType::String(String::from_str(content)), line, column)
    }
}

} // verus!
