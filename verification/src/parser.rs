//! The parser: recursive descent, one token of lookahead, and recovery at
//! statement boundaries.

use vstd::prelude::*;
use crate::ast::{expr_views, Expr, ExprView, LiteralValue};
use crate::syntax::{
    additive_at, additive_rest, binding_at, ends_with_eof, expression_at, grouping_at,
    lemma_synchronised_stops, parse_errors, parsed_program, parsed_statements, primary_at,
    program_end, statement_at, synchronised, term_at, term_rest, Parsed,
};
use crate::text::{joined, located, located_string, report_string, string_views};
use crate::token::{kind_name, token_views, Token, TokenType, TokenTypeView, TokenView};

verus! {

/// A parser over one token sequence.
pub struct Parser {
    tokens: Vec<Token>,
    current: usize,
}

/// Whether `r`, reached at position `next`, is the outcome `expected`.
pub open spec fn parsed_as(r: Result<Expr, String>, next: int, expected: Parsed) -> bool {
    &&& expected.next == next
    &&& match r {
        Ok(tree) => expected.result == Ok::<ExprView, Seq<char>>(tree@),
        Err(message) => expected.result == Err::<ExprView, Seq<char>>(message@),
    }
}

impl Parser {
    /// The tokens that are parsed.
    pub closed spec fn tokens(&self) -> Seq<TokenView> {
        token_views(self.tokens@)
    }

    /// The position of the next token to look at.
    pub closed spec fn position(&self) -> int {
        self.current as int
    }

    /// The tokens end with an end-of-input token, and the parser is at one
    /// of them.
    pub open spec fn well_formed(&self) -> bool {
        &&& ends_with_eof(self.tokens())
        &&& 0 <= self.position() < self.tokens().len()
    }

    /// A parser at the first of `tokens`.
    pub fn new(tokens: Vec<Token>) -> (r: Self)
        ensures
            r.tokens() == token_views(tokens@),
            r.position() == 0,
    {
        Self { tokens, current: 0 }
    }

    /// The syntax errors of one parse as one text.
    pub fn report(errors: &[String]) -> (r: String)
        ensures
            r@ == "Parser errors:"@ + "\n"@ + joined(string_views(errors@)),
    {
        report_string("Parser errors:", errors)
    }

    /// Parses the program that begins at the parser's position: see
    /// [`Parser::program`].
    pub fn parse(&mut self) -> (r: Result<Expr, Vec<String>>)
        requires
            old(self).well_formed(),
        ensures
            final(self).well_formed(),
            final(self).tokens() == old(self).tokens(),
            final(self).position() == program_end(old(self).tokens(), old(self).position()),
            final(self).tokens()[final(self).position()].kind == TokenTypeView::Eof,
            match r {
                Ok(tree) => parsed_program(old(self).tokens(), old(self).position()) == Ok::<
                    ExprView,
                    Seq<Seq<char>>,
                >(tree@),
                Err(errors) => parsed_program(old(self).tokens(), old(self).position()) == Err::<
                    ExprView,
                    Seq<Seq<char>>,
                >(string_views(errors@)),
            },
    {
        self.program()
    }

    fn current(&self) -> (r: &Token)
        requires
            self.well_formed(),
        ensures
            r@ == self.tokens()[self.position()],
    {
        &self.tokens[self.current]
    }

    fn current_kind(&self) -> (r: &TokenType)
        requires
            self.well_formed(),
        ensures
            r@ == self.tokens()[self.position()].kind,
    {
        &self.tokens[self.current].kind
    }

    fn lookahead_kind(&self) -> (r: Option<&TokenType>)
        requires
            self.well_formed(),
        ensures
            match r {
                Some(kind) => self.position() + 1 < self.tokens().len() && kind@
                    == self.tokens()[self.position() + 1].kind,
                None => self.position() + 1 >= self.tokens().len(),
            },
    {
        let length = self.tokens.len();
        assert(self.current < length);
        if self.current + 1 < length {
            Some(&self.tokens[self.current + 1].kind)
        } else {
            None
        }
    }

    fn advance(&mut self)
        requires
            old(self).well_formed(),
            old(self).tokens()[old(self).position()].kind != TokenTypeView::Eof,
        ensures
            final(self).well_formed(),
            final(self).tokens == old(self).tokens,
            final(self).current == old(self).current + 1,
    {
        let length = self.tokens.len();
        assert(self.current < length);
        self.current = self.current + 1;
    }

    fn make_error(&self, message: &str) -> (r: Result<Expr, String>)
        requires
            self.well_formed(),
        ensures
            r matches Err(text) && text@ == located(
                self.tokens()[self.position()].line,
                self.tokens()[self.position()].column,
                message@,
            ),
    {
        let token = self.current();
        Err(located_string(token.line, token.column, message))
    }

    /// An error that names the kind of the token at the parser's position.
    fn make_unexpected(&self, message: &str) -> (r: Result<Expr, String>)
        requires
            self.well_formed(),
        ensures
            r matches Err(text) && text@ == located(
                self.tokens()[self.position()].line,
                self.tokens()[self.position()].column,
                message@ + kind_name(self.tokens()[self.position()].kind),
            ),
    {
        let mut text = String::from_str(message);
        let found = self.current_kind().name();
        text.append(found.as_str());
        self.make_error(text.as_str())
    }

    fn is_at_end(&self) -> (r: bool)
        requires
            self.well_formed(),
        ensures
            r == (self.tokens()[self.position()].kind == TokenTypeView::Eof),
    {
        matches!(self.current_kind(), TokenType::Eof)
    }

    /// Skips to the next statement terminator or to the end of input, so
    /// that one malformed statement gives one error.
    fn synchronise(&mut self)
        requires
            old(self).well_formed(),
        ensures
            final(self).well_formed(),
            final(self).tokens == old(self).tokens,
            final(self).current >= old(self).current,
            final(self).current == synchronised(old(self).tokens(), old(self).position()),
    {
        while !matches!(self.current_kind(), TokenType::EndStmt | TokenType::Eof)
            invariant
                self.well_formed(),
                self.tokens == old(self).tokens,
                self.current >= old(self).current,
                synchronised(old(self).tokens(), old(self).position()) == synchronised(
                    self.tokens(),
                    self.position(),
                ),
            decreases self.tokens@.len() - self.current,
        {
            self.advance();
        }
    }

    /// Parses statements up to the end of input. A statement that does not
    /// parse gives one error, and parsing resumes at the next terminator.
    /// The result is the program of the statements that are not empty, if
    /// there was no error, and every error otherwise.
    pub fn program(&mut self) -> (r: Result<Expr, Vec<String>>)
        requires
            old(self).well_formed(),
        ensures
            final(self).well_formed(),
            final(self).tokens() == old(self).tokens(),
            final(self).position() == program_end(old(self).tokens(), old(self).position()),
            final(self).tokens()[final(self).position()].kind == TokenTypeView::Eof,
            match r {
                Ok(tree) => parsed_program(old(self).tokens(), old(self).position()) == Ok::<
                    ExprView,
                    Seq<Seq<char>>,
                >(tree@),
                Err(errors) => parsed_program(old(self).tokens(), old(self).position()) == Err::<
                    ExprView,
                    Seq<Seq<char>>,
                >(string_views(errors@)),
            },
    {
        let mut statements: Vec<Expr> = Vec::new();
        let mut errors: Vec<String> = Vec::new();
        let ghost ts = self.tokens();
        let ghost from = self.position();
        while !self.is_at_end()
            invariant
                self.well_formed(),
                self.tokens == old(self).tokens,
                self.tokens() == ts,
                from <= self.current,
                parsed_statements(ts, from) == expr_views(statements@) + parsed_statements(
                    ts,
                    self.current as int,
                ),
                parse_errors(ts, from) == string_views(errors@) + parse_errors(
                    ts,
                    self.current as int,
                ),
                program_end(ts, from) == program_end(ts, self.current as int),
            decreases self.tokens@.len() - self.current,
        {
            let ghost at = self.position();
            let ghost before_statements = expr_views(statements@);
            let ghost before_errors = string_views(errors@);
            match self.statement() {
                Ok(stmt) => {
                    if !matches!(stmt, Expr::Empty) {
                        statements.push(stmt);
                        assert(expr_views(statements@) =~= before_statements + seq![stmt@]);
                    }
                },
                Err(message) => {
                    errors.push(message);
                    assert(string_views(errors@) =~= before_errors + seq![message@]);
                    let ghost stopped = self.position();
                    self.synchronise();
                    proof {
                        if stopped == at {
                            assert(ts[at].kind != TokenTypeView::EndStmt);
                            lemma_synchronised_stops(ts, at + 1);
                        }
                    }
                    assert(self.position() > at);
                },
            }
        }
        assert(parsed_statements(ts, from) =~= expr_views(statements@));
        assert(parse_errors(ts, from) =~= string_views(errors@));
        if errors.is_empty() {
            let tree = Expr::Program { statements };
            assert(tree@->statements =~= expr_views(statements@));
            Ok(tree)
        } else {
            Err(errors)
        }
    }

    fn statement(&mut self) -> (r: Result<Expr, String>)
        requires
            old(self).well_formed(),
        ensures
            final(self).well_formed(),
            final(self).tokens == old(self).tokens,
            final(self).current >= old(self).current,
            r is Ok ==> final(self).current > old(self).current,
            parsed_as(
                r,
                final(self).position(),
                statement_at(old(self).tokens(), old(self).position()),
            ),
    {
        let expr = match self.expression() {
            Ok(expr) => expr,
            Err(message) => {
                return Err(message);
            },
        };
        if matches!(expr, Expr::Empty) {
            Ok(expr)
        } else if matches!(self.current_kind(), TokenType::EndStmt | TokenType::Eof) {
            Ok(expr)
        } else {
            self.make_unexpected("Expected ; or newline after expression, found ")
        }
    }

    fn expression(&mut self) -> (r: Result<Expr, String>)
        requires
            old(self).well_formed(),
        ensures
            final(self).well_formed(),
            final(self).tokens == old(self).tokens,
            final(self).current >= old(self).current,
            r is Ok ==> final(self).current > old(self).current,
            parsed_as(
                r,
                final(self).position(),
                expression_at(old(self).tokens(), old(self).position()),
            ),
        decreases old(self).tokens@.len() - old(self).current, 6int,
    {
        if matches!(self.current_kind(), TokenType::EndStmt) {
            self.empty_expr()
        } else if matches!(self.lookahead_kind(), Some(TokenType::Binding)) {
            self.binding()
        } else {
            self.binary_expr()
        }
    }

    fn empty_expr(&mut self) -> (r: Result<Expr, String>)
        requires
            old(self).well_formed(),
            old(self).tokens()[old(self).position()].kind == TokenTypeView::EndStmt,
        ensures
            final(self).well_formed(),
            final(self).tokens == old(self).tokens,
            final(self).current == old(self).current + 1,
            r == Ok::<Expr, String>(Expr::Empty),
    {
        self.advance();
        Ok(Expr::Empty)
    }

    fn binding(&mut self) -> (r: Result<Expr, String>)
        requires
            old(self).well_formed(),
        ensures
            final(self).well_formed(),
            final(self).tokens == old(self).tokens,
            final(self).current >= old(self).current,
            r is Ok ==> final(self).current > old(self).current,
            parsed_as(
                r,
                final(self).position(),
                binding_at(old(self).tokens(), old(self).position()),
            ),
        decreases old(self).tokens@.len() - old(self).current, 5int,
    {
        let name = match self.primary() {
            Ok(Expr::Variable(name)) => name,
            Ok(_) => {
                return self.make_error("Expected an identifier to bind a value");
            },
            Err(message) => {
                return Err(message);
            },
        };
        if matches!(self.current_kind(), TokenType::Binding) {
            self.advance();
            match self.expression() {
                Ok(expr) => Ok(Expr::Binding { name, expr: Box::new(expr) }),
                Err(message) => Err(message),
            }
        } else {
            self.make_unexpected("Expected a binding expression, found ")
        }
    }

    fn binary_expr(&mut self) -> (r: Result<Expr, String>)
        requires
            old(self).well_formed(),
        ensures
            final(self).well_formed(),
            final(self).tokens == old(self).tokens,
            final(self).current >= old(self).current,
            r is Ok ==> final(self).current > old(self).current,
            parsed_as(
                r,
                final(self).position(),
                additive_at(old(self).tokens(), old(self).position()),
            ),
        decreases old(self).tokens@.len() - old(self).current, 4int,
    {
        let ghost ts = self.tokens();
        let ghost from = self.position();
        let mut left = match self.term() {
            Ok(expr) => expr,
            Err(message) => {
                return Err(message);
            },
        };
        while matches!(self.current_kind(), TokenType::Plus | TokenType::Minus)
            invariant
                self.well_formed(),
                self.tokens == old(self).tokens,
                self.tokens() == ts,
                from < self.current,
                from == old(self).current,
                additive_at(ts, from) == additive_rest(ts, self.position(), left@),
            decreases self.tokens@.len() - self.current,
        {
            let op = self.current().clone();
            self.advance();
            let right = match self.term() {
                Ok(expr) => expr,
                Err(message) => {
                    return Err(message);
                },
            };
            left = Expr::Binary { left: Box::new(left), op, right: Box::new(right) };
        }
        Ok(left)
    }

    fn term(&mut self) -> (r: Result<Expr, String>)
        requires
            old(self).well_formed(),
        ensures
            final(self).well_formed(),
            final(self).tokens == old(self).tokens,
            final(self).current >= old(self).current,
            r is Ok ==> final(self).current > old(self).current,
            parsed_as(
                r,
                final(self).position(),
                term_at(old(self).tokens(), old(self).position()),
            ),
        decreases old(self).tokens@.len() - old(self).current, 3int,
    {
        let ghost ts = self.tokens();
        let ghost from = self.position();
        let mut left = match self.factor() {
            Ok(expr) => expr,
            Err(message) => {
                return Err(message);
            },
        };
        while matches!(self.current_kind(), TokenType::Star | TokenType::Slash)
            invariant
                self.well_formed(),
                self.tokens == old(self).tokens,
                self.tokens() == ts,
                from < self.current,
                from == old(self).current,
                term_at(ts, from) == term_rest(ts, self.position(), left@),
            decreases self.tokens@.len() - self.current,
        {
            let op = self.current().clone();
            self.advance();
            let right = match self.factor() {
                Ok(expr) => expr,
                Err(message) => {
                    return Err(message);
                },
            };
            left = Expr::Binary { left: Box::new(left), op, right: Box::new(right) };
        }
        Ok(left)
    }

    fn factor(&mut self) -> (r: Result<Expr, String>)
        requires
            old(self).well_formed(),
        ensures
            final(self).well_formed(),
            final(self).tokens == old(self).tokens,
            final(self).current >= old(self).current,
            r is Ok ==> final(self).current > old(self).current,
            parsed_as(
                r,
                final(self).position(),
                primary_at(old(self).tokens(), old(self).position()),
            ),
        decreases old(self).tokens@.len() - old(self).current, 2int, 1int,
    {
        self.primary()
    }

    fn primary(&mut self) -> (r: Result<Expr, String>)
        requires
            old(self).well_formed(),
        ensures
            final(self).well_formed(),
            final(self).tokens == old(self).tokens,
            final(self).current >= old(self).current,
            r is Ok ==> final(self).current > old(self).current,
            parsed_as(
                r,
                final(self).position(),
                primary_at(old(self).tokens(), old(self).position()),
            ),
        decreases old(self).tokens@.len() - old(self).current, 2int, 0int,
    {
        match self.current_kind() {
            TokenType::Number(value) => {
                let literal = LiteralValue::Number(value.clone());
                self.advance();
                Ok(Expr::Literal(literal))
            },
            TokenType::Identifier(name) => {
                let name = name.clone();
                self.advance();
                Ok(Expr::Variable(name))
            },
            TokenType::String(message) => {
                let literal = LiteralValue::String(message.clone());
                self.advance();
                Ok(Expr::Literal(literal))
            },
            TokenType::LeftParen => self.grouping(),
            _ => self.make_unexpected("Expected a primary expression, found "),
        }
    }

    fn grouping(&mut self) -> (r: Result<Expr, String>)
        requires
            old(self).well_formed(),
            old(self).tokens()[old(self).position()].kind == TokenTypeView::LeftParen,
        ensures
            final(self).well_formed(),
            final(self).tokens == old(self).tokens,
            final(self).current > old(self).current,
            parsed_as(
                r,
                final(self).position(),
                grouping_at(old(self).tokens(), old(self).position()),
            ),
        decreases old(self).tokens@.len() - old(self).current, 1int,
    {
        self.advance();
        let expr = match self.expression() {
            Ok(expr) => expr,
            Err(message) => {
                return Err(message);
            },
        };
        if matches!(self.current_kind(), TokenType::RightParen) {
            self.advance();
            Ok(Expr::Grouping(Box::new(expr)))
        } else {
            self.make_unexpected("Expected ) after parenthesised expression, found ")
        }
    }
}

} // verus!
