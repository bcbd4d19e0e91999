//! What parsing a token sequence yields, stated over the models of tokens
//! and trees.
//!
//! ```text
//! program    := statement* EOF
//! statement  := expression ( ENDSTMT | EOF )
//! expression := binding | additive | EMPTY
//! binding    := IDENTIFIER ":=" expression
//! additive   := term ( ( "+" | "-" ) term )*
//! term       := primary ( ( "*" | "/" ) primary )*
//! primary    := NUMBER | STRING | IDENTIFIER | "(" expression ")"
//! ```

use vstd::prelude::*;
use crate::ast::{ExprView, LiteralView};
use crate::text::located;
use crate::token::{kind_name, TokenTypeView, TokenView};

verus! {

/// The outcome of parsing one construct: the tree or the error message, and
/// the position of the first token that was not consumed. After an error
/// that is the token at which parsing stopped.
pub struct Parsed {
    pub result: Result<ExprView, Seq<char>>,
    pub next: int,
}

/// The tokens end with an end-of-input token.
pub open spec fn ends_with_eof(ts: Seq<TokenView>) -> bool {
    ts.len() > 0 && ts.last().kind == TokenTypeView::Eof
}

/// A construct parsed up to `next`.
pub open spec fn parsed(tree: ExprView, next: int) -> Parsed {
    Parsed { result: Ok(tree), next }
}

/// An error at the token at `pos`, with that token's line and column.
pub open spec fn failed(ts: Seq<TokenView>, pos: int, message: Seq<char>) -> Parsed {
    Parsed { result: Err(located(ts[pos].line, ts[pos].column, message)), next: pos }
}

/// An error where no token is left: it is put at the first line and column.
pub open spec fn failed_at_the_end(pos: int) -> Parsed {
    Parsed { result: Err(located(1, 1, "Expected an expression"@)), next: pos }
}

/// An error at the token at `pos` that names the kind of that token.
pub open spec fn unexpected(ts: Seq<TokenView>, pos: int, message: Seq<char>) -> Parsed {
    failed(ts, pos, message + kind_name(ts[pos].kind))
}

/// The operators of an additive expression.
pub open spec fn is_additive(kind: TokenTypeView) -> bool {
    kind == TokenTypeView::Plus || kind == TokenTypeView::Minus
}

/// The operators of a term.
pub open spec fn is_multiplicative(kind: TokenTypeView) -> bool {
    kind == TokenTypeView::Star || kind == TokenTypeView::Slash
}

/// What may follow a statement: a terminator or the end of input.
pub open spec fn ends_statement(kind: TokenTypeView) -> bool {
    kind == TokenTypeView::EndStmt || kind == TokenTypeView::Eof
}

/// The operation of the operator token `op` on `left` and `right`.
pub open spec fn binary(left: ExprView, op: TokenView, right: ExprView) -> ExprView {
    ExprView::Binary { left: Box::new(left), op, right: Box::new(right) }
}

/// `expression` at `pos`: a lone terminator is the empty expression; a token
/// followed by `:=` begins a binding; anything else is an additive
/// expression.
///
/// Here and below, a test that a position lies behind another one and
/// inside the tokens only makes it evident that the definition is well
/// founded: by [`lemma_expression_is_sound`] and [`lemma_resumed_further`]
/// these tests never fail on tokens that end with the end of input.
pub open spec fn expression_at(ts: Seq<TokenView>, pos: int) -> Parsed
    decreases ts.len() - pos, 6int,
{
    if !(0 <= pos < ts.len()) {
        failed_at_the_end(pos)
    } else if ts[pos].kind == TokenTypeView::EndStmt {
        parsed(ExprView::Empty, pos + 1)
    } else if pos + 1 < ts.len() && ts[pos + 1].kind == TokenTypeView::Binding {
        binding_at(ts, pos)
    } else {
        additive_at(ts, pos)
    }
}

/// `binding` at `pos`: the target must be a bare identifier.
pub open spec fn binding_at(ts: Seq<TokenView>, pos: int) -> Parsed
    decreases ts.len() - pos, 5int,
{
    let target = primary_at(ts, pos);
    match target.result {
        Err(_) => target,
        Ok(ExprView::Variable(name)) => {
            if !(pos <= target.next < ts.len()) {
                target
            } else if ts[target.next].kind == TokenTypeView::Binding {
                let value = expression_at(ts, target.next + 1);
                match value.result {
                    Err(_) => value,
                    Ok(tree) => parsed(
                        ExprView::Binding { name, expr: Box::new(tree) },
                        value.next,
                    ),
                }
            } else {
                unexpected(ts, target.next, "Expected a binding expression, found "@)
            }
        },
        Ok(_) => failed(ts, target.next, "Expected an identifier to bind a value"@),
    }
}

/// `additive` at `pos`: terms joined by `+` and `-`, grouped to the left.
pub open spec fn additive_at(ts: Seq<TokenView>, pos: int) -> Parsed
    decreases ts.len() - pos, 4int,
{
    let first = term_at(ts, pos);
    match first.result {
        Err(_) => first,
        Ok(left) => if pos < first.next <= ts.len() {
            additive_rest(ts, first.next, left)
        } else {
            first
        },
    }
}

/// The rest of an additive expression whose terms so far make up `left`.
pub open spec fn additive_rest(ts: Seq<TokenView>, pos: int, left: ExprView) -> Parsed
    decreases ts.len() - pos, 0int,
{
    if 0 <= pos < ts.len() && is_additive(ts[pos].kind) {
        let term = term_at(ts, pos + 1);
        match term.result {
            Err(_) => term,
            Ok(right) => if pos < term.next <= ts.len() {
                additive_rest(ts, term.next, binary(left, ts[pos], right))
            } else {
                term
            },
        }
    } else {
        parsed(left, pos)
    }
}

/// `term` at `pos`: primaries joined by `*` and `/`, grouped to the left.
pub open spec fn term_at(ts: Seq<TokenView>, pos: int) -> Parsed
    decreases ts.len() - pos, 3int,
{
    let first = primary_at(ts, pos);
    match first.result {
        Err(_) => first,
        Ok(left) => if pos < first.next <= ts.len() {
            term_rest(ts, first.next, left)
        } else {
            first
        },
    }
}

/// The rest of a term whose primaries so far make up `left`.
pub open spec fn term_rest(ts: Seq<TokenView>, pos: int, left: ExprView) -> Parsed
    decreases ts.len() - pos, 0int,
{
    if 0 <= pos < ts.len() && is_multiplicative(ts[pos].kind) {
        let factor = primary_at(ts, pos + 1);
        match factor.result {
            Err(_) => factor,
            Ok(right) => if pos < factor.next <= ts.len() {
                term_rest(ts, factor.next, binary(left, ts[pos], right))
            } else {
                factor
            },
        }
    } else {
        parsed(left, pos)
    }
}

/// `primary` at `pos`: a number, a string, an identifier, or an expression
/// in parentheses.
pub open spec fn primary_at(ts: Seq<TokenView>, pos: int) -> Parsed
    decreases ts.len() - pos, 2int,
{
    if !(0 <= pos < ts.len()) {
        failed_at_the_end(pos)
    } else {
        match ts[pos].kind {
            TokenTypeView::Number(numeral) => parsed(
                ExprView::Literal(LiteralView::Number(numeral)),
                pos + 1,
            ),
            TokenTypeView::Identifier(name) => parsed(ExprView::Variable(name), pos + 1),
            TokenTypeView::String(text) => parsed(
                ExprView::Literal(LiteralView::String(text)),
                pos + 1,
            ),
            TokenTypeView::LeftParen => grouping_at(ts, pos),
            _ => unexpected(ts, pos, "Expected a primary expression, found "@),
        }
    }
}

/// An expression in parentheses, whose `(` is at `pos`.
pub open spec fn grouping_at(ts: Seq<TokenView>, pos: int) -> Parsed
    decreases ts.len() - pos, 1int,
{
    if !(0 <= pos < ts.len()) {
        failed_at_the_end(pos)
    } else {
        let inner = expression_at(ts, pos + 1);
        match inner.result {
            Err(_) => inner,
            Ok(tree) => if !(0 <= inner.next < ts.len()) {
                inner
            } else if ts[inner.next].kind == TokenTypeView::RightParen {
                parsed(ExprView::Grouping(Box::new(tree)), inner.next + 1)
            } else {
                unexpected(ts, inner.next, "Expected ) after parenthesised expression, found "@)
            },
        }
    }
}

/// `statement` at `pos`: an expression, which a terminator or the end of
/// input must follow unless it is the empty expression. The terminator is
/// not consumed: it is the next statement, an empty one.
pub open spec fn statement_at(ts: Seq<TokenView>, pos: int) -> Parsed {
    let expression = expression_at(ts, pos);
    match expression.result {
        Err(_) => expression,
        Ok(ExprView::Empty) => expression,
        Ok(_) => if !(0 <= expression.next < ts.len()) {
            expression
        } else if ends_statement(ts[expression.next].kind) {
            expression
        } else {
            unexpected(ts, expression.next, "Expected ; or newline after expression, found "@)
        },
    }
}

/// The first position from `pos` on that holds a terminator or the end of
/// input.
pub open spec fn synchronised(ts: Seq<TokenView>, pos: int) -> int
    decreases ts.len() - pos,
{
    if 0 <= pos < ts.len() && !ends_statement(ts[pos].kind) {
        synchronised(ts, pos + 1)
    } else {
        pos
    }
}

/// Where parsing goes on after the statement at `pos`: behind it, or, if it
/// is in error, at the next terminator or the end of input.
pub open spec fn resumed(ts: Seq<TokenView>, pos: int) -> int {
    let statement = statement_at(ts, pos);
    match statement.result {
        Ok(_) => statement.next,
        Err(_) => synchronised(ts, statement.next),
    }
}

/// The statements of the program that begins at `pos`: those that parse and
/// are not empty, in order.
pub open spec fn parsed_statements(ts: Seq<TokenView>, pos: int) -> Seq<ExprView>
    decreases ts.len() - pos,
{
    if !(0 <= pos < ts.len()) || ts[pos].kind == TokenTypeView::Eof {
        Seq::empty()
    } else {
        let next = resumed(ts, pos);
        if !(pos < next <= ts.len()) {
            Seq::empty()
        } else {
            match statement_at(ts, pos).result {
                Ok(ExprView::Empty) => parsed_statements(ts, next),
                Ok(tree) => seq![tree] + parsed_statements(ts, next),
                Err(_) => parsed_statements(ts, next),
            }
        }
    }
}

/// The errors of the program that begins at `pos`: one for each statement
/// that does not parse, in order.
pub open spec fn parse_errors(ts: Seq<TokenView>, pos: int) -> Seq<Seq<char>>
    decreases ts.len() - pos,
{
    if !(0 <= pos < ts.len()) || ts[pos].kind == TokenTypeView::Eof {
        Seq::empty()
    } else {
        let next = resumed(ts, pos);
        if !(pos < next <= ts.len()) {
            Seq::empty()
        } else {
            match statement_at(ts, pos).result {
                Ok(_) => parse_errors(ts, next),
                Err(message) => seq![message] + parse_errors(ts, next),
            }
        }
    }
}

/// Where parsing the program that begins at `pos` stops: at the first end of
/// input that no statement before it holds.
pub open spec fn program_end(ts: Seq<TokenView>, pos: int) -> int
    decreases ts.len() - pos,
{
    if !(0 <= pos < ts.len()) || ts[pos].kind == TokenTypeView::Eof {
        pos
    } else {
        let next = resumed(ts, pos);
        if !(pos < next <= ts.len()) {
            pos
        } else {
            program_end(ts, next)
        }
    }
}

/// What parsing the program that begins at `pos` yields: the program, if no
/// statement is in error, and every error otherwise.
pub open spec fn parsed_program(ts: Seq<TokenView>, pos: int) -> Result<ExprView, Seq<Seq<char>>> {
    if parse_errors(ts, pos).len() == 0 {
        Ok(ExprView::Program { statements: parsed_statements(ts, pos) })
    } else {
        Err(parse_errors(ts, pos))
    }
}

/// The trees that the grammar builds: arithmetic on two such trees, such a
/// tree in parentheses, a name, a binding of such a tree, a number, a string,
/// and the empty expression.
pub open spec fn is_built(tree: ExprView) -> bool
    decreases tree,
{
    match tree {
        ExprView::Binary { left, op, right } => {
            &&& is_additive(op.kind) || is_multiplicative(op.kind)
            &&& is_built(*left)
            &&& is_built(*right)
        },
        ExprView::Grouping(inner) => is_built(*inner),
        ExprView::Variable(_) => true,
        ExprView::Binding { name, expr } => is_built(*expr),
        ExprView::Literal(LiteralView::Number(_)) => true,
        ExprView::Literal(LiteralView::String(_)) => true,
        ExprView::Empty => true,
        _ => false,
    }
}

/// Whether `outcome` is one that parsing at `pos` can have: it stops inside
/// the tokens, at `pos` or behind it; if it is a tree, at least one token
/// was consumed, and the tree is one that the grammar builds.
pub open spec fn is_sound(ts: Seq<TokenView>, pos: int, outcome: Parsed) -> bool {
    &&& pos <= outcome.next < ts.len()
    &&& outcome.result matches Ok(tree) ==> pos < outcome.next && is_built(tree)
}

/// Parsing an expression stops inside the tokens; where it yields a tree, it
/// has consumed a token and the tree is one that the grammar builds.
pub proof fn lemma_expression_is_sound(ts: Seq<TokenView>, pos: int)
    requires
        ends_with_eof(ts),
        0 <= pos < ts.len(),
    ensures
        is_sound(ts, pos, expression_at(ts, pos)),
    decreases ts.len() - pos, 6int,
{
    if ts[pos].kind == TokenTypeView::EndStmt {
    } else if pos + 1 < ts.len() && ts[pos + 1].kind == TokenTypeView::Binding {
        lemma_binding_is_sound(ts, pos);
    } else {
        lemma_additive_is_sound(ts, pos);
    }
}

/// As [`lemma_expression_is_sound`], for a binding.
pub proof fn lemma_binding_is_sound(ts: Seq<TokenView>, pos: int)
    requires
        ends_with_eof(ts),
        0 <= pos < ts.len(),
    ensures
        is_sound(ts, pos, binding_at(ts, pos)),
    decreases ts.len() - pos, 5int,
{
    lemma_primary_is_sound(ts, pos);
    let target = primary_at(ts, pos);
    match target.result {
        Ok(ExprView::Variable(name)) => {
            if ts[target.next].kind == TokenTypeView::Binding {
                lemma_expression_is_sound(ts, target.next + 1);
            }
        },
        _ => {},
    }
}

/// As [`lemma_expression_is_sound`], for an additive expression.
pub proof fn lemma_additive_is_sound(ts: Seq<TokenView>, pos: int)
    requires
        ends_with_eof(ts),
        0 <= pos < ts.len(),
    ensures
        is_sound(ts, pos, additive_at(ts, pos)),
    decreases ts.len() - pos, 4int,
{
    lemma_term_is_sound(ts, pos);
    let first = term_at(ts, pos);
    match first.result {
        Ok(left) => {
            lemma_additive_rest_is_sound(ts, first.next, left);
        },
        Err(_) => {},
    }
}

/// As [`lemma_expression_is_sound`], for the rest of an additive expression,
/// which may consume nothing.
pub proof fn lemma_additive_rest_is_sound(ts: Seq<TokenView>, pos: int, left: ExprView)
    requires
        ends_with_eof(ts),
        0 <= pos < ts.len(),
        is_built(left),
    ensures
        pos <= additive_rest(ts, pos, left).next < ts.len(),
        additive_rest(ts, pos, left).result matches Ok(tree) ==> is_built(tree),
    decreases ts.len() - pos, 0int,
{
    if is_additive(ts[pos].kind) {
        lemma_term_is_sound(ts, pos + 1);
        let term = term_at(ts, pos + 1);
        match term.result {
            Ok(right) => {
                lemma_additive_rest_is_sound(ts, term.next, binary(left, ts[pos], right));
            },
            Err(_) => {},
        }
    }
}

/// As [`lemma_expression_is_sound`], for a term.
pub proof fn lemma_term_is_sound(ts: Seq<TokenView>, pos: int)
    requires
        ends_with_eof(ts),
        0 <= pos < ts.len(),
    ensures
        is_sound(ts, pos, term_at(ts, pos)),
    decreases ts.len() - pos, 3int,
{
    lemma_primary_is_sound(ts, pos);
    let first = primary_at(ts, pos);
    match first.result {
        Ok(left) => {
            lemma_term_rest_is_sound(ts, first.next, left);
        },
        Err(_) => {},
    }
}

/// As [`lemma_expression_is_sound`], for the rest of a term, which may
/// consume nothing.
pub proof fn lemma_term_rest_is_sound(ts: Seq<TokenView>, pos: int, left: ExprView)
    requires
        ends_with_eof(ts),
        0 <= pos < ts.len(),
        is_built(left),
    ensures
        pos <= term_rest(ts, pos, left).next < ts.len(),
        term_rest(ts, pos, left).result matches Ok(tree) ==> is_built(tree),
    decreases ts.len() - pos, 0int,
{
    if is_multiplicative(ts[pos].kind) {
        lemma_primary_is_sound(ts, pos + 1);
        let factor = primary_at(ts, pos + 1);
        match factor.result {
            Ok(right) => {
                lemma_term_rest_is_sound(ts, factor.next, binary(left, ts[pos], right));
            },
            Err(_) => {},
        }
    }
}

/// As [`lemma_expression_is_sound`], for a primary expression.
pub proof fn lemma_primary_is_sound(ts: Seq<TokenView>, pos: int)
    requires
        ends_with_eof(ts),
        0 <= pos < ts.len(),
    ensures
        is_sound(ts, pos, primary_at(ts, pos)),
    decreases ts.len() - pos, 2int,
{
    if ts[pos].kind == TokenTypeView::LeftParen {
        lemma_grouping_is_sound(ts, pos);
    }
}

/// As [`lemma_expression_is_sound`], for an expression in parentheses.
pub proof fn lemma_grouping_is_sound(ts: Seq<TokenView>, pos: int)
    requires
        ends_with_eof(ts),
        0 <= pos < ts.len(),
        ts[pos].kind == TokenTypeView::LeftParen,
    ensures
        is_sound(ts, pos, grouping_at(ts, pos)),
    decreases ts.len() - pos, 1int,
{
    lemma_expression_is_sound(ts, pos + 1);
}

/// Parsing a statement stops inside the tokens; where it yields a tree, it
/// has consumed a token and the tree is one that the grammar builds.
pub proof fn lemma_statement_is_sound(ts: Seq<TokenView>, pos: int)
    requires
        ends_with_eof(ts),
        0 <= pos < ts.len(),
    ensures
        is_sound(ts, pos, statement_at(ts, pos)),
{
    lemma_expression_is_sound(ts, pos);
}

/// Synchronising stops at a terminator or at the end of input, inside the
/// tokens.
pub proof fn lemma_synchronised_stops(ts: Seq<TokenView>, pos: int)
    requires
        ends_with_eof(ts),
        0 <= pos < ts.len(),
    ensures
        pos <= synchronised(ts, pos) < ts.len(),
        ends_statement(ts[synchronised(ts, pos)].kind),
    decreases ts.len() - pos,
{
    if !ends_statement(ts[pos].kind) {
        lemma_synchronised_stops(ts, pos + 1);
    }
}

/// After a statement parsing always goes on further along, inside the
/// tokens: every statement, malformed or not, is passed.
pub proof fn lemma_resumed_further(ts: Seq<TokenView>, pos: int)
    requires
        ends_with_eof(ts),
        0 <= pos < ts.len(),
        ts[pos].kind != TokenTypeView::Eof,
    ensures
        pos < resumed(ts, pos) < ts.len(),
{
    lemma_statement_is_sound(ts, pos);
    let statement = statement_at(ts, pos);
    if statement.result is Err {
        lemma_synchronised_stops(ts, statement.next);
        if statement.next == pos {
            lemma_synchronised_stops(ts, pos + 1);
        }
    }
}

/// A malformed statement gives exactly one error, and what follows it is
/// parsed as if parsing began at the next terminator or end of input.
pub proof fn lemma_one_error_per_malformed_statement(ts: Seq<TokenView>, pos: int)
    requires
        ends_with_eof(ts),
        0 <= pos < ts.len(),
        ts[pos].kind != TokenTypeView::Eof,
        statement_at(ts, pos).result is Err,
    ensures
        ({
            let statement = statement_at(ts, pos);
            let next = synchronised(ts, statement.next);
            &&& pos < next < ts.len()
            &&& ends_statement(ts[next].kind)
            &&& parse_errors(ts, pos) == seq![statement.result->Err_0] + parse_errors(ts, next)
            &&& parsed_statements(ts, pos) == parsed_statements(ts, next)
        }),
{
    lemma_resumed_further(ts, pos);
    lemma_statement_is_sound(ts, pos);
    lemma_synchronised_stops(ts, statement_at(ts, pos).next);
}

/// A well-formed statement gives no error: it is the first statement of the
/// program unless it is empty, and parsing goes on behind it.
pub proof fn lemma_well_formed_statement_is_kept(ts: Seq<TokenView>, pos: int)
    requires
        ends_with_eof(ts),
        0 <= pos < ts.len(),
        ts[pos].kind != TokenTypeView::Eof,
        statement_at(ts, pos).result is Ok,
    ensures
        ({
            let statement = statement_at(ts, pos);
            let tree = statement.result->Ok_0;
            &&& pos < statement.next < ts.len()
            &&& parse_errors(ts, pos) == parse_errors(ts, statement.next)
            &&& parsed_statements(ts, pos) == if tree == ExprView::Empty {
                parsed_statements(ts, statement.next)
            } else {
                seq![tree] + parsed_statements(ts, statement.next)
            }
        }),
{
    lemma_resumed_further(ts, pos);
}

/// Terminators alone make no statement and no error: tokens that are
/// terminators up to the end of input parse to the program without
/// statements.
pub proof fn lemma_terminators_parse_to_nothing(ts: Seq<TokenView>, pos: int)
    requires
        ends_with_eof(ts),
        0 <= pos < ts.len(),
        forall|i: int| pos <= i < ts.len() - 1 ==> (#[trigger] ts[i]).kind == TokenTypeView::EndStmt,
    ensures
        parsed_statements(ts, pos) == Seq::<ExprView>::empty(),
        parse_errors(ts, pos) == Seq::<Seq<char>>::empty(),
        parsed_program(ts, pos) == Ok::<ExprView, Seq<Seq<char>>>(
            ExprView::Program { statements: Seq::empty() },
        ),
    decreases ts.len() - pos,
{
    if ts[pos].kind != TokenTypeView::Eof {
        assert(pos < ts.len() - 1);
        assert(ts[pos].kind == TokenTypeView::EndStmt);
        assert(statement_at(ts, pos) == parsed(ExprView::Empty, pos + 1));
        lemma_terminators_parse_to_nothing(ts, pos + 1);
    }
}

/// The statements of a program are trees that the grammar builds, and none
/// of them is the empty expression. So a program holds no function, call,
/// conditional or unary operation, and no operator but the four of
/// arithmetic.
pub proof fn lemma_program_is_built(ts: Seq<TokenView>, pos: int)
    requires
        ends_with_eof(ts),
        0 <= pos < ts.len(),
    ensures
        forall|i: int|
            0 <= i < parsed_statements(ts, pos).len() ==> {
                &&& is_built(#[trigger] parsed_statements(ts, pos)[i])
                &&& parsed_statements(ts, pos)[i] != ExprView::Empty
            },
    decreases ts.len() - pos,
{
    if ts[pos].kind != TokenTypeView::Eof {
        lemma_resumed_further(ts, pos);
        lemma_statement_is_sound(ts, pos);
        let next = resumed(ts, pos);
        lemma_program_is_built(ts, next);
        let rest = parsed_statements(ts, next);
        match statement_at(ts, pos).result {
            Ok(ExprView::Empty) => {},
            Ok(tree) => {
                let all = parsed_statements(ts, pos);
                assert(all =~= seq![tree] + rest);
                assert forall|i: int| 0 <= i < all.len() implies is_built(#[trigger] all[i])
                    && all[i] != ExprView::Empty by {
                    if i > 0 {
                        assert(all[i] == rest[i - 1]);
                    }
                }
            },
            Err(_) => {},
        }
    }
}

} // verus!
