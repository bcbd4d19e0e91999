//! One run of a source text: scan, parse, evaluate.

use vstd::prelude::*;
use crate::ast::ExprView;
use crate::eval::{try_evaluate, Evaluation};
use crate::lexical::{
    eof_token, is_blank, is_whitespace, lemma_blank_text_scans_to_eof,
    lemma_whitespace_scans_to_terminators, scan_faults, scanned_tokens,
};
use crate::parser::Parser;
use crate::runtime::{Bindings, Environment, ValueView};
use crate::semantics::{evaluated, evaluated_from, Evaluated, Outcome};
use crate::syntax::{lemma_terminators_parse_to_nothing, parsed_program};
use crate::text::joined;
use crate::token::{Scanner, TokenTypeView};

verus! {

/// What running `src` in `env` yields. Lexical errors end the run before
/// anything is parsed, and syntax errors before anything is evaluated; both
/// are reported together, under a heading.
pub open spec fn interpreted(src: Seq<char>, env: Bindings) -> Evaluated {
    if scan_faults(src, 0).len() > 0 {
        Evaluated {
            outcome: Outcome::Failure("Scanner errors:"@ + "\n"@ + joined(scan_faults(src, 0))),
            env,
        }
    } else {
        match parsed_program(scanned_tokens(src, 0), 0) {
            Err(errors) => Evaluated {
                outcome: Outcome::Failure("Parser errors:"@ + "\n"@ + joined(errors)),
                env,
            },
            Ok(program) => evaluated(program, env),
        }
    }
}

/// Runs `source` in `env`: scans it, parses the tokens and evaluates the
/// program.
pub fn run(source: &str, env: &mut Environment) -> (r: Evaluation)
    requires
        source@.len() < usize::MAX,
        old(env).well_formed(),
    ensures
        final(env).well_formed(),
        r@ == interpreted(source@, old(env)@).outcome,
        final(env)@ == interpreted(source@, old(env)@).env,
{
    let mut scanner = Scanner::new(source);
    let tokens = match scanner.scan() {
        Ok(tokens) => tokens,
        Err(errors) => {
            return Evaluation::Failure(Scanner::report(errors.as_slice()));
        },
    };
    let mut parser = Parser::new(tokens);
    let program = match parser.parse() {
        Ok(program) => program,
        Err(errors) => {
            return Evaluation::Failure(Parser::report(errors.as_slice()));
        },
    };
    try_evaluate(&program, env)
}

/// A source of blanks alone scans to the end-of-input token and nothing
/// else, parses to the program without statements, and evaluates to nil in
/// an environment that it leaves as it was.
pub proof fn lemma_blank_source_is_the_empty_program(src: Seq<char>, env: Bindings)
    requires
        forall|i: int| 0 <= i < src.len() ==> is_blank(#[trigger] src[i]),
    ensures
        scanned_tokens(src, 0) == seq![eof_token(src)],
        scan_faults(src, 0).len() == 0,
        parsed_program(scanned_tokens(src, 0), 0) == Ok::<ExprView, Seq<Seq<char>>>(
            ExprView::Program { statements: Seq::empty() },
        ),
        interpreted(src, env) == (Evaluated { outcome: Outcome::Value(ValueView::Nil), env }),
{
    lemma_blank_text_scans_to_eof(src, 0);
    let nothing = Seq::<ExprView>::empty();
    assert(evaluated_from(nothing, 0, env, ValueView::Nil) == (Evaluated {
        outcome: Outcome::Value(ValueView::Nil),
        env,
    }));
    assert(evaluated(ExprView::Program { statements: nothing }, env) == evaluated_from(
        nothing,
        0,
        env,
        ValueView::Nil,
    ));
}

/// A source of white space alone scans without an error to exactly one
/// end-of-input token, behind one terminator for each line feed; it parses
/// to the program without statements, and evaluates to nil in an
/// environment that it leaves as it was.
pub proof fn lemma_whitespace_source_is_the_empty_program(src: Seq<char>, env: Bindings)
    requires
        forall|i: int| 0 <= i < src.len() ==> is_whitespace(#[trigger] src[i]),
    ensures
        scan_faults(src, 0).len() == 0,
        scanned_tokens(src, 0).len() >= 1,
        scanned_tokens(src, 0).last() == eof_token(src),
        forall|i: int|
            0 <= i < scanned_tokens(src, 0).len() - 1 ==> (#[trigger] scanned_tokens(
                src,
                0,
            )[i]).kind == TokenTypeView::EndStmt,
        parsed_program(scanned_tokens(src, 0), 0) == Ok::<ExprView, Seq<Seq<char>>>(
            ExprView::Program { statements: Seq::empty() },
        ),
        interpreted(src, env) == (Evaluated { outcome: Outcome::Value(ValueView::Nil), env }),
{
    lemma_whitespace_scans_to_terminators(src, 0);
    lemma_terminators_parse_to_nothing(scanned_tokens(src, 0), 0);
    let nothing = Seq::<ExprView>::empty();
    assert(evaluated_from(nothing, 0, env, ValueView::Nil) == (Evaluated {
        outcome: Outcome::Value(ValueView::Nil),
        env,
    }));
    assert(evaluated(ExprView::Program { statements: nothing }, env) == evaluated_from(
        nothing,
        0,
        env,
        ValueView::Nil,
    ));
}

} // verus!
