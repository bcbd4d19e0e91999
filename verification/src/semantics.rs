//! What evaluating a tree yields, stated over the models of trees, values
//! and environments.

use vstd::prelude::*;
use crate::ast::{ExprView, LiteralView};
use crate::runtime::{
    bound, is_protected, protected_message, Bindings, ComputationView, Operator, ValueView,
};
use crate::token::TokenTypeView;

verus! {

/// How an evaluation ends.
pub enum Outcome {
    /// With a value.
    Value(ValueView),
    /// With a runtime error, at which evaluation stopped.
    Failure(Seq<char>),
    /// At a node that has no meaning yet: a function, a call, a
    /// conditional, a unary operation, an empty expression, a literal that
    /// is neither a number nor a string, or a binary operation whose
    /// operator is not arithmetic.
    Unsupported,
}

/// How an evaluation ends, and the environment it leaves.
pub struct Evaluated {
    pub outcome: Outcome,
    pub env: Bindings,
}

/// The message for a name that is not bound.
pub open spec fn undefined_message(name: Seq<char>) -> Seq<char> {
    "Name '"@ + name + "' is not defined"@
}

/// The message for an operand that is neither a number nor a truth value.
pub open spec fn operand_message() -> Seq<char> {
    "Operands for binary expressions must be numbers"@
}

/// A value as an operand of arithmetic: a number is itself, a truth value
/// is taken as a number, nothing else is an operand.
pub open spec fn operand(value: ValueView) -> Option<ComputationView> {
    match value {
        ValueView::Number(number) => Some(number),
        ValueView::Boolean(truth) => Some(ComputationView::Truth(truth)),
        _ => None,
    }
}

/// The operation that a token kind stands for.
pub open spec fn operator(kind: TokenTypeView) -> Option<Operator> {
    match kind {
        TokenTypeView::Plus => Some(Operator::Add),
        TokenTypeView::Minus => Some(Operator::Subtract),
        TokenTypeView::Star => Some(Operator::Multiply),
        TokenTypeView::Slash => Some(Operator::Divide),
        _ => None,
    }
}

/// The number that `op` makes of `left` and `right`.
pub open spec fn applied(op: Operator, left: ComputationView, right: ComputationView) -> ValueView {
    ValueView::Number(ComputationView::Apply { op, left: Box::new(left), right: Box::new(right) })
}

/// What evaluating `expr` in `env` yields.
///
/// A program evaluates its statements in order, each in the environment
/// that the one before left, and yields what the last one yields, or nil if
/// there is none. A binary operation evaluates the left operand, then the
/// right one. A binding evaluates its expression, binds the name and yields
/// nil. The first error ends the evaluation.
pub open spec fn evaluated(expr: ExprView, env: Bindings) -> Evaluated
    decreases expr, 0int,
{
    match expr {
        ExprView::Program { statements } => evaluated_from(statements, 0, env, ValueView::Nil),
        ExprView::Literal(LiteralView::Number(numeral)) => Evaluated {
            outcome: Outcome::Value(ValueView::Number(ComputationView::Numeral(numeral))),
            env,
        },
        ExprView::Literal(LiteralView::String(text)) => Evaluated {
            outcome: Outcome::Value(ValueView::String(text)),
            env,
        },
        ExprView::Binary { left, op, right } => {
            let first = evaluated(*left, env);
            match first.outcome {
                Outcome::Value(left_value) => match operand(left_value) {
                    None => Evaluated {
                        outcome: Outcome::Failure(operand_message()),
                        env: first.env,
                    },
                    Some(left_number) => {
                        let second = evaluated(*right, first.env);
                        match second.outcome {
                            Outcome::Value(right_value) => match operand(right_value) {
                                None => Evaluated {
                                    outcome: Outcome::Failure(operand_message()),
                                    env: second.env,
                                },
                                Some(right_number) => match operator(op.kind) {
                                    Some(operation) => Evaluated {
                                        outcome: Outcome::Value(
                                            applied(operation, left_number, right_number),
                                        ),
                                        env: second.env,
                                    },
                                    None => Evaluated {
                                        outcome: Outcome::Unsupported,
                                        env: second.env,
                                    },
                                },
                            },
                            _ => second,
                        }
                    },
                },
                _ => first,
            }
        },
        ExprView::Grouping(inner) => evaluated(*inner, env),
        ExprView::Binding { name, expr } => {
            let value = evaluated(*expr, env);
            match value.outcome {
                Outcome::Value(v) => Evaluated {
                    outcome: if is_protected(value.env, name) {
                        Outcome::Failure(protected_message(name))
                    } else {
                        Outcome::Value(ValueView::Nil)
                    },
                    env: bound(value.env, name, v),
                },
                _ => value,
            }
        },
        ExprView::Variable(name) => Evaluated {
            outcome: if env.contains_key(name) {
                Outcome::Value(env[name].value)
            } else {
                Outcome::Failure(undefined_message(name))
            },
            env,
        },
        _ => Evaluated { outcome: Outcome::Unsupported, env },
    }
}

/// What evaluating the statements from the `i`-th on yields, where `last`
/// is what the statement before them yielded.
pub open spec fn evaluated_from(
    statements: Seq<ExprView>,
    i: int,
    env: Bindings,
    last: ValueView,
) -> Evaluated
    decreases statements, statements.len() - i,
{
    if !(0 <= i < statements.len()) {
        Evaluated { outcome: Outcome::Value(last), env }
    } else {
        let first = evaluated(statements[i], env);
        match first.outcome {
            Outcome::Value(value) => evaluated_from(statements, i + 1, first.env, value),
            _ => first,
        }
    }
}

/// The trees all of whose nodes have a meaning: programs, arithmetic,
/// parentheses, names, bindings, numbers and strings.
pub open spec fn has_meaning(expr: ExprView) -> bool
    decreases expr,
{
    match expr {
        ExprView::Program { statements } => forall|i: int|
            0 <= i < statements.len() ==> has_meaning(#[trigger] statements[i]),
        ExprView::Binary { left, op, right } => {
            &&& operator(op.kind).is_some()
            &&& has_meaning(*left)
            &&& has_meaning(*right)
        },
        ExprView::Grouping(inner) => has_meaning(*inner),
        ExprView::Variable(_) => true,
        ExprView::Binding { name, expr } => has_meaning(*expr),
        ExprView::Literal(LiteralView::Number(_)) => true,
        ExprView::Literal(LiteralView::String(_)) => true,
        _ => false,
    }
}

/// A tree all of whose nodes have a meaning evaluates to a value or to a
/// runtime error, in every environment.
pub proof fn lemma_meaningful_trees_evaluate(expr: ExprView, env: Bindings)
    requires
        has_meaning(expr),
    ensures
        evaluated(expr, env).outcome != Outcome::Unsupported,
    decreases expr, 0int,
{
    match expr {
        ExprView::Program { statements } => {
            lemma_meaningful_statements_evaluate(statements, 0, env, ValueView::Nil);
        },
        ExprView::Binary { left, op, right } => {
            lemma_meaningful_trees_evaluate(*left, env);
            lemma_meaningful_trees_evaluate(*right, evaluated(*left, env).env);
        },
        ExprView::Grouping(inner) => {
            lemma_meaningful_trees_evaluate(*inner, env);
        },
        ExprView::Binding { name, expr: inner } => {
            lemma_meaningful_trees_evaluate(*inner, env);
        },
        _ => {},
    }
}

/// As [`lemma_meaningful_trees_evaluate`], for the statements of a program.
pub proof fn lemma_meaningful_statements_evaluate(
    statements: Seq<ExprView>,
    i: int,
    env: Bindings,
    last: ValueView,
)
    requires
        forall|k: int| 0 <= k < statements.len() ==> has_meaning(#[trigger] statements[k]),
    ensures
        evaluated_from(statements, i, env, last).outcome != Outcome::Unsupported,
    decreases statements, statements.len() - i,
{
    if 0 <= i < statements.len() {
        lemma_meaningful_trees_evaluate(statements[i], env);
        let first = evaluated(statements[i], env);
        match first.outcome {
            Outcome::Value(value) => {
                lemma_meaningful_statements_evaluate(statements, i + 1, first.env, value);
            },
            _ => {},
        }
    }
}

/// Evaluating a name that is not bound fails with the error that names it,
/// and leaves the environment as it was.
pub proof fn lemma_unbound_name_fails(name: Seq<char>, env: Bindings)
    requires
        !env.contains_key(name),
    ensures
        evaluated(ExprView::Variable(name), env) == (Evaluated {
            outcome: Outcome::Failure(undefined_message(name)),
            env,
        }),
{
}

/// After a binding of a name that is no constant, the name evaluates to the
/// value that was bound, and the binding itself evaluates to nil.
pub proof fn lemma_bound_name_yields_its_value(
    name: Seq<char>,
    expr: ExprView,
    env: Bindings,
    value: ValueView,
)
    requires
        evaluated(expr, env).outcome == Outcome::Value(value),
        !is_protected(evaluated(expr, env).env, name),
    ensures
        ({
            let binding = evaluated(ExprView::Binding { name, expr: Box::new(expr) }, env);
            &&& binding.outcome == Outcome::Value(ValueView::Nil)
            &&& evaluated(ExprView::Variable(name), binding.env) == (Evaluated {
                outcome: Outcome::Value(value),
                env: binding.env,
            })
        }),
{
}

/// A binding of a constant fails with the error that names it, and leaves
/// the environment as the evaluation of its expression left it.
pub proof fn lemma_binding_a_constant_fails(
    name: Seq<char>,
    expr: ExprView,
    env: Bindings,
    value: ValueView,
)
    requires
        evaluated(expr, env).outcome == Outcome::Value(value),
        is_protected(evaluated(expr, env).env, name),
    ensures
        evaluated(ExprView::Binding { name, expr: Box::new(expr) }, env) == (Evaluated {
            outcome: Outcome::Failure(protected_message(name)),
            env: evaluated(expr, env).env,
        }),
{
}

/// No evaluation changes a constant: whatever is evaluated, a name that was
/// a constant before is one after, with the same value.
pub proof fn lemma_evaluation_keeps_constants(expr: ExprView, env: Bindings, name: Seq<char>)
    requires
        is_protected(env, name),
    ensures
        is_protected(evaluated(expr, env).env, name),
        evaluated(expr, env).env[name] == env[name],
    decreases expr, 0int,
{
    match expr {
        ExprView::Program { statements } => {
            lemma_statements_keep_constants(statements, 0, env, ValueView::Nil, name);
        },
        ExprView::Binary { left, op, right } => {
            lemma_evaluation_keeps_constants(*left, env, name);
            lemma_evaluation_keeps_constants(*right, evaluated(*left, env).env, name);
        },
        ExprView::Grouping(inner) => {
            lemma_evaluation_keeps_constants(*inner, env, name);
        },
        ExprView::Binding { name: bound_name, expr: inner } => {
            lemma_evaluation_keeps_constants(*inner, env, name);
        },
        _ => {},
    }
}

/// No sequence of statements changes a constant.
pub proof fn lemma_statements_keep_constants(
    statements: Seq<ExprView>,
    i: int,
    env: Bindings,
    last: ValueView,
    name: Seq<char>,
)
    requires
        is_protected(env, name),
    ensures
        is_protected(evaluated_from(statements, i, env, last).env, name),
        evaluated_from(statements, i, env, last).env[name] == env[name],
    decreases statements, statements.len() - i,
{
    if 0 <= i < statements.len() {
        lemma_evaluation_keeps_constants(statements[i], env, name);
        let first = evaluated(statements[i], env);
        match first.outcome {
            Outcome::Value(value) => {
                lemma_statements_keep_constants(statements, i + 1, first.env, value, name);
            },
            _ => {},
        }
    }
}

} // verus!
