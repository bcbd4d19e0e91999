//! The evaluator: a walk of the tree that threads one environment through.

use std::rc::Rc;
use vstd::prelude::*;
use crate::ast::{Expr, LiteralValue};
use crate::runtime::{Computation, Environment, Operator, RuntimeValue};
use crate::semantics::{evaluated, evaluated_from, operand, operator, Outcome};
use crate::token::TokenType;

verus! {

/// How an evaluation ended.
#[derive(Debug, PartialEq)]
pub enum Evaluation {
    /// With a value.
    Value(RuntimeValue),
    /// With a runtime error.
    Failure(String),
    /// At a node that has no meaning yet.
    Unsupported,
}

impl View for Evaluation {
    type V = Outcome;

    open spec fn view(&self) -> Outcome {
        match self {
            Evaluation::Value(value) => Outcome::Value(value@),
            Evaluation::Failure(message) => Outcome::Failure(message@),
            Evaluation::Unsupported => Outcome::Unsupported,
        }
    }
}

/// A value as an operand of arithmetic.
fn operand_of(value: RuntimeValue) -> (r: Option<Computation>)
    ensures
        match r {
            Some(number) => operand(value@) == Some(number@),
            None => operand(value@).is_none(),
        },
{
    match value {
        RuntimeValue::Number(number) => Some(number),
        RuntimeValue::Boolean(truth) => Some(Computation::Truth(truth)),
        _ => None,
    }
}

/// The operation that a token kind stands for.
fn operator_of(kind: &TokenType) -> (r: Option<Operator>)
    ensures
        r == operator(kind@),
{
    match kind {
        TokenType::Plus => Some(Operator::Add),
        TokenType::Minus => Some(Operator::Subtract),
        TokenType::Star => Some(Operator::Multiply),
        TokenType::Slash => Some(Operator::Divide),
        _ => None,
    }
}

/// Evaluates `expr` in `env`, whatever `expr` holds: where evaluation
/// reaches a node that has no meaning yet, it stops there and says so.
pub fn try_evaluate(expr: &Expr, env: &mut Environment) -> (r: Evaluation)
    requires
        old(env).well_formed(),
    ensures
        final(env).well_formed(),
        r@ == evaluated(expr@, old(env)@).outcome,
        final(env)@ == evaluated(expr@, old(env)@).env,
    decreases expr,
{
    match expr {
        Expr::Program { statements } => {
            let ghost models = expr@->statements;
            let mut result = RuntimeValue::Nil;
            let mut i: usize = 0;
            while i < statements.len()
                invariant
                    i <= statements@.len(),
                    env.well_formed(),
                    decreases_to!(expr => statements),
                    models.len() == statements@.len(),
                    forall|k: int| 0 <= k < statements@.len() ==> models[k] == (
                    #[trigger] statements@[k])@,
                    evaluated(expr@, old(env)@) == evaluated_from(
                        models,
                        i as int,
                        env@,
                        result@,
                    ),
                decreases statements@.len() - i,
            {
                assert(decreases_to!(*statements => statements[i as int]));
                match try_evaluate(&statements[i], env) {
                    Evaluation::Value(value) => {
                        result = value;
                    },
                    stopped => {
                        return stopped;
                    },
                }
                i = i + 1;
            }
            Evaluation::Value(result)
        },
        Expr::Literal(LiteralValue::Number(numeral)) => Evaluation::Value(
            RuntimeValue::Number(Computation::Numeral(numeral.clone())),
        ),
        Expr::Literal(LiteralValue::String(text)) => Evaluation::Value(
            RuntimeValue::String(text.clone()),
        ),
        Expr::Binary { left, op, right } => {
            let left_value = match try_evaluate(&**left, env) {
                Evaluation::Value(value) => value,
                stopped => {
                    return stopped;
                },
            };
            let left_number = match operand_of(left_value) {
                Some(number) => number,
                None => {
                    return Evaluation::Failure(
                        String::from_str("Operands for binary expressions must be numbers"),
                    );
                },
            };
            let right_value = match try_evaluate(&**right, env) {
                Evaluation::Value(value) => value,
                stopped => {
                    return stopped;
                },
            };
            let right_number = match operand_of(right_value) {
                Some(number) => number,
                None => {
                    return Evaluation::Failure(
                        String::from_str("Operands for binary expressions must be numbers"),
                    );
                },
            };
            match operator_of(&op.kind) {
                Some(operation) => Evaluation::Value(
                    RuntimeValue::Number(
                        Computation::Apply {
                            op: operation,
                            left: Rc::new(left_number),
                            right: Rc::new(right_number),
                        },
                    ),
                ),
                None => Evaluation::Unsupported,
            }
        },
        Expr::Grouping(inner) => try_evaluate(&**inner, env),
        Expr::Binding { name, expr: bound_expr } => {
            let value = match try_evaluate(&**bound_expr, env) {
                Evaluation::Value(value) => value,
                stopped => {
                    return stopped;
                },
            };
            match env.bind(name.clone(), value) {
                Ok(_) => Evaluation::Value(RuntimeValue::Nil),
                Err(message) => Evaluation::Failure(message),
            }
        },
        Expr::Variable(name) => match env.resolve(name.as_str()) {
            Some(value) => Evaluation::Value(value.clone()),
            None => {
                let mut message = String::from_str("Name '");
                message.append(name.as_str());
                message.append("' is not defined");
                Evaluation::Failure(message)
            },
        },
        _ => Evaluation::Unsupported,
    }
}

/// Evaluates `expr` in `env`.
///
/// Evaluation must not reach a node that has no meaning yet; see
/// [`try_evaluate`] for trees of which that is not known.
pub fn evaluate(expr: Expr, env: &mut Environment) -> (r: Result<RuntimeValue, String>)
    requires
        old(env).well_formed(),
        evaluated(expr@, old(env)@).outcome != Outcome::Unsupported,
    ensures
        final(env).well_formed(),
        final(env)@ == evaluated(expr@, old(env)@).env,
        match r {
            Ok(value) => evaluated(expr@, old(env)@).outcome == Outcome::Value(value@),
            Err(message) => evaluated(expr@, old(env)@).outcome == Outcome::Failure(message@),
        },
{
    match try_evaluate(&expr, env) {
        Evaluation::Value(value) => Ok(value),
        Evaluation::Failure(message) => Err(message),
        Evaluation::Unsupported => {
            proof {
                assert(false);
            }
            Err(String::new())
        },
    }
}

} // verus!
