//! The scalar resolver: reduces one value-list cell's source expression to
//! a concrete scalar, or decides which diagnostic the statement terminates
//! with. Binary-operator expressions were evaluated by the outside
//! evaluator; its verdict travels with the expression and is honoured here.

use vstd::prelude::*;
use vstd::string::StringExecFns;
use crate::diag::Diagnostic;
use crate::diag::SpecDiagnostic;
use crate::expr::CastTarget;
use crate::expr::EvalVerdict;
use crate::expr::Expression;
use crate::expr::Operand;
use crate::expr::SpecCastTarget;
use crate::expr::SpecExpr;
use crate::expr::SpecOperand;
use crate::expr::SpecUnaryOp;
use crate::expr::SpecVerdict;
use crate::expr::UnaryOperator;
use crate::values::negated_number_text;
use crate::values::spec_negated;
use crate::values::ScalarValue;
use crate::values::SpecScalar;

verus! {

/// What resolving one cell yields: a concrete scalar, a terminal
/// diagnostic, or silence because the outside evaluator already reported
/// its own failure to the client.
#[derive(Debug, PartialEq)]
pub enum Resolution {
    Value(ScalarValue),
    Error(Diagnostic),
    AlreadyReported,
}

/// Mathematical model of a [`Resolution`].
pub enum SpecResolution {
    Value(SpecScalar),
    Error(SpecDiagnostic),
    AlreadyReported,
}

impl View for Resolution {
    type V = SpecResolution;

    open spec fn view(&self) -> SpecResolution {
        match self {
            Resolution::Value(v) => SpecResolution::Value(v@),
            Resolution::Error(d) => SpecResolution::Error(d@),
            Resolution::AlreadyReported => SpecResolution::AlreadyReported,
        }
    }
}

/// The resolver's decision on one cell expression:
/// - a literal is itself;
/// - a cast to boolean of a boolean literal, or of a string literal that
///   reads `true` or `false`, is that boolean; every other cast is
///   unsupported;
/// - unary minus over a numeric literal negates its text; every other
///   unary application is malformed;
/// - a binary expression is whatever the outside evaluator said, and its
///   failure was already reported;
/// - any other shape is unsupported, echoed as its source text.
pub open spec fn spec_resolve(e: SpecExpr) -> SpecResolution {
    match e {
        SpecExpr::Literal(v) => SpecResolution::Value(v),
        SpecExpr::Cast { operand, target } => match (operand, target) {
            (SpecOperand::Literal(SpecScalar::Bool(b)), SpecCastTarget::Boolean) =>
                SpecResolution::Value(SpecScalar::Bool(b)),
            (SpecOperand::Literal(SpecScalar::Text(s)), SpecCastTarget::Boolean) => {
                if s == seq!['t', 'r', 'u', 'e'] {
                    SpecResolution::Value(SpecScalar::Bool(true))
                } else if s == seq!['f', 'a', 'l', 's', 'e'] {
                    SpecResolution::Value(SpecScalar::Bool(false))
                } else {
                    SpecResolution::Error(
                        SpecDiagnostic::UnsupportedCast { operand, target },
                    )
                }
            },
            _ => SpecResolution::Error(SpecDiagnostic::UnsupportedCast { operand, target }),
        },
        SpecExpr::Unary { op, operand } => match (op, operand) {
            (SpecUnaryOp::Minus, SpecOperand::Literal(SpecScalar::Number(n))) =>
                SpecResolution::Value(SpecScalar::Number(spec_negated(n))),
            _ => SpecResolution::Error(SpecDiagnostic::MalformedUnary { op, operand }),
        },
        SpecExpr::Binary(SpecVerdict::Value(v)) => SpecResolution::Value(v),
        SpecExpr::Binary(SpecVerdict::Failed) => SpecResolution::AlreadyReported,
        SpecExpr::Unsupported(t) => SpecResolution::Error(
            SpecDiagnostic::UnsupportedExpression(t),
        ),
    }
}

/// Resolves one cell expression to a concrete scalar or a terminal
/// decision (see [`spec_resolve`]).
pub fn resolve_expression(e: &Expression) -> (r: Resolution)
    ensures
        r@ == spec_resolve(e@),
{
    match e {
        Expression::Literal(v) => Resolution::Value(v.dup()),
        Expression::Cast { operand, target } => match (operand, target) {
            (Operand::Literal(ScalarValue::Bool(b)), CastTarget::Boolean) => Resolution::Value(
                ScalarValue::Bool(*b),
            ),
            (Operand::Literal(ScalarValue::Text(s)), CastTarget::Boolean) => {
                let t = String::from_str("true");
                let f = String::from_str("false");
                proof {
                    reveal_strlit("true");
                    reveal_strlit("false");
                    assert(t@ =~= seq!['t', 'r', 'u', 'e']);
                    assert(f@ =~= seq!['f', 'a', 'l', 's', 'e']);
                }
                if *s == t {
                    Resolution::Value(ScalarValue::Bool(true))
                } else if *s == f {
                    Resolution::Value(ScalarValue::Bool(false))
                } else {
                    Resolution::Error(
                        Diagnostic::UnsupportedCast {
                            operand: operand.dup(),
                            target: target.dup(),
                        },
                    )
                }
            },
            _ => Resolution::Error(
                Diagnostic::UnsupportedCast { operand: operand.dup(), target: target.dup() },
            ),
        },
        Expression::Unary { op, operand } => match (op, operand) {
            (UnaryOperator::Minus, Operand::Literal(ScalarValue::Number(n))) => {
                Resolution::Value(ScalarValue::Number(negated_number_text(n)))
            },
            _ => Resolution::Error(
                Diagnostic::MalformedUnary { op: op.dup(), operand: operand.dup() },
            ),
        },
        Expression::Binary(EvalVerdict::Value(v)) => Resolution::Value(v.dup()),
        Expression::Binary(EvalVerdict::Failed) => Resolution::AlreadyReported,
        Expression::Unsupported(t) => Resolution::Error(
            Diagnostic::UnsupportedExpression(t.clone()),
        ),
    }
}

} // verus!
