//! The closed shape of a value-list cell's source expression, as the
//! surrounding engine's parser delivers it: a literal, a cast, a unary
//! operator over an operand, a binary-operator expression (evaluated by an
//! outside collaborator), or anything else, carried as its source text.

use vstd::prelude::*;
use crate::values::ScalarValue;
use crate::values::SpecScalar;

verus! {

/// A unary operator as written in the statement. Operators the engine does
/// not know by name are carried as their source text.
#[derive(Debug, PartialEq, Clone)]
pub enum UnaryOperator {
    Minus,
    Plus,
    Not,
    Other(String),
}

/// Mathematical model of a [`UnaryOperator`].
pub enum SpecUnaryOp {
    Minus,
    Plus,
    Not,
    Other(Seq<char>),
}

impl View for UnaryOperator {
    type V = SpecUnaryOp;

    open spec fn view(&self) -> SpecUnaryOp {
        match self {
            UnaryOperator::Minus => SpecUnaryOp::Minus,
            UnaryOperator::Plus => SpecUnaryOp::Plus,
            UnaryOperator::Not => SpecUnaryOp::Not,
            UnaryOperator::Other(s) => SpecUnaryOp::Other(s@),
        }
    }
}

impl UnaryOperator {
    /// An owned copy whose model equals the original's.
    pub fn dup(&self) -> (r: UnaryOperator)
        ensures
            r@ == self@,
    {
        match self {
            UnaryOperator::Minus => UnaryOperator::Minus,
            UnaryOperator::Plus => UnaryOperator::Plus,
            UnaryOperator::Not => UnaryOperator::Not,
            UnaryOperator::Other(s) => UnaryOperator::Other(s.clone()),
        }
    }
}

/// The target type named in a cast. Only a cast to boolean is ever
/// honoured; any other target is carried by name for the diagnostic.
#[derive(Debug, PartialEq, Clone)]
pub enum CastTarget {
    Boolean,
    Other(String),
}

/// Mathematical model of a [`CastTarget`].
pub enum SpecCastTarget {
    Boolean,
    Other(Seq<char>),
}

impl View for CastTarget {
    type V = SpecCastTarget;

    open spec fn view(&self) -> SpecCastTarget {
        match self {
            CastTarget::Boolean => SpecCastTarget::Boolean,
            CastTarget::Other(s) => SpecCastTarget::Other(s@),
        }
    }
}

impl CastTarget {
    /// An owned copy whose model equals the original's.
    pub fn dup(&self) -> (r: CastTarget)
        ensures
            r@ == self@,
    {
        match self {
            CastTarget::Boolean => CastTarget::Boolean,
            CastTarget::Other(s) => CastTarget::Other(s.clone()),
        }
    }
}

/// The operand under a cast or a unary operator: a literal scalar, or any
/// composite expression, carried as its source text since the engine never
/// evaluates it there.
#[derive(Debug, PartialEq, Clone)]
pub enum Operand {
    Literal(ScalarValue),
    Composite(String),
}

/// Mathematical model of an [`Operand`].
pub enum SpecOperand {
    Literal(SpecScalar),
    Composite(Seq<char>),
}

impl View for Operand {
    type V = SpecOperand;

    open spec fn view(&self) -> SpecOperand {
        match self {
            Operand::Literal(v) => SpecOperand::Literal(v@),
            Operand::Composite(s) => SpecOperand::Composite(s@),
        }
    }
}

impl Operand {
    /// An owned copy whose model equals the original's.
    pub fn dup(&self) -> (r: Operand)
        ensures
            r@ == self@,
    {
        match self {
            Operand::Literal(v) => Operand::Literal(v.dup()),
            Operand::Composite(s) => Operand::Composite(s.clone()),
        }
    }
}

/// The outside expression evaluator's verdict on a binary-operator
/// expression, recorded where the statement is brought in. A failed verdict
/// means the evaluator has already reported its own error to the client.
#[derive(Debug, PartialEq, Clone)]
pub enum EvalVerdict {
    Value(ScalarValue),
    Failed,
}

/// Mathematical model of an [`EvalVerdict`].
pub enum SpecVerdict {
    Value(SpecScalar),
    Failed,
}

impl View for EvalVerdict {
    type V = SpecVerdict;

    open spec fn view(&self) -> SpecVerdict {
        match self {
            EvalVerdict::Value(v) => SpecVerdict::Value(v@),
            EvalVerdict::Failed => SpecVerdict::Failed,
        }
    }
}

/// One cell of a value list, in the closed tagged shape the resolver
/// understands.
#[derive(Debug, PartialEq, Clone)]
pub enum Expression {
    Literal(ScalarValue),
    Cast { operand: Operand, target: CastTarget },
    Unary { op: UnaryOperator, operand: Operand },
    Binary(EvalVerdict),
    Unsupported(String),
}

/// Mathematical model of an [`Expression`].
pub enum SpecExpr {
    Literal(SpecScalar),
    Cast { operand: SpecOperand, target: SpecCastTarget },
    Unary { op: SpecUnaryOp, operand: SpecOperand },
    Binary(SpecVerdict),
    Unsupported(Seq<char>),
}

impl View for Expression {
    type V = SpecExpr;

    open spec fn view(&self) -> SpecExpr {
        match self {
            Expression::Literal(v) => SpecExpr::Literal(v@),
            Expression::Cast { operand, target } => SpecExpr::Cast {
                operand: operand@,
                target: target@,
            },
            Expression::Unary { op, operand } => SpecExpr::Unary {
                op: op@,
                operand: operand@,
            },
            Expression::Binary(v) => SpecExpr::Binary(v@),
            Expression::Unsupported(s) => SpecExpr::Unsupported(s@),
        }
    }
}

impl DeepView for Expression {
    type V = SpecExpr;

    open spec fn deep_view(&self) -> SpecExpr {
        self.view()
    }
}

} // verus!
