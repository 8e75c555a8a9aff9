//! The diagnostics an insert statement can terminate with. A statement has
//! exactly zero or one diagnostic; constraint violations and unresolved
//! column names are aggregated before the one diagnostic is built.

use vstd::prelude::*;
use crate::expr::CastTarget;
use crate::expr::Operand;
use crate::expr::SpecCastTarget;
use crate::expr::SpecOperand;
use crate::expr::SpecUnaryOp;
use crate::expr::UnaryOperator;
use crate::types::ColumnDefinition;
use crate::types::ConstraintError;
use crate::types::SpecColumn;
use crate::types::SpecConstraintError;

verus! {

/// One constraint violation, with the offending column and the 1-based row
/// number of the offending row (SQL convention: the first inserted row is
/// row 1).
#[derive(Debug, PartialEq, Clone)]
pub struct Violation {
    pub error: ConstraintError,
    pub column: ColumnDefinition,
    pub row: usize,
}

/// Mathematical model of a [`Violation`].
pub struct SpecViolation {
    pub error: SpecConstraintError,
    pub column: SpecColumn,
    pub row: int,
}

impl View for Violation {
    type V = SpecViolation;

    open spec fn view(&self) -> SpecViolation {
        SpecViolation { error: self.error@, column: self.column@, row: self.row as int }
    }
}

impl DeepView for Violation {
    type V = SpecViolation;

    open spec fn deep_view(&self) -> SpecViolation {
        self.view()
    }
}

/// The terminal diagnostic of a failed insert statement.
#[derive(Debug, PartialEq, Clone)]
pub enum Diagnostic {
    /// A cast the engine does not support, naming the source operand and
    /// the target type.
    UnsupportedCast { operand: Operand, target: CastTarget },
    /// A unary operator over an operand it cannot apply to, echoing both.
    MalformedUnary { op: UnaryOperator, operand: Operand },
    /// An expression shape the engine does not support, echoing its text.
    UnsupportedExpression(String),
    /// A statement body other than a literal value list, echoing the raw
    /// statement text.
    UnsupportedStatement(String),
    /// The target schema does not exist.
    SchemaNotFound(String),
    /// The target table does not exist in its schema.
    TableNotFound { schema: String, table: String },
    /// Explicitly listed column names that the table does not have.
    ColumnNotFound(Vec<String>),
    /// A value-list line wider than the table.
    TooManyExpressions,
    /// Every constraint violation of one rejected row.
    ConstraintViolations(Vec<Violation>),
}

/// Mathematical model of a [`Diagnostic`].
pub enum SpecDiagnostic {
    UnsupportedCast { operand: SpecOperand, target: SpecCastTarget },
    MalformedUnary { op: SpecUnaryOp, operand: SpecOperand },
    UnsupportedExpression(Seq<char>),
    UnsupportedStatement(Seq<char>),
    SchemaNotFound(Seq<char>),
    TableNotFound { schema: Seq<char>, table: Seq<char> },
    ColumnNotFound(Seq<Seq<char>>),
    TooManyExpressions,
    ConstraintViolations(Seq<SpecViolation>),
}

impl View for Diagnostic {
    type V = SpecDiagnostic;

    open spec fn view(&self) -> SpecDiagnostic {
        match self {
            Diagnostic::UnsupportedCast { operand, target } => SpecDiagnostic::UnsupportedCast {
                operand: operand@,
                target: target@,
            },
            Diagnostic::MalformedUnary { op, operand } => SpecDiagnostic::MalformedUnary {
                op: op@,
                operand: operand@,
            },
            Diagnostic::UnsupportedExpression(s) => SpecDiagnostic::UnsupportedExpression(s@),
            Diagnostic::UnsupportedStatement(s) => SpecDiagnostic::UnsupportedStatement(s@),
            Diagnostic::SchemaNotFound(s) => SpecDiagnostic::SchemaNotFound(s@),
            Diagnostic::TableNotFound { schema, table } => SpecDiagnostic::TableNotFound {
                schema: schema@,
                table: table@,
            },
            Diagnostic::ColumnNotFound(names) => SpecDiagnostic::ColumnNotFound(
                names.deep_view(),
            ),
            Diagnostic::TooManyExpressions => SpecDiagnostic::TooManyExpressions,
            Diagnostic::ConstraintViolations(vs) => SpecDiagnostic::ConstraintViolations(
                vs.deep_view(),
            ),
        }
    }
}

impl DeepView for Diagnostic {
    type V = SpecDiagnostic;

    open spec fn deep_view(&self) -> SpecDiagnostic {
        self.view()
    }
}

} // verus!
