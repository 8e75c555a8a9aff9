use sql_engine::codec::{encode_rows, pack_row, u64_to_be_bytes, unpack_row};
use sql_engine::diag::Diagnostic;
use sql_engine::expr::{CastTarget, EvalVerdict, Expression, Operand, UnaryOperator};
use sql_engine::plan::{
    plan_insert, CatalogSnapshot, InsertBody, InsertPlan, InsertStatement,
};
use sql_engine::resolve::{resolve_expression, Resolution};
use sql_engine::types::{ColumnDefinition, ConstraintError, SqlType};
use sql_engine::values::{negated_number_text, ScalarValue};

fn col(name: &str, ty: SqlType) -> ColumnDefinition {
    ColumnDefinition::new(String::from(name), ty)
}

fn catalog_abc() -> CatalogSnapshot {
    CatalogSnapshot {
        schema_exists: true,
        table_exists: true,
        columns: vec![
            col("a", SqlType::Integer),
            col("b", SqlType::VarChar(100)),
            col("c", SqlType::Bool),
        ],
    }
}

fn num(s: &str) -> Expression {
    Expression::Literal(ScalarValue::Number(String::from(s)))
}

fn text(s: &str) -> Expression {
    Expression::Literal(ScalarValue::Text(String::from(s)))
}

fn stmt(columns: Vec<&str>, lines: Vec<Vec<Expression>>) -> InsertStatement {
    InsertStatement {
        schema_name: String::from("public"),
        table_name: String::from("t"),
        column_names: columns.into_iter().map(String::from).collect(),
        body: InsertBody::Values(lines),
    }
}

#[test]
fn scenario_explicit_columns_with_null_padding() {
    let s = stmt(vec!["a", "b"], vec![vec![num("1"), text("x")]]);
    let plan = plan_insert(&s, &catalog_abc());
    match plan {
        InsertPlan::Rows(rows) => {
            assert_eq!(rows.len(), 1);
            assert_eq!(
                rows[0],
                vec![
                    Some(ScalarValue::Number(String::from("1"))),
                    Some(ScalarValue::Text(String::from("x"))),
                    None,
                ]
            );
            let records = encode_rows(&rows, &vec![0u64]);
            assert_eq!(records.len(), 1);
            assert_eq!(records[0].key, vec![0u8; 8]);
            let decoded = unpack_row(&records[0].value).expect("a packed row decodes");
            assert_eq!(decoded, rows[0]);
        }
        other => panic!("expected rows, got {:?}", other),
    }
}

#[test]
fn scenario_too_many_expressions() {
    let s = stmt(vec![], vec![vec![num("1"), num("2"), num("3"), num("4")]]);
    let plan = plan_insert(&s, &catalog_abc());
    assert_eq!(plan, InsertPlan::Failure(Diagnostic::TooManyExpressions));
}

#[test]
fn too_many_expressions_even_after_valid_lines() {
    let s = stmt(
        vec![],
        vec![
            vec![num("1"), text("ok"), Expression::Literal(ScalarValue::Bool(true))],
            vec![num("1"), num("2"), num("3"), num("4")],
        ],
    );
    let plan = plan_insert(&s, &catalog_abc());
    assert_eq!(plan, InsertPlan::Failure(Diagnostic::TooManyExpressions));
}

#[test]
fn scenario_out_of_range() {
    let catalog = CatalogSnapshot {
        schema_exists: true,
        table_exists: true,
        columns: vec![col("a", SqlType::SmallInt)],
    };
    let s = stmt(vec!["a"], vec![vec![num("99999999999999")]]);
    match plan_insert(&s, &catalog) {
        InsertPlan::Failure(Diagnostic::ConstraintViolations(vs)) => {
            assert_eq!(vs.len(), 1);
            assert_eq!(vs[0].error, ConstraintError::OutOfRange);
            assert_eq!(vs[0].column.name, "a");
            assert_eq!(vs[0].row, 1);
        }
        other => panic!("expected a constraint diagnostic, got {:?}", other),
    }
}

#[test]
fn scenario_column_not_found() {
    let s = stmt(vec!["a", "z"], vec![vec![num("1"), num("2")]]);
    match plan_insert(&s, &catalog_abc()) {
        InsertPlan::Failure(Diagnostic::ColumnNotFound(names)) => {
            assert_eq!(names, vec![String::from("z")]);
        }
        other => panic!("expected a column diagnostic, got {:?}", other),
    }
}

#[test]
fn missing_schema_is_terminal() {
    let catalog = CatalogSnapshot {
        schema_exists: false,
        table_exists: false,
        columns: vec![],
    };
    let s = stmt(vec![], vec![vec![num("1")]]);
    assert_eq!(
        plan_insert(&s, &catalog),
        InsertPlan::Failure(Diagnostic::SchemaNotFound(String::from("public")))
    );
}

#[test]
fn missing_table_is_terminal() {
    let catalog = CatalogSnapshot {
        schema_exists: true,
        table_exists: false,
        columns: vec![],
    };
    let s = stmt(vec![], vec![vec![num("1")]]);
    assert_eq!(
        plan_insert(&s, &catalog),
        InsertPlan::Failure(Diagnostic::TableNotFound {
            schema: String::from("public"),
            table: String::from("t"),
        })
    );
}

#[test]
fn all_unresolved_names_are_enumerated() {
    let s = stmt(vec!["x", "a", "y"], vec![vec![num("1"), num("2"), num("3")]]);
    match plan_insert(&s, &catalog_abc()) {
        InsertPlan::Failure(Diagnostic::ColumnNotFound(names)) => {
            assert_eq!(names, vec![String::from("x"), String::from("y")]);
        }
        other => panic!("expected a column diagnostic, got {:?}", other),
    }
}

#[test]
fn repeated_unresolved_name_is_listed_once() {
    let s = stmt(vec!["z", "a", "z"], vec![vec![num("1"), num("2"), num("3")]]);
    match plan_insert(&s, &catalog_abc()) {
        InsertPlan::Failure(Diagnostic::ColumnNotFound(names)) => {
            assert_eq!(names, vec![String::from("z")]);
        }
        other => panic!("expected a column diagnostic, got {:?}", other),
    }
}

#[test]
fn violations_are_aggregated_per_row() {
    let catalog = CatalogSnapshot {
        schema_exists: true,
        table_exists: true,
        columns: vec![col("a", SqlType::SmallInt), col("b", SqlType::VarChar(2))],
    };
    let s = stmt(
        vec![],
        vec![
            vec![num("5"), text("ok")],
            vec![num("40000"), text("far too long")],
        ],
    );
    match plan_insert(&s, &catalog) {
        InsertPlan::Failure(Diagnostic::ConstraintViolations(vs)) => {
            assert_eq!(vs.len(), 2);
            assert_eq!(vs[0].error, ConstraintError::OutOfRange);
            assert_eq!(vs[0].column.name, "a");
            assert_eq!(vs[0].row, 2);
            assert_eq!(vs[1].error, ConstraintError::ValueTooLong(2));
            assert_eq!(vs[1].column.name, "b");
            assert_eq!(vs[1].row, 2);
        }
        other => panic!("expected a constraint diagnostic, got {:?}", other),
    }
}

#[test]
fn record_round_trip_covers_every_cell_shape() {
    let row = vec![
        None,
        Some(ScalarValue::Bool(true)),
        Some(ScalarValue::Bool(false)),
        Some(ScalarValue::Number(String::from("-12345678901234567890"))),
        Some(ScalarValue::Text(String::from("héllo, wörld — ζω"))),
        Some(ScalarValue::Text(String::from(""))),
    ];
    let bytes = pack_row(&row);
    assert_eq!(unpack_row(&bytes), Some(row));
}

#[test]
fn unpack_rejects_garbage() {
    assert_eq!(unpack_row(&vec![]), None);
    assert_eq!(unpack_row(&vec![0u8; 7]), None);
    // one cell announced, unknown tag
    let mut bytes = u64_to_be_bytes(1);
    bytes.push(9u8);
    assert_eq!(unpack_row(&bytes), None);
    // trailing bytes after the announced cells
    let mut bytes = u64_to_be_bytes(1);
    bytes.push(0u8);
    bytes.push(0u8);
    assert_eq!(unpack_row(&bytes), None);
}

#[test]
fn key_bytes_are_big_endian() {
    assert_eq!(u64_to_be_bytes(7), vec![0, 0, 0, 0, 0, 0, 0, 7]);
    assert_eq!(
        u64_to_be_bytes(0x0102030405060708),
        vec![1, 2, 3, 4, 5, 6, 7, 8]
    );
}

#[test]
fn resolver_accepts_supported_casts() {
    let e = Expression::Cast {
        operand: Operand::Literal(ScalarValue::Bool(true)),
        target: CastTarget::Boolean,
    };
    assert_eq!(
        resolve_expression(&e),
        Resolution::Value(ScalarValue::Bool(true))
    );
    let e = Expression::Cast {
        operand: Operand::Literal(ScalarValue::Text(String::from("false"))),
        target: CastTarget::Boolean,
    };
    assert_eq!(
        resolve_expression(&e),
        Resolution::Value(ScalarValue::Bool(false))
    );
}

#[test]
fn resolver_rejects_other_casts() {
    let e = Expression::Cast {
        operand: Operand::Literal(ScalarValue::Number(String::from("1"))),
        target: CastTarget::Boolean,
    };
    match resolve_expression(&e) {
        Resolution::Error(Diagnostic::UnsupportedCast { .. }) => {}
        other => panic!("expected an unsupported cast, got {:?}", other),
    }
    let e = Expression::Cast {
        operand: Operand::Literal(ScalarValue::Text(String::from("yes"))),
        target: CastTarget::Boolean,
    };
    match resolve_expression(&e) {
        Resolution::Error(Diagnostic::UnsupportedCast { .. }) => {}
        other => panic!("expected an unsupported cast, got {:?}", other),
    }
}

#[test]
fn resolver_negates_numbers_textually() {
    let e = Expression::Unary {
        op: UnaryOperator::Minus,
        operand: Operand::Literal(ScalarValue::Number(String::from(
            "12345678901234567890123456789",
        ))),
    };
    assert_eq!(
        resolve_expression(&e),
        Resolution::Value(ScalarValue::Number(String::from(
            "-12345678901234567890123456789"
        )))
    );
    assert_eq!(
        negated_number_text(&String::from("-5")),
        String::from("5")
    );
}

#[test]
fn resolver_rejects_malformed_unary() {
    let e = Expression::Unary {
        op: UnaryOperator::Not,
        operand: Operand::Literal(ScalarValue::Number(String::from("1"))),
    };
    match resolve_expression(&e) {
        Resolution::Error(Diagnostic::MalformedUnary { .. }) => {}
        other => panic!("expected a malformed unary, got {:?}", other),
    }
}

#[test]
fn resolver_honours_evaluator_verdicts() {
    let ok = Expression::Binary(EvalVerdict::Value(ScalarValue::Number(String::from("3"))));
    assert_eq!(
        resolve_expression(&ok),
        Resolution::Value(ScalarValue::Number(String::from("3")))
    );
    let failed = Expression::Binary(EvalVerdict::Failed);
    assert_eq!(resolve_expression(&failed), Resolution::AlreadyReported);
}

#[test]
fn evaluator_failure_silences_the_statement() {
    let s = stmt(vec![], vec![vec![Expression::Binary(EvalVerdict::Failed)]]);
    assert_eq!(plan_insert(&s, &catalog_abc()), InsertPlan::AlreadyReported);
}

#[test]
fn unsupported_expression_is_echoed() {
    let s = stmt(
        vec![],
        vec![vec![Expression::Unsupported(String::from("SELECT 1"))]],
    );
    assert_eq!(
        plan_insert(&s, &catalog_abc()),
        InsertPlan::Failure(Diagnostic::UnsupportedExpression(String::from("SELECT 1")))
    );
}

#[test]
fn unsupported_statement_body_is_echoed() {
    let s = InsertStatement {
        schema_name: String::from("public"),
        table_name: String::from("t"),
        column_names: vec![],
        body: InsertBody::Unsupported(String::from("INSERT INTO t SELECT * FROM u")),
    };
    assert_eq!(
        plan_insert(&s, &catalog_abc()),
        InsertPlan::Failure(Diagnostic::UnsupportedStatement(String::from(
            "INSERT INTO t SELECT * FROM u"
        )))
    );
}

#[test]
fn integer_bounds_are_checked_exactly() {
    let t = SqlType::SmallInt;
    assert!(t.validate(&String::from("32767")).is_ok());
    assert!(t.validate(&String::from("-32768")).is_ok());
    assert_eq!(
        t.validate(&String::from("32768")),
        Err(ConstraintError::OutOfRange)
    );
    assert_eq!(
        t.validate(&String::from("-32769")),
        Err(ConstraintError::OutOfRange)
    );
    let b = SqlType::BigInt;
    assert!(b.validate(&String::from("9223372036854775807")).is_ok());
    assert!(b.validate(&String::from("-9223372036854775808")).is_ok());
    assert_eq!(
        b.validate(&String::from("9223372036854775808")),
        Err(ConstraintError::OutOfRange)
    );
    assert_eq!(
        b.validate(&String::from("99999999999999999999999999")),
        Err(ConstraintError::OutOfRange)
    );
}

#[test]
fn malformed_numbers_are_type_mismatches() {
    let t = SqlType::Integer;
    assert_eq!(
        t.validate(&String::from("abc")),
        Err(ConstraintError::TypeMismatch(String::from("abc")))
    );
    assert_eq!(
        t.validate(&String::from("12.5")),
        Err(ConstraintError::TypeMismatch(String::from("12.5")))
    );
    assert_eq!(
        t.validate(&String::from("-")),
        Err(ConstraintError::TypeMismatch(String::from("-")))
    );
    assert_eq!(
        t.validate(&String::from("")),
        Err(ConstraintError::TypeMismatch(String::from("")))
    );
}

#[test]
fn character_bounds_carry_the_limit() {
    let t = SqlType::VarChar(2);
    assert!(t.validate(&String::from("ab")).is_ok());
    assert_eq!(
        t.validate(&String::from("abc")),
        Err(ConstraintError::ValueTooLong(2))
    );
    let c = SqlType::Char(1);
    assert!(c.validate(&String::from("")).is_ok());
    assert_eq!(
        c.validate(&String::from("xy")),
        Err(ConstraintError::ValueTooLong(1))
    );
}

#[test]
fn booleans_validate_by_canonical_text() {
    let t = SqlType::Bool;
    assert!(t.validate(&String::from("true")).is_ok());
    assert!(t.validate(&String::from("false")).is_ok());
    assert_eq!(
        t.validate(&String::from("1")),
        Err(ConstraintError::TypeMismatch(String::from("1")))
    );
}

#[test]
fn later_duplicate_column_wins() {
    let s = stmt(vec!["a", "a"], vec![vec![num("1"), num("2")]]);
    match plan_insert(&s, &catalog_abc()) {
        InsertPlan::Rows(rows) => {
            assert_eq!(rows[0][0], Some(ScalarValue::Number(String::from("2"))));
            assert_eq!(rows[0][1], None);
        }
        other => panic!("expected rows, got {:?}", other),
    }
}

#[test]
fn short_lines_leave_the_rest_null() {
    let s = stmt(vec!["a", "b"], vec![vec![num("1")]]);
    match plan_insert(&s, &catalog_abc()) {
        InsertPlan::Rows(rows) => {
            assert_eq!(
                rows[0],
                vec![Some(ScalarValue::Number(String::from("1"))), None, None]
            );
        }
        other => panic!("expected rows, got {:?}", other),
    }
}

#[test]
fn cells_beyond_the_listed_columns_are_ignored() {
    let s = stmt(vec!["a"], vec![vec![num("1"), num("2")]]);
    match plan_insert(&s, &catalog_abc()) {
        InsertPlan::Rows(rows) => {
            assert_eq!(
                rows[0],
                vec![Some(ScalarValue::Number(String::from("1"))), None, None]
            );
        }
        other => panic!("expected rows, got {:?}", other),
    }
}

#[test]
fn empty_value_list_prepares_no_rows() {
    let s = stmt(vec![], vec![]);
    assert_eq!(plan_insert(&s, &catalog_abc()), InsertPlan::Rows(vec![]));
}

#[test]
fn batch_keeps_statement_order() {
    let s = stmt(
        vec!["a"],
        vec![vec![num("10")], vec![num("20")], vec![num("30")]],
    );
    match plan_insert(&s, &catalog_abc()) {
        InsertPlan::Rows(rows) => {
            assert_eq!(rows.len(), 3);
            let records = encode_rows(&rows, &vec![5, 6, 7]);
            assert_eq!(records[0].key, u64_to_be_bytes(5));
            assert_eq!(records[2].key, u64_to_be_bytes(7));
            for (i, rec) in records.iter().enumerate() {
                assert_eq!(unpack_row(&rec.value), Some(rows[i].clone()));
            }
        }
        other => panic!("expected rows, got {:?}", other),
    }
}
