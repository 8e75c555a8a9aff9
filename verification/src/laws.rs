//! Statement-level guarantees of the insert pipeline, each proved from the
//! definitions in this crate rather than merely implied by them.

use vstd::prelude::*;
use crate::diag::SpecDiagnostic;
use crate::plan::lemma_prepared_rows_prefix_err;
use crate::plan::spec_has_column;
use crate::plan::lemma_missing_names_membership;
use crate::plan::spec_map_columns;
use crate::plan::spec_missing_names;
use crate::plan::spec_plan;
use crate::plan::spec_prepared_rows;
use crate::plan::spec_resolve_line;
use crate::plan::spec_row_violations;
use crate::plan::spec_violations_up_to;
use crate::plan::SpecBody;
use crate::plan::SpecCatalog;
use crate::plan::SpecPlan;
use crate::plan::SpecStatement;
use crate::expr::SpecExpr;
use crate::types::SpecColumn;
use crate::values::SpecScalar;

verus! {

/// Law: a value-list statement aimed at a schema that does not exist, or at
/// a table that does not exist, ends in exactly the corresponding
/// diagnostic; no rows are ever prepared, so storage is never touched.
pub proof fn lemma_missing_target_aborts(stmt: SpecStatement, cat: SpecCatalog)
    requires
        stmt.body is Values,
        !cat.schema_exists || !cat.table_exists,
    ensures
        !cat.schema_exists ==> spec_plan(stmt, cat) == SpecPlan::Failure(
            SpecDiagnostic::SchemaNotFound(stmt.schema),
        ),
        cat.schema_exists && !cat.table_exists ==> spec_plan(stmt, cat) == SpecPlan::Failure(
            SpecDiagnostic::TableNotFound { schema: stmt.schema, table: stmt.table },
        ),
        !(spec_plan(stmt, cat) is Rows),
{
}

/// No two positions of the sequence hold the same name.
pub open spec fn distinct_names(s: Seq<Seq<char>>) -> bool {
    forall|i: int, j: int| 0 <= i < j < s.len() ==> s[i] != s[j]
}

proof fn lemma_missing_names_distinct(names: Seq<Seq<char>>, cols: Seq<SpecColumn>)
    ensures
        distinct_names(spec_missing_names(names, cols)),
    decreases names.len(),
{
    if names.len() > 0 {
        let rest = names.drop_last();
        let last = names.last();
        lemma_missing_names_distinct(rest, cols);
        let prev = spec_missing_names(rest, cols);
        let cur = spec_missing_names(names, cols);
        if !spec_has_column(cols, last) && !rest.contains(last) {
            assert(cur == prev.push(last));
            assert(!prev.contains(last)) by {
                lemma_missing_names_membership(rest, cols);
            }
            assert forall|i: int, j: int| 0 <= i < j < cur.len() implies cur[i] != cur[j] by {
                if j < cur.len() - 1 {
                    assert(prev[i] != prev[j]);
                } else {
                    assert(cur[j] == last);
                    if prev[i] == last {
                        assert(prev.contains(last));
                    }
                }
            }
        }
    }
}

/// Law: with an explicit column list, the mapper fails exactly when some
/// listed name is no column of the table; the one diagnostic then
/// enumerates exactly the set of unresolved names — every listed unresolved
/// name appears, nothing else appears, and none appears twice, however
/// often the statement listed it.
pub proof fn lemma_column_not_found_exact(names: Seq<Seq<char>>, cols: Seq<SpecColumn>)
    requires
        names.len() > 0,
    ensures
        (spec_map_columns(names, cols) is Err) <==> (exists|i: int|
            0 <= i < names.len() && !spec_has_column(cols, #[trigger] names[i])),
        spec_map_columns(names, cols) matches Err(missing) ==> (forall|n: Seq<char>|
            #[trigger] missing.contains(n) <==> (names.contains(n) && !spec_has_column(
                cols,
                n,
            ))),
        spec_map_columns(names, cols) matches Err(missing) ==> distinct_names(missing),
{
    let missing = spec_missing_names(names, cols);
    lemma_missing_names_membership(names, cols);
    if exists|i: int| 0 <= i < names.len() && !spec_has_column(cols, #[trigger] names[i]) {
        let i = choose|i: int| 0 <= i < names.len() && !spec_has_column(cols, #[trigger] names[i]);
        assert(names.contains(names[i]));
        assert(missing.contains(names[i]));
        assert(missing.len() > 0);
    }
    if missing.len() > 0 {
        assert(missing.contains(missing[0]));
        let i = choose|i: int| 0 <= i < names.len() && names[i] == missing[0];
        assert(!spec_has_column(cols, names[i]));
    }
    lemma_missing_names_distinct(names, cols);
}

/// Law: a value-list line wider than the table aborts the whole statement
/// with the too-many-expressions diagnostic — even when every earlier line
/// was valid — and the plan yields no rows, so nothing reaches storage.
pub proof fn lemma_too_many_expressions_aborts(
    stmt: SpecStatement,
    cat: SpecCatalog,
    lines: Seq<Seq<SpecExpr>>,
    mapping: Seq<(int, SpecColumn)>,
    i: int,
)
    requires
        stmt.body == SpecBody::Values(lines),
        cat.schema_exists,
        cat.table_exists,
        spec_map_columns(stmt.columns, cat.columns) == Ok::<_, Seq<Seq<char>>>(mapping),
        0 <= i < lines.len(),
        spec_prepared_rows(lines.take(i), mapping, cat.columns) is Ok,
        spec_resolve_line(lines[i]) is Ok,
        (spec_resolve_line(lines[i]) -> Ok_0).len() > cat.columns.len(),
    ensures
        spec_plan(stmt, cat) == SpecPlan::Failure(SpecDiagnostic::TooManyExpressions),
{
    assert(lines.take(i + 1).drop_last() =~= lines.take(i));
    assert(lines.take(i + 1).last() == lines[i]);
    lemma_prepared_rows_prefix_err(lines, mapping, cat.columns, i + 1);
}

proof fn lemma_violations_carry_row_number(
    cells: Seq<SpecScalar>,
    mapping: Seq<(int, SpecColumn)>,
    row: int,
    k: int,
)
    ensures
        forall|t: int|
            0 <= t < spec_violations_up_to(cells, mapping, row, k).len() ==> #[trigger]
                spec_violations_up_to(cells, mapping, row, k)[t].row == row,
    decreases k,
{
    if k > 0 {
        lemma_violations_carry_row_number(cells, mapping, row, k - 1);
    }
}

/// Law: a row with one or more constraint violations aborts the whole
/// statement with a diagnostic carrying exactly that row's violations,
/// every one of them referencing the row's 1-based number, and the plan
/// yields no rows, so nothing from the statement is committed.
pub proof fn lemma_violations_aggregated(
    stmt: SpecStatement,
    cat: SpecCatalog,
    lines: Seq<Seq<SpecExpr>>,
    mapping: Seq<(int, SpecColumn)>,
    i: int,
)
    requires
        stmt.body == SpecBody::Values(lines),
        cat.schema_exists,
        cat.table_exists,
        spec_map_columns(stmt.columns, cat.columns) == Ok::<_, Seq<Seq<char>>>(mapping),
        0 <= i < lines.len(),
        spec_prepared_rows(lines.take(i), mapping, cat.columns) is Ok,
        spec_resolve_line(lines[i]) is Ok,
        (spec_resolve_line(lines[i]) -> Ok_0).len() <= cat.columns.len(),
        spec_row_violations((spec_resolve_line(lines[i]) -> Ok_0), mapping, i + 1).len() >= 1,
    ensures
        spec_plan(stmt, cat) == SpecPlan::Failure(
            SpecDiagnostic::ConstraintViolations(
                spec_row_violations((spec_resolve_line(lines[i]) -> Ok_0), mapping, i + 1),
            ),
        ),
        forall|t: int|
            0 <= t < spec_row_violations(
                (spec_resolve_line(lines[i]) -> Ok_0),
                mapping,
                i + 1,
            ).len() ==> #[trigger] spec_row_violations(
                (spec_resolve_line(lines[i]) -> Ok_0),
                mapping,
                i + 1,
            )[t].row == i + 1,
{
    assert(lines.take(i + 1).drop_last() =~= lines.take(i));
    assert(lines.take(i + 1).last() == lines[i]);
    let cells = spec_resolve_line(lines[i]) -> Ok_0;
    let m = if cells.len() <= mapping.len() {
        cells.len() as int
    } else {
        mapping.len() as int
    };
    lemma_violations_carry_row_number(cells, mapping, i + 1, m);
    lemma_prepared_rows_prefix_err(lines, mapping, cat.columns, i + 1);
}

} // verus!
