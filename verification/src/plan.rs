//! The insert pipeline: column mapping, per-line scalar resolution, row
//! materialization with null padding, constraint validation with per-row
//! aggregation, and the orchestrating planner that decides, from one
//! statement and one catalog snapshot, either the full batch of validated
//! rows or the single terminal diagnostic. Nothing is ever handed to
//! storage unless every row of the batch passed.

use vstd::prelude::*;
use crate::diag::Diagnostic;
use crate::diag::SpecDiagnostic;
use crate::diag::SpecViolation;
use crate::diag::Violation;
use crate::expr::Expression;
use crate::expr::SpecExpr;
use crate::resolve::resolve_expression;
use crate::resolve::spec_resolve;
use crate::resolve::Resolution;
use crate::resolve::SpecResolution;
use crate::types::ColumnDefinition;
use crate::types::spec_validate;
use crate::types::SpecColumn;
use crate::values::spec_canonical_text;
use crate::values::ScalarValue;
use crate::values::SpecScalar;

verus! {

/// The body of an insert statement: the literal value lists (one per row),
/// or any other shape, carried as the raw statement text for the
/// diagnostic.
#[derive(Debug, PartialEq, Clone)]
pub enum InsertBody {
    Values(Vec<Vec<Expression>>),
    Unsupported(String),
}

/// Mathematical model of an [`InsertBody`].
pub enum SpecBody {
    Values(Seq<Seq<SpecExpr>>),
    Unsupported(Seq<char>),
}

impl View for InsertBody {
    type V = SpecBody;

    open spec fn view(&self) -> SpecBody {
        match self {
            InsertBody::Values(lines) => SpecBody::Values(lines.deep_view()),
            InsertBody::Unsupported(s) => SpecBody::Unsupported(s@),
        }
    }
}

/// A parsed insert statement: the target table, the optional explicit
/// column-name list (empty means all columns in table order), and the body.
#[derive(Debug, PartialEq, Clone)]
pub struct InsertStatement {
    pub schema_name: String,
    pub table_name: String,
    pub column_names: Vec<String>,
    pub body: InsertBody,
}

/// Mathematical model of an [`InsertStatement`].
pub struct SpecStatement {
    pub schema: Seq<char>,
    pub table: Seq<char>,
    pub columns: Seq<Seq<char>>,
    pub body: SpecBody,
}

impl View for InsertStatement {
    type V = SpecStatement;

    open spec fn view(&self) -> SpecStatement {
        SpecStatement {
            schema: self.schema_name@,
            table: self.table_name@,
            columns: self.column_names.deep_view(),
            body: self.body@,
        }
    }
}

/// What the storage backend answered when asked about the target: whether
/// the schema and table exist, and the table's authoritative column order.
/// Each answer came from its own discrete backend access; the snapshot is
/// not transactionally linked to the later commit.
#[derive(Debug, PartialEq, Clone)]
pub struct CatalogSnapshot {
    pub schema_exists: bool,
    pub table_exists: bool,
    pub columns: Vec<ColumnDefinition>,
}

/// Mathematical model of a [`CatalogSnapshot`].
pub struct SpecCatalog {
    pub schema_exists: bool,
    pub table_exists: bool,
    pub columns: Seq<SpecColumn>,
}

impl View for CatalogSnapshot {
    type V = SpecCatalog;

    open spec fn view(&self) -> SpecCatalog {
        SpecCatalog {
            schema_exists: self.schema_exists,
            table_exists: self.table_exists,
            columns: self.columns.deep_view(),
        }
    }
}

/// Why a statement stopped before producing rows: with a diagnostic to
/// send, or silently because the outside evaluator already reported.
#[derive(Debug, PartialEq)]
pub enum Abort {
    Diag(Diagnostic),
    Silent,
}

/// Mathematical model of an [`Abort`].
pub enum SpecAbort {
    Diag(SpecDiagnostic),
    Silent,
}

impl View for Abort {
    type V = SpecAbort;

    open spec fn view(&self) -> SpecAbort {
        match self {
            Abort::Diag(d) => SpecAbort::Diag(d@),
            Abort::Silent => SpecAbort::Silent,
        }
    }
}

/// The planner's decision: a terminal diagnostic, silence (failure already
/// reported by the outside evaluator), or the full batch of validated
/// full-width rows, in statement order, ready for encoding.
#[derive(Debug, PartialEq)]
pub enum InsertPlan {
    Failure(Diagnostic),
    AlreadyReported,
    Rows(Vec<Vec<Option<ScalarValue>>>),
}

/// Mathematical model of an [`InsertPlan`].
pub enum SpecPlan {
    Failure(SpecDiagnostic),
    AlreadyReported,
    Rows(Seq<Seq<Option<SpecScalar>>>),
}

impl View for InsertPlan {
    type V = SpecPlan;

    open spec fn view(&self) -> SpecPlan {
        match self {
            InsertPlan::Failure(d) => SpecPlan::Failure(d@),
            InsertPlan::AlreadyReported => SpecPlan::AlreadyReported,
            InsertPlan::Rows(rows) => SpecPlan::Rows(rows.deep_view()),
        }
    }
}

/// Whether some table column carries the given name.
pub open spec fn spec_has_column(cols: Seq<SpecColumn>, name: Seq<char>) -> bool {
    exists|j: int| 0 <= j < cols.len() && cols[j].name == name
}

/// The position of the first table column carrying the given name, or the
/// column count when no column does.
pub open spec fn spec_col_index(cols: Seq<SpecColumn>, name: Seq<char>) -> int
    decreases cols.len(),
{
    if cols.len() == 0 {
        0
    } else if cols[0].name == name {
        0
    } else {
        1 + spec_col_index(cols.drop_first(), name)
    }
}

pub proof fn lemma_col_index(cols: Seq<SpecColumn>, name: Seq<char>)
    ensures
        spec_has_column(cols, name) ==> 0 <= spec_col_index(cols, name) < cols.len()
            && cols[spec_col_index(cols, name)].name == name && (forall|j: int|
            0 <= j < spec_col_index(cols, name) ==> cols[j].name != name),
        !spec_has_column(cols, name) ==> spec_col_index(cols, name) == cols.len(),
    decreases cols.len(),
{
    if cols.len() > 0 && cols[0].name != name {
        let rest = cols.drop_first();
        lemma_col_index(rest, name);
        assert(spec_has_column(cols, name) ==> spec_has_column(rest, name)) by {
            if spec_has_column(cols, name) {
                let j = choose|j: int| 0 <= j < cols.len() && cols[j].name == name;
                assert(rest[j - 1] == cols[j]);
            }
        }
        assert(spec_has_column(rest, name) ==> spec_has_column(cols, name)) by {
            if spec_has_column(rest, name) {
                let j = choose|j: int| 0 <= j < rest.len() && rest[j].name == name;
                assert(cols[j + 1] == rest[j]);
            }
        }
        if spec_has_column(cols, name) {
            let i = spec_col_index(rest, name);
            assert(spec_col_index(cols, name) == 1 + i);
            assert(cols[1 + i] == rest[i]);
            assert forall|j: int| 0 <= j < 1 + i implies cols[j].name != name by {
                if j > 0 {
                    assert(cols[j] == rest[j - 1]);
                }
            }
        }
    }
}

/// The model of one mapping entry: a table position and the column that
/// stands there.
pub open spec fn view_mapping(m: Seq<(usize, ColumnDefinition)>) -> Seq<(int, SpecColumn)> {
    m.map_values(|p: (usize, ColumnDefinition)| (p.0 as int, p.1@))
}

/// The set of listed names that the table lacks, kept as a sequence without
/// duplicates: each unresolved name appears once, at its first occurrence's
/// place in the listed order.
pub open spec fn spec_missing_names(names: Seq<Seq<char>>, cols: Seq<SpecColumn>) -> Seq<
    Seq<char>,
>
    decreases names.len(),
{
    if names.len() == 0 {
        Seq::empty()
    } else {
        let prev = spec_missing_names(names.drop_last(), cols);
        if !spec_has_column(cols, names.last()) && !names.drop_last().contains(names.last()) {
            prev.push(names.last())
        } else {
            prev
        }
    }
}

pub proof fn lemma_missing_names_membership(names: Seq<Seq<char>>, cols: Seq<SpecColumn>)
    ensures
        forall|n: Seq<char>|
            #[trigger] spec_missing_names(names, cols).contains(n) <==> (names.contains(n)
                && !spec_has_column(cols, n)),
    decreases names.len(),
{
    if names.len() > 0 {
        let rest = names.drop_last();
        let last = names.last();
        lemma_missing_names_membership(rest, cols);
        let cur = spec_missing_names(names, cols);
        let prev = spec_missing_names(rest, cols);
        assert forall|n: Seq<char>| #[trigger] cur.contains(n) implies (names.contains(n)
            && !spec_has_column(cols, n)) by {
            let u = choose|u: int| 0 <= u < cur.len() && cur[u] == n;
            if u < prev.len() {
                assert(prev.contains(n));
                let v = choose|v: int| 0 <= v < rest.len() && rest[v] == n;
                assert(names[v] == n);
            } else {
                assert(n == last);
                assert(names[names.len() - 1] == n);
            }
        }
        assert forall|n: Seq<char>| (names.contains(n) && !spec_has_column(cols, n)) implies
            #[trigger] cur.contains(n) by {
            let idx = choose|idx: int| 0 <= idx < names.len() && names[idx] == n;
            if idx < rest.len() {
                assert(rest[idx] == n);
                assert(rest.contains(n));
                assert(prev.contains(n));
                let v = choose|v: int| 0 <= v < prev.len() && prev[v] == n;
                assert(cur[v] == n);
            } else {
                assert(n == last);
                if rest.contains(last) {
                    assert(prev.contains(n));
                    let v = choose|v: int| 0 <= v < prev.len() && prev[v] == n;
                    assert(cur[v] == n);
                } else {
                    assert(cur == prev.push(last));
                    assert(cur[cur.len() - 1] == n);
                }
            }
        }
    }
}

/// The column mapper's decision. An empty explicit list maps value-list
/// position i to table position i across the whole table; otherwise each
/// listed name is resolved to its table position, the entries keeping the
/// statement's listed order, and the names the table lacks are collected —
/// each once, however often it was listed — into the error.
pub open spec fn spec_map_columns(names: Seq<Seq<char>>, cols: Seq<SpecColumn>) -> Result<
    Seq<(int, SpecColumn)>,
    Seq<Seq<char>>,
> {
    if names.len() == 0 {
        Ok(Seq::new(cols.len(), |i: int| (i, cols[i])))
    } else {
        let missing = spec_missing_names(names, cols);
        if missing.len() > 0 {
            Err(missing)
        } else {
            Ok(
                names.map_values(
                    |n: Seq<char>| (spec_col_index(cols, n), cols[spec_col_index(cols, n)]),
                ),
            )
        }
    }
}

/// Resolves the statement's target-column list against the table's column
/// order (see [`spec_map_columns`]). Every entry of a successful mapping
/// points inside the table.
pub fn map_columns(names: &Vec<String>, cols: &Vec<ColumnDefinition>) -> (r: Result<
    Vec<(usize, ColumnDefinition)>,
    Vec<String>,
>)
    ensures
        match r {
            Ok(m) => spec_map_columns(names.deep_view(), cols.deep_view()) matches Ok(sm)
                && sm == view_mapping(m@) && (forall|i: int|
                0 <= i < m@.len() ==> (#[trigger] m@[i]).0 < cols@.len()),
            Err(miss) => spec_map_columns(names.deep_view(), cols.deep_view()) matches Err(sm)
                && sm == miss.deep_view(),
        },
{
    let ghost namesd = names.deep_view();
    let ghost colsd = cols.deep_view();
    if names.len() == 0 {
        let mut m: Vec<(usize, ColumnDefinition)> = Vec::new();
        let mut i: usize = 0;
        while i < cols.len()
            invariant
                colsd == cols.deep_view(),
                i <= cols@.len(),
                colsd.len() == cols@.len(),
                m@.len() == i,
                forall|j: int|
                    0 <= j < i ==> (#[trigger] m@[j]).0 == j && m@[j].1@ == colsd[j],
            decreases cols@.len() - i,
        {
            m.push((i, cols[i].dup()));
            i = i + 1;
        }
        proof {
            assert(view_mapping(m@) =~= Seq::new(colsd.len(), |j: int| (j, colsd[j])));
        }
        Ok(m)
    } else {
        let mut m: Vec<(usize, ColumnDefinition)> = Vec::new();
        let mut missing: Vec<String> = Vec::new();
        proof {
            assert(namesd.take(0) =~= Seq::<Seq<char>>::empty());
            assert(missing.deep_view() =~= Seq::<Seq<char>>::empty());
        }
        let mut k: usize = 0;
        while k < names.len()
            invariant
                namesd == names.deep_view(),
                colsd == cols.deep_view(),
                k <= names@.len(),
                namesd.len() == names@.len(),
                colsd.len() == cols@.len(),
                missing.deep_view() == spec_missing_names(namesd.take(k as int), colsd),
                missing@.len() == 0 ==> m@.len() == k && (forall|i: int|
                    0 <= i < k ==> (#[trigger] m@[i]).0 as int == spec_col_index(
                        colsd,
                        namesd[i],
                    ) && m@[i].1@ == colsd[spec_col_index(colsd, namesd[i])]),
                forall|i: int| 0 <= i < m@.len() ==> (#[trigger] m@[i]).0 < cols@.len(),
            decreases names@.len() - k,
        {
            let name = &names[k];
            let mut found: Option<usize> = None;
            let mut j: usize = 0;
            while j < cols.len() && found.is_none()
                invariant
                    colsd == cols.deep_view(),
                    j <= cols@.len(),
                    colsd.len() == cols@.len(),
                    match found {
                        None => forall|jj: int| 0 <= jj < j ==> colsd[jj].name != name@,
                        Some(f) => f == j && f < cols@.len() && colsd[f as int].name == name@
                            && (forall|jj: int| 0 <= jj < f ==> colsd[jj].name != name@),
                    },
                decreases cols@.len() - j, (if found is None { 1int } else { 0int }),
            {
                if cols[j].has_name(name) {
                    found = Some(j);
                } else {
                    j = j + 1;
                }
            }
            proof {
                if found is None {
                    assert(j == cols@.len());
                    if spec_has_column(colsd, name@) {
                        let jj = choose|jj: int|
                            0 <= jj < colsd.len() && colsd[jj].name == name@;
                        assert(colsd[jj].name != name@);
                    }
                }
            }
            proof {
                lemma_col_index(colsd, name@);
                assert(namesd.take(k + 1int).drop_last() =~= namesd.take(k as int));
                assert(namesd.take(k + 1int).last() == namesd[k as int]);
                assert(namesd[k as int] == name@);
            }
            match found {
                Some(j) => {
                    proof {
                        assert(spec_has_column(colsd, name@));
                        assert(spec_col_index(colsd, name@) == j);
                    }
                    m.push((j, cols[j].dup()));
                    proof {
                        assert(missing.deep_view() == spec_missing_names(
                            namesd.take(k + 1int),
                            colsd,
                        ));
                    }
                },
                None => {
                    proof {
                        assert(!spec_has_column(colsd, name@));
                    }
                    let mut already = false;
                    let mut t: usize = 0;
                    while t < missing.len()
                        invariant
                            t <= missing@.len(),
                            already <==> (exists|u: int|
                                0 <= u < t && missing.deep_view()[u] == name@),
                        decreases missing@.len() - t,
                    {
                        proof {
                            assert(missing.deep_view()[t as int] == missing@[t as int]@);
                        }
                        if missing[t] == *name {
                            already = true;
                        }
                        t = t + 1;
                    }
                    proof {
                        assert(already == missing.deep_view().contains(name@));
                        lemma_missing_names_membership(namesd.take(k as int), colsd);
                        assert(missing.deep_view().contains(name@) == namesd.take(
                            k as int,
                        ).contains(name@));
                    }
                    let ghost missing_pre = missing.deep_view();
                    if !already {
                        missing.push(name.clone());
                        proof {
                            assert(missing.deep_view() =~= missing_pre.push(name@));
                        }
                    }
                    proof {
                        assert(missing.deep_view() == spec_missing_names(
                            namesd.take(k + 1int),
                            colsd,
                        ));
                    }
                },
            }
            k = k + 1;
        }
        proof {
            assert(namesd.take(namesd.len() as int) =~= namesd);
        }
        if missing.len() > 0 {
            Err(missing)
        } else {
            proof {
                assert(view_mapping(m@) =~= namesd.map_values(
                    |n: Seq<char>| (spec_col_index(colsd, n), colsd[spec_col_index(colsd, n)]),
                )) by {
                    assert(namesd.len() == m@.len());
                    assert forall|i: int| 0 <= i < namesd.len() implies view_mapping(m@)[i]
                        == (spec_col_index(colsd, namesd[i]), colsd[spec_col_index(
                        colsd,
                        namesd[i],
                    )]) by {
                        assert(view_mapping(m@)[i] == (m@[i].0 as int, m@[i].1@));
                    }
                }
            }
            Ok(m)
        }
    }
}

/// The resolver applied to one whole value-list line, cells in statement
/// order, stopping at the first cell that does not yield a scalar.
pub open spec fn spec_resolve_line(line: Seq<SpecExpr>) -> Result<Seq<SpecScalar>, SpecAbort>
    decreases line.len(),
{
    if line.len() == 0 {
        Ok(Seq::empty())
    } else {
        match spec_resolve_line(line.drop_last()) {
            Err(a) => Err(a),
            Ok(vs) => match spec_resolve(line.last()) {
                SpecResolution::Value(v) => Ok(vs.push(v)),
                SpecResolution::Error(d) => Err(SpecAbort::Diag(d)),
                SpecResolution::AlreadyReported => Err(SpecAbort::Silent),
            },
        }
    }
}

pub proof fn lemma_resolve_line_prefix_err(line: Seq<SpecExpr>, i: int)
    requires
        0 <= i <= line.len(),
        spec_resolve_line(line.take(i)) is Err,
    ensures
        spec_resolve_line(line) == spec_resolve_line(line.take(i)),
    decreases line.len() - i,
{
    if i < line.len() {
        assert(line.take(i + 1).drop_last() =~= line.take(i));
        lemma_resolve_line_prefix_err(line, i + 1);
    } else {
        assert(line.take(i) =~= line);
    }
}

/// Resolves every cell of one value-list line (see [`spec_resolve_line`]).
pub fn resolve_line(line: &Vec<Expression>) -> (r: Result<Vec<ScalarValue>, Abort>)
    ensures
        match r {
            Ok(vs) => spec_resolve_line(line.deep_view()) == Ok::<_, SpecAbort>(vs.deep_view()),
            Err(a) => spec_resolve_line(line.deep_view()) == Err::<Seq<SpecScalar>, _>(a@),
        },
{
    let ghost lined = line.deep_view();
    let mut vs: Vec<ScalarValue> = Vec::new();
    proof {
        assert(lined.take(0) =~= Seq::<SpecExpr>::empty());
        assert(vs.deep_view() =~= Seq::<SpecScalar>::empty());
    }
    let mut i: usize = 0;
    while i < line.len()
        invariant
            lined == line.deep_view(),
            i <= line@.len(),
            lined.len() == line@.len(),
            spec_resolve_line(lined.take(i as int)) == Ok::<_, SpecAbort>(vs.deep_view()),
        decreases line@.len() - i,
    {
        proof {
            assert(lined.take(i + 1int).drop_last() =~= lined.take(i as int));
            assert(lined.take(i + 1int).last() == lined[i as int]);
        }
        let ghost vs_pre = vs.deep_view();
        match resolve_expression(&line[i]) {
            Resolution::Value(v) => {
                vs.push(v);
                proof {
                    assert(vs.deep_view() =~= vs_pre.push(v@));
                }
            },
            Resolution::Error(d) => {
                proof {
                    lemma_resolve_line_prefix_err(lined, i + 1int);
                }
                return Err(Abort::Diag(d));
            },
            Resolution::AlreadyReported => {
                proof {
                    lemma_resolve_line_prefix_err(lined, i + 1int);
                }
                return Err(Abort::Silent);
            },
        }
        i = i + 1;
    }
    proof {
        assert(lined.take(lined.len() as int) =~= lined);
    }
    Ok(vs)
}

pub open spec fn spec_materialize_up_to(
    cells: Seq<SpecScalar>,
    mapping: Seq<(int, SpecColumn)>,
    width: int,
    k: int,
) -> Seq<Option<SpecScalar>>
    decreases k,
{
    if k <= 0 {
        Seq::new(width as nat, |j: int| None::<SpecScalar>)
    } else {
        let prev = spec_materialize_up_to(cells, mapping, width, k - 1);
        let idx = mapping[k - 1].0;
        if 0 <= idx < width {
            prev.update(idx, Some(cells[k - 1]))
        } else {
            prev
        }
    }
}

/// One full-width row of the given width: every position null except those
/// the statement supplies, cell i landing at the table position the mapper
/// chose for statement position i (a later cell aimed at the same position
/// wins).
pub open spec fn spec_materialize(
    cells: Seq<SpecScalar>,
    mapping: Seq<(int, SpecColumn)>,
    width: int,
) -> Seq<Option<SpecScalar>> {
    let k = if cells.len() <= mapping.len() {
        cells.len() as int
    } else {
        mapping.len() as int
    };
    spec_materialize_up_to(cells, mapping, width, k)
}

/// Builds one full-width row (see [`spec_materialize`]).
pub fn materialize_row(
    cells: &Vec<ScalarValue>,
    mapping: &Vec<(usize, ColumnDefinition)>,
    width: usize,
) -> (r: Vec<Option<ScalarValue>>)
    requires
        forall|i: int| 0 <= i < mapping@.len() ==> (#[trigger] mapping@[i]).0 < width,
    ensures
        r.deep_view() == spec_materialize(cells.deep_view(), view_mapping(mapping@), width as int),
        r@.len() == width,
{
    let ghost cellsd = cells.deep_view();
    let ghost mapd = view_mapping(mapping@);
    let mut row: Vec<Option<ScalarValue>> = Vec::new();
    let mut j: usize = 0;
    while j < width
        invariant
            j <= width,
            row@.len() == j,
            forall|t: int| 0 <= t < j ==> row@[t] is None,
        decreases width - j,
    {
        row.push(None);
        j = j + 1;
    }
    proof {
        assert(row.deep_view() =~= Seq::new(width as nat, |t: int| None::<SpecScalar>));
    }
    let m: usize = if cells.len() <= mapping.len() {
        cells.len()
    } else {
        mapping.len()
    };
    let mut k: usize = 0;
    while k < m
        invariant
            cellsd == cells.deep_view(),
            mapd == view_mapping(mapping@),
            k <= m,
            m <= cells@.len(),
            m <= mapping@.len(),
            cellsd.len() == cells@.len(),
            mapd.len() == mapping@.len(),
            m == if cellsd.len() <= mapd.len() { cellsd.len() as int } else { mapd.len() as int },
            row@.len() == width,
            forall|i: int| 0 <= i < mapping@.len() ==> (#[trigger] mapping@[i]).0 < width,
            row.deep_view() == spec_materialize_up_to(cellsd, mapd, width as int, k as int),
        decreases m - k,
    {
        let ghost row_pre = row.deep_view();
        let idx = mapping[k].0;
        let cell = cells[k].dup();
        row[idx] = Some(cell);
        proof {
            assert(mapd[k as int].0 == idx as int);
            assert(mapd[k as int].0 < width as int);
            assert(cellsd[k as int] == cells@[k as int]@);
            assert(row.deep_view() =~= row_pre.update(idx as int, Some(cellsd[k as int])));
        }
        k = k + 1;
    }
    row
}

pub open spec fn spec_violations_up_to(
    cells: Seq<SpecScalar>,
    mapping: Seq<(int, SpecColumn)>,
    row: int,
    k: int,
) -> Seq<SpecViolation>
    decreases k,
{
    if k <= 0 {
        Seq::empty()
    } else {
        let prev = spec_violations_up_to(cells, mapping, row, k - 1);
        match spec_validate(mapping[k - 1].1.sql_type, spec_canonical_text(cells[k - 1])) {
            None => prev,
            Some(e) => prev.push(SpecViolation { error: e, column: mapping[k - 1].1, row }),
        }
    }
}

/// Every constraint violation of one row, in cell order: each cell the
/// statement actually supplies is judged, in its canonical textual form, by
/// its mapped column's constraint; nothing short-circuits, every violation
/// of the row is collected. `row` is the row's 1-based number.
pub open spec fn spec_row_violations(
    cells: Seq<SpecScalar>,
    mapping: Seq<(int, SpecColumn)>,
    row: int,
) -> Seq<SpecViolation> {
    let k = if cells.len() <= mapping.len() {
        cells.len() as int
    } else {
        mapping.len() as int
    };
    spec_violations_up_to(cells, mapping, row, k)
}

/// Collects every constraint violation of one row (see
/// [`spec_row_violations`]).
pub fn row_violations(
    cells: &Vec<ScalarValue>,
    mapping: &Vec<(usize, ColumnDefinition)>,
    row: usize,
) -> (r: Vec<Violation>)
    ensures
        r.deep_view() == spec_row_violations(cells.deep_view(), view_mapping(mapping@), row as int),
{
    let ghost cellsd = cells.deep_view();
    let ghost mapd = view_mapping(mapping@);
    let mut out: Vec<Violation> = Vec::new();
    let m: usize = if cells.len() <= mapping.len() {
        cells.len()
    } else {
        mapping.len()
    };
    let mut k: usize = 0;
    while k < m
        invariant
            cellsd == cells.deep_view(),
            mapd == view_mapping(mapping@),
            k <= m,
            m <= cells@.len(),
            m <= mapping@.len(),
            cellsd.len() == cells@.len(),
            mapd.len() == mapping@.len(),
            m == if cellsd.len() <= mapd.len() { cellsd.len() as int } else { mapd.len() as int },
            out.deep_view() == spec_violations_up_to(cellsd, mapd, row as int, k as int),
        decreases m - k,
    {
        let ghost out_pre = out.deep_view();
        let text = cells[k].canonical_text();
        let column = &mapping[k].1;
        proof {
            assert(mapd[k as int].1 == column@);
            assert(cellsd[k as int] == cells@[k as int]@);
        }
        match column.sql_type.validate(&text) {
            Ok(u) => {},
            Err(e) => {
                out.push(Violation { error: e, column: column.dup(), row });
                proof {
                    assert(out.deep_view() =~= out_pre.push(
                        SpecViolation { error: e@, column: mapd[k as int].1, row: row as int },
                    ));
                }
            },
        }
        k = k + 1;
    }
    out
}

/// The whole batch, line by line in statement order: each line is resolved,
/// rejected if wider than the table, judged by the constraint validator
/// (all violations of the row aggregated, carrying the 1-based row number),
/// and materialized. The first failing line aborts the batch; only a batch
/// in which every row passed yields rows.
pub open spec fn spec_prepared_rows(
    lines: Seq<Seq<SpecExpr>>,
    mapping: Seq<(int, SpecColumn)>,
    cols: Seq<SpecColumn>,
) -> Result<Seq<Seq<Option<SpecScalar>>>, SpecAbort>
    decreases lines.len(),
{
    if lines.len() == 0 {
        Ok(Seq::empty())
    } else {
        match spec_prepared_rows(lines.drop_last(), mapping, cols) {
            Err(a) => Err(a),
            Ok(rows) => match spec_resolve_line(lines.last()) {
                Err(a) => Err(a),
                Ok(cells) => if cells.len() > cols.len() {
                    Err(SpecAbort::Diag(SpecDiagnostic::TooManyExpressions))
                } else {
                    let viols = spec_row_violations(cells, mapping, lines.len() as int);
                    if viols.len() > 0 {
                        Err(SpecAbort::Diag(SpecDiagnostic::ConstraintViolations(viols)))
                    } else {
                        Ok(rows.push(spec_materialize(cells, mapping, cols.len() as int)))
                    }
                },
            },
        }
    }
}

pub proof fn lemma_prepared_rows_prefix_err(
    lines: Seq<Seq<SpecExpr>>,
    mapping: Seq<(int, SpecColumn)>,
    cols: Seq<SpecColumn>,
    i: int,
)
    requires
        0 <= i <= lines.len(),
        spec_prepared_rows(lines.take(i), mapping, cols) is Err,
    ensures
        spec_prepared_rows(lines, mapping, cols) == spec_prepared_rows(
            lines.take(i),
            mapping,
            cols,
        ),
    decreases lines.len() - i,
{
    if i < lines.len() {
        assert(lines.take(i + 1).drop_last() =~= lines.take(i));
        lemma_prepared_rows_prefix_err(lines, mapping, cols, i + 1);
    } else {
        assert(lines.take(i) =~= lines);
    }
}

/// Runs every value-list line through resolution, the width check, the
/// validator and the materializer (see [`spec_prepared_rows`]).
pub fn prepare_rows(
    lines: &Vec<Vec<Expression>>,
    mapping: &Vec<(usize, ColumnDefinition)>,
    cols: &Vec<ColumnDefinition>,
) -> (r: Result<Vec<Vec<Option<ScalarValue>>>, Abort>)
    requires
        forall|i: int| 0 <= i < mapping@.len() ==> (#[trigger] mapping@[i]).0 < cols@.len(),
    ensures
        match r {
            Ok(rows) => spec_prepared_rows(
                lines.deep_view(),
                view_mapping(mapping@),
                cols.deep_view(),
            ) == Ok::<_, SpecAbort>(rows.deep_view()),
            Err(a) => spec_prepared_rows(lines.deep_view(), view_mapping(mapping@), cols.deep_view())
                == Err::<Seq<Seq<Option<SpecScalar>>>, _>(a@),
        },
{
    let ghost linesd = lines.deep_view();
    let ghost mapd = view_mapping(mapping@);
    let ghost colsd = cols.deep_view();
    let mut rows: Vec<Vec<Option<ScalarValue>>> = Vec::new();
    proof {
        assert(linesd.take(0) =~= Seq::<Seq<SpecExpr>>::empty());
        assert(rows.deep_view() =~= Seq::<Seq<Option<SpecScalar>>>::empty());
    }
    let mut i: usize = 0;
    while i < lines.len()
        invariant
            linesd == lines.deep_view(),
            mapd == view_mapping(mapping@),
            colsd == cols.deep_view(),
            i <= lines@.len(),
            linesd.len() == lines@.len(),
            colsd.len() == cols@.len(),
            forall|t: int| 0 <= t < mapping@.len() ==> (#[trigger] mapping@[t]).0 < cols@.len(),
            spec_prepared_rows(linesd.take(i as int), mapd, colsd) == Ok::<_, SpecAbort>(
                rows.deep_view(),
            ),
        decreases lines@.len() - i,
    {
        proof {
            assert(linesd.take(i + 1int).drop_last() =~= linesd.take(i as int));
            assert(linesd.take(i + 1int).last() == linesd[i as int]);
        }
        let ghost rows_pre = rows.deep_view();
        let line = &lines[i];
        match resolve_line(line) {
            Err(a) => {
                proof {
                    lemma_prepared_rows_prefix_err(linesd, mapd, colsd, i + 1int);
                }
                return Err(a);
            },
            Ok(cells) => {
                if cells.len() > cols.len() {
                    proof {
                        lemma_prepared_rows_prefix_err(linesd, mapd, colsd, i + 1int);
                    }
                    return Err(Abort::Diag(Diagnostic::TooManyExpressions));
                }
                let row_number = i + 1;
                let viols = row_violations(&cells, mapping, row_number);
                if viols.len() > 0 {
                    proof {
                        lemma_prepared_rows_prefix_err(linesd, mapd, colsd, i + 1int);
                    }
                    return Err(Abort::Diag(Diagnostic::ConstraintViolations(viols)));
                }
                let row = materialize_row(&cells, mapping, cols.len());
                rows.push(row);
                proof {
                    assert(rows.deep_view() =~= rows_pre.push(
                        spec_materialize(cells.deep_view(), mapd, colsd.len() as int),
                    ));
                }
            },
        }
        i = i + 1;
    }
    proof {
        assert(linesd.take(linesd.len() as int) =~= linesd);
    }
    Ok(rows)
}

/// The planner's whole decision, from one statement and one catalog
/// snapshot: a statement whose body is not a literal value list is
/// unsupported; a missing schema, then a missing table, is terminal; then
/// the column mapper runs once, its unresolved names terminal as one
/// aggregated diagnostic; then every line runs through the per-row
/// pipeline. Rows come out only when every line passed, so storage is never
/// touched by a batch that failed anywhere.
pub open spec fn spec_plan(stmt: SpecStatement, cat: SpecCatalog) -> SpecPlan {
    match stmt.body {
        SpecBody::Unsupported(text) => SpecPlan::Failure(
            SpecDiagnostic::UnsupportedStatement(text),
        ),
        SpecBody::Values(lines) => {
            if !cat.schema_exists {
                SpecPlan::Failure(SpecDiagnostic::SchemaNotFound(stmt.schema))
            } else if !cat.table_exists {
                SpecPlan::Failure(
                    SpecDiagnostic::TableNotFound { schema: stmt.schema, table: stmt.table },
                )
            } else {
                match spec_map_columns(stmt.columns, cat.columns) {
                    Err(missing) => SpecPlan::Failure(SpecDiagnostic::ColumnNotFound(missing)),
                    Ok(mapping) => match spec_prepared_rows(lines, mapping, cat.columns) {
                        Err(SpecAbort::Diag(d)) => SpecPlan::Failure(d),
                        Err(SpecAbort::Silent) => SpecPlan::AlreadyReported,
                        Ok(rows) => SpecPlan::Rows(rows),
                    },
                }
            }
        },
    }
}

/// Decides one insert statement against one catalog snapshot (see
/// [`spec_plan`]): either the single terminal diagnostic, silence because
/// the outside evaluator already reported, or the validated full-width rows
/// of the whole batch, in statement order.
pub fn plan_insert(stmt: &InsertStatement, catalog: &CatalogSnapshot) -> (r: InsertPlan)
    ensures
        r@ == spec_plan(stmt@, catalog@),
{
    match &stmt.body {
        InsertBody::Unsupported(text) => InsertPlan::Failure(
            Diagnostic::UnsupportedStatement(text.clone()),
        ),
        InsertBody::Values(lines) => {
            if !catalog.schema_exists {
                return InsertPlan::Failure(Diagnostic::SchemaNotFound(stmt.schema_name.clone()));
            }
            if !catalog.table_exists {
                return InsertPlan::Failure(
                    Diagnostic::TableNotFound {
                        schema: stmt.schema_name.clone(),
                        table: stmt.table_name.clone(),
                    },
                );
            }
            match map_columns(&stmt.column_names, &catalog.columns) {
                Err(missing) => InsertPlan::Failure(Diagnostic::ColumnNotFound(missing)),
                Ok(mapping) => match prepare_rows(lines, &mapping, &catalog.columns) {
                    Err(Abort::Diag(d)) => InsertPlan::Failure(d),
                    Err(Abort::Silent) => InsertPlan::AlreadyReported,
                    Ok(rows) => InsertPlan::Rows(rows),
                },
            }
        },
    }
}

} // verus!
