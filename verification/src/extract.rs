//! The table extractor: from document text to parallel numeric columns.
//!
//! The markup work — parsing the document and selecting the matched rows and
//! their cells — is done by scraper behind `doc_rows`; everything after runs
//! on plain text: `extract_rows` trims each configured cell, converts it
//! under the numeric grammar, and accumulates one value sequence per
//! configured column, in row-encounter order. A missing cell skips that
//! column for that row; a present cell that is not numeric aborts the run
//! with the first such failure in row-major order.

use vstd::prelude::*;
use crate::config::specs_wf;
use crate::config::ColumnSpec;
use crate::error::PipelineError;
use crate::num::is_number;
use crate::num::Num;
use crate::text::trim;
use crate::text::trim_spec;

verus! {

/// What scraper finds in `doc` for the row query of `table_class`: one entry
/// per `tr` of the tables carrying that class, in document order; per row,
/// one entry per direct `td` child, in order, holding the cell's first text
/// node (empty when the cell has none).
pub uninterp spec fn rows_of(table_class: Seq<char>, doc: Seq<char>) -> Seq<Seq<Seq<char>>>;

/// Relies on scraper: `Html::parse_document` accepts any input text without
/// failing, `Html::select` yields the elements matching `table.<class> tr`
/// in document order, `ElementRef::select` on `:scope > td` yields the
/// row's direct `td` children in order, and `ElementRef::text` yields the
/// descendant text nodes in order, of which the first is taken. The
/// selectors parse for every well-formed class name, so the unwraps cannot
/// fail.
#[verifier::external_body]
fn doc_rows(class: &str, doc: &str) -> (rows: Vec<Vec<String>>)
    requires
        crate::config::is_class_name(class@),
    ensures
        rows.deep_view() == rows_of(class@, doc@),
{
    let row_sel = scraper::Selector::parse(&format!("table.{} tr", class)).unwrap();
    let cell_sel = scraper::Selector::parse(":scope > td").unwrap();
    let html = scraper::Html::parse_document(doc);
    let mut rows = Vec::new();
    for row in html.select(&row_sel) {
        rows.push(
            row.select(&cell_sel).map(|c| c.text().next().unwrap_or("").to_string()).collect(),
        );
    }
    rows
}

/// Whether `row` has a cell at the 1-based position `ordinal`.
pub open spec fn cell_present(row: Seq<Seq<char>>, ordinal: int) -> bool {
    1 <= ordinal <= row.len()
}

/// The untrimmed text of the cell at 1-based position `ordinal`.
pub open spec fn raw_cell(row: Seq<Seq<char>>, ordinal: int) -> Seq<char> {
    row[ordinal - 1]
}

/// The trimmed text of the cell at 1-based position `ordinal`.
pub open spec fn cell_value(row: Seq<Seq<char>>, ordinal: int) -> Seq<char> {
    trim_spec(raw_cell(row, ordinal))
}

/// Whether the cell for column `j` of row `i` is present but not numeric —
/// the condition that aborts a run.
pub open spec fn cell_bad(rows: Seq<Seq<Seq<char>>>, specs: Seq<ColumnSpec>, i: int, j: int) -> bool {
    &&& cell_present(rows[i], specs[j].ordinal as int)
    &&& !is_number(cell_value(rows[i], specs[j].ordinal as int))
}

/// The cell for column `j` of row `i` is the first aborting cell in
/// row-major order.
pub open spec fn first_bad_at(
    rows: Seq<Seq<Seq<char>>>,
    specs: Seq<ColumnSpec>,
    i: int,
    j: int,
) -> bool {
    &&& 0 <= i < rows.len()
    &&& 0 <= j < specs.len()
    &&& cell_bad(rows, specs, i, j)
    &&& no_bad_before(rows, specs, i, j)
}

/// No aborting cell stands before position (`i`, `j`) in row-major order.
pub open spec fn no_bad_before(
    rows: Seq<Seq<Seq<char>>>,
    specs: Seq<ColumnSpec>,
    i: int,
    j: int,
) -> bool {
    forall|i2: int, j2: int|
        0 <= i2 < rows.len() && 0 <= j2 < specs.len() && (i2 < i || (i2 == i && j2 < j))
            ==> !cell_bad(rows, specs, i2, j2)
}

/// Every present configured cell over all rows is numeric.
pub open spec fn all_good(rows: Seq<Seq<Seq<char>>>, specs: Seq<ColumnSpec>) -> bool {
    forall|i: int, j: int|
        0 <= i < rows.len() && 0 <= j < specs.len() ==> !cell_bad(rows, specs, i, j)
}

/// The value sequence of the column at 1-based cell position `ordinal`: the
/// trimmed cell texts of the rows that have that cell, in row order.
pub open spec fn column_model(rows: Seq<Seq<Seq<char>>>, ordinal: int) -> Seq<Seq<char>>
    decreases rows.len(),
{
    if rows.len() == 0 {
        Seq::empty()
    } else {
        let init = column_model(rows.drop_last(), ordinal);
        if cell_present(rows.last(), ordinal) {
            init.push(cell_value(rows.last(), ordinal))
        } else {
            init
        }
    }
}

/// The four (or N) ordered value sequences of an extraction run, one per
/// configured column, never changed after construction.
#[derive(Debug)]
pub struct ExtractedTable {
    columns: Vec<Vec<Num>>,
}

impl View for ExtractedTable {
    type V = Seq<Seq<Seq<char>>>;

    closed spec fn view(&self) -> Seq<Seq<Seq<char>>> {
        self.columns.deep_view()
    }
}

/// Every value text of every column is numeric.
pub open spec fn table_wf(v: Seq<Seq<Seq<char>>>) -> bool {
    forall|j: int, i: int| 0 <= j < v.len() && 0 <= i < v[j].len() ==> is_number(v[j][i])
}

impl ExtractedTable {
    pub open spec fn wf(self) -> bool {
        table_wf(self@)
    }

    /// Wraps the given value sequences, one per column in configuration
    /// order, as a table.
    pub fn from_columns(columns: Vec<Vec<Num>>) -> (r: ExtractedTable)
        ensures
            r@ == columns.deep_view(),
    {
        ExtractedTable { columns }
    }

    /// The number of columns.
    pub fn column_count(&self) -> (n: usize)
        ensures
            n == self@.len(),
    {
        self.columns.len()
    }

    /// The number of values in column `j`.
    pub fn column_len(&self, j: usize) -> (n: usize)
        requires
            j < self@.len(),
        ensures
            n == self@[j as int].len(),
    {
        self.columns[j].len()
    }

    /// The value at row position `i` of column `j`.
    pub fn value(&self, j: usize, i: usize) -> (v: &Num)
        requires
            j < self@.len(),
            i < self@[j as int].len(),
        ensures
            v@ == self@[j as int][i as int],
    {
        &self.columns[j][i]
    }

    /// Whether every held value is numeric; always true of a table built by
    /// `extract`, and what `export` asks of its input.
    pub fn is_well_formed(&self) -> (b: bool)
        ensures
            b == self.wf(),
    {
        let mut j: usize = 0;
        while j < self.columns.len()
            invariant
                j <= self@.len(),
                forall|j2: int, i2: int|
                    0 <= j2 < j && 0 <= i2 < self@[j2].len() ==> is_number(self@[j2][i2]),
            decreases self@.len() - j,
        {
            let col = &self.columns[j];
            let mut i: usize = 0;
            while i < col.len()
                invariant
                    j < self@.len(),
                    col.deep_view() == self@[j as int],
                    i <= col@.len(),
                    col@.len() == self@[j as int].len(),
                    forall|i2: int| 0 <= i2 < i ==> is_number(self@[j as int][i2]),
                decreases col@.len() - i,
            {
                if !crate::num::check_number(col[i].as_text()) {
                    proof {
                        assert(col.deep_view()[i as int] == col@[i as int]@);
                        assert(!is_number(self@[j as int][i as int]));
                    }
                    return false;
                }
                i = i + 1;
            }
            j = j + 1;
        }
        true
    }
}

/// What `extract` and `extract_rows` promise of their result: success
/// exactly when no present configured cell fails numeric conversion, and
/// then one full value sequence per configured column; otherwise the error
/// names the first failing cell in row-major order, with the column's name
/// and the cell's untrimmed text.
pub open spec fn extract_post(
    rows: Seq<Seq<Seq<char>>>,
    specs: Seq<ColumnSpec>,
    r: Result<ExtractedTable, PipelineError>,
) -> bool {
    match r {
        Ok(t) => {
            &&& all_good(rows, specs)
            &&& t@.len() == specs.len()
            &&& (forall|j: int|
                0 <= j < specs.len() ==> t@[j] == column_model(rows, specs[j].ordinal as int))
            &&& t.wf()
        },
        Err(e) => e matches PipelineError::ValueParse { row, column, text } && (exists|j: int|
            #[trigger] first_bad_at(rows, specs, row as int, j) && column@ == specs[j].name@
                && text@ == raw_cell(rows[row as int], specs[j].ordinal as int)),
    }
}

/// The value conversion stage alone, on the rows the markup query found:
/// each row's configured cells are trimmed and converted, absent cells are
/// skipped, and the first present non-numeric cell aborts the run.
pub fn extract_rows(rows: &Vec<Vec<String>>, specs: &Vec<ColumnSpec>) -> (r: Result<
    ExtractedTable,
    PipelineError,
>)
    requires
        specs_wf(specs@),
    ensures
        extract_post(rows.deep_view(), specs@, r),
{
    let ghost rv = rows.deep_view();
    let ghost sv = specs@;
    // First pass: find the first failing cell, in row-major order.
    let mut i: usize = 0;
    while i < rows.len()
        invariant
            rv == rows.deep_view(),
            sv == specs@,
            specs_wf(sv),
            i <= rv.len(),
            rv.len() == rows@.len(),
            forall|i2: int, j2: int|
                0 <= i2 < i && 0 <= j2 < sv.len() ==> !cell_bad(rv, sv, i2, j2),
        decreases rv.len() - i,
    {
        let row = &rows[i];
        let mut j: usize = 0;
        while j < specs.len()
            invariant
                rv == rows.deep_view(),
                sv == specs@,
                specs_wf(sv),
                i < rv.len(),
                rv.len() == rows@.len(),
                row.deep_view() == rv[i as int],
                row@.len() == rv[i as int].len(),
                j <= sv.len(),
                forall|i2: int, j2: int|
                    0 <= i2 < i && 0 <= j2 < sv.len() ==> !cell_bad(rv, sv, i2, j2),
                forall|j2: int| 0 <= j2 < j ==> !cell_bad(rv, sv, i as int, j2),
            decreases sv.len() - j,
        {
            let sp = &specs[j];
            let ord = sp.ordinal;
            if ord <= row.len() {
                let raw = &row[ord - 1];
                let t = trim(raw.as_str());
                proof {
                    assert(raw@ == rv[i as int][ord - 1]);
                }
                if !crate::num::check_number(t.as_str()) {
                    let column = sp.name.clone();
                    let text = raw.clone();
                    proof {
                        assert(sv[j as int].wf());
                        assert(cell_bad(rv, sv, i as int, j as int));
                        assert(no_bad_before(rv, sv, i as int, j as int));
                        assert(first_bad_at(rv, sv, i as int, j as int));
                        assert(column@ == sv[j as int].name@);
                        assert(text@ == raw_cell(rv[i as int], sv[j as int].ordinal as int));
                    }
                    let e = PipelineError::ValueParse { row: i, column, text };
                    proof {
                        assert(e matches PipelineError::ValueParse { row, column, text } && row
                            == i);
                        assert(exists|j2: int| first_bad_at(rv, sv, i as int, j2));
                        assert(extract_post(rv, sv, Err(e)));
                    }
                    return Err(e);
                }
            }
            j = j + 1;
        }
        i = i + 1;
    }
    // Second pass: no cell can fail, so fill the columns.
    proof {
        assert(all_good(rv, sv));
    }
    let mut cols: Vec<Vec<Num>> = Vec::new();
    let mut j: usize = 0;
    while j < specs.len()
        invariant
            rv == rows.deep_view(),
            sv == specs@,
            specs_wf(sv),
            all_good(rv, sv),
            rv.len() == rows@.len(),
            j <= sv.len(),
            cols@.len() == j,
            forall|j2: int|
                0 <= j2 < j ==> cols.deep_view()[j2] == column_model(rv, sv[j2].ordinal as int),
            forall|j2: int, i2: int|
                0 <= j2 < j && 0 <= i2 < cols.deep_view()[j2].len() ==> is_number(
                    cols.deep_view()[j2][i2],
                ),
        decreases sv.len() - j,
    {
        let sp = &specs[j];
        let ord = sp.ordinal;
        let mut col: Vec<Num> = Vec::new();
        let mut i: usize = 0;
        while i < rows.len()
            invariant
                rv == rows.deep_view(),
                sv == specs@,
                specs_wf(sv),
                all_good(rv, sv),
                rv.len() == rows@.len(),
                j < sv.len(),
                ord == sv[j as int].ordinal,
                ord >= 1,
                i <= rv.len(),
                col.deep_view() == column_model(rv.take(i as int), ord as int),
                forall|t: int| 0 <= t < col.deep_view().len() ==> is_number(col.deep_view()[t]),
            decreases rv.len() - i,
        {
            let row = &rows[i];
            proof {
                assert(rv.take(i + 1).drop_last() =~= rv.take(i as int));
                assert(rv.take(i + 1).last() == rv[i as int]);
                assert(row.deep_view() == rv[i as int]);
            }
            if ord <= row.len() {
                let raw = &row[ord - 1];
                let t = trim(raw.as_str());
                proof {
                    assert(raw@ == rv[i as int][ord - 1]);
                    assert(!cell_bad(rv, sv, i as int, j as int));
                    assert(is_number(t@));
                }
                match Num::new(t) {
                    Some(v) => {
                        col.push(v);
                        proof {
                            assert(col.deep_view() =~= column_model(
                                rv.take(i + 1),
                                ord as int,
                            ));
                        }
                    },
                    None => {
                        proof {
                            assert(false);
                        }
                    },
                }
            } else {
                proof {
                    assert(!cell_present(rv[i as int], ord as int));
                    assert(col.deep_view() =~= column_model(rv.take(i + 1), ord as int));
                }
            }
            i = i + 1;
        }
        proof {
            assert(rv.take(rv.len() as int) =~= rv);
            assert(col.deep_view() == column_model(rv, ord as int));
        }
        let ghost prev = cols.deep_view();
        let ghost colv = col.deep_view();
        cols.push(col);
        proof {
            assert(cols@.len() == j + 1);
            assert forall|j2: int| 0 <= j2 < j + 1 implies cols.deep_view()[j2] == column_model(
                rv,
                sv[j2].ordinal as int,
            ) by {
                assert(cols.deep_view()[j2] == cols@[j2].deep_view());
                if j2 < j as int {
                    assert(cols@[j2].deep_view() == prev[j2]);
                } else {
                    assert(cols@[j2].deep_view() == colv);
                }
            }
            assert forall|j2: int, i2: int|
                0 <= j2 < j + 1 && 0 <= i2 < cols.deep_view()[j2].len() implies is_number(
                cols.deep_view()[j2][i2],
            ) by {
                assert(cols.deep_view()[j2] == cols@[j2].deep_view());
                if j2 < j as int {
                    assert(cols@[j2].deep_view() == prev[j2]);
                } else {
                    assert(cols@[j2].deep_view() == colv);
                }
            }
        }
        j = j + 1;
    }
    let t = ExtractedTable { columns: cols };
    proof {
        assert(t@.len() == sv.len());
    }
    Ok(t)
}

/// The whole extractor: finds the configured table's rows in `doc` and runs
/// the value conversion on them. The permissive markup parser builds a tree
/// for any input, so a run never fails for want of document structure; the
/// only failure is a present cell that is not numeric.
pub fn extract(doc: &str, query: &crate::config::TableQuery, specs: &Vec<ColumnSpec>) -> (r: Result<
    ExtractedTable,
    PipelineError,
>)
    requires
        query.wf(),
        specs_wf(specs@),
    ensures
        extract_post(rows_of(query.class(), doc@), specs@, r),
{
    let rows = doc_rows(query.class_text(), doc);
    extract_rows(&rows, specs)
}

/// When every configured cell position is present in every row, a column's
/// value sequence has one entry per row, each the trimmed text of that
/// row's cell, in row order.
proof fn lemma_column_full(rows: Seq<Seq<Seq<char>>>, ordinal: int)
    requires
        forall|i: int| 0 <= i < rows.len() ==> cell_present(#[trigger] rows[i], ordinal),
    ensures
        column_model(rows, ordinal).len() == rows.len(),
        forall|i: int|
            0 <= i < rows.len() ==> column_model(rows, ordinal)[i] == cell_value(
                #[trigger] rows[i],
                ordinal,
            ),
    decreases rows.len(),
{
    if rows.len() > 0 {
        let init = rows.drop_last();
        assert(forall|i: int| 0 <= i < init.len() ==> init[i] == rows[i]);
        lemma_column_full(init, ordinal);
    }
}

/// When the cell position is present in every row but one, that column's
/// value sequence shrinks by exactly one relative to the row count — the
/// skipped row contributes no value, and no other row's value moves slots.
proof fn lemma_column_one_missing(rows: Seq<Seq<Seq<char>>>, ordinal: int, k: int)
    requires
        0 <= k < rows.len(),
        !cell_present(rows[k], ordinal),
        forall|i: int| 0 <= i < rows.len() && i != k ==> cell_present(#[trigger] rows[i], ordinal),
    ensures
        column_model(rows, ordinal).len() == rows.len() - 1,
    decreases rows.len(),
{
    let init = rows.drop_last();
    assert(forall|i: int| 0 <= i < init.len() ==> init[i] == rows[i]);
    if k == rows.len() - 1 {
        lemma_column_full(init, ordinal);
    } else {
        lemma_column_one_missing(init, ordinal, k);
    }
}

/// For rows that hold a numeric cell at every configured position,
/// extraction succeeds with one sequence per configured column, each with
/// exactly one value — the trimmed cell text — per row, in row order.
pub proof fn lemma_extract_all_present(
    rows: Seq<Seq<Seq<char>>>,
    specs: Seq<ColumnSpec>,
    r: Result<ExtractedTable, PipelineError>,
)
    requires
        extract_post(rows, specs, r),
        forall|i: int, j: int|
            0 <= i < rows.len() && 0 <= j < specs.len() ==> cell_present(
                #[trigger] rows[i],
                #[trigger] specs[j].ordinal as int,
            ) && is_number(cell_value(rows[i], specs[j].ordinal as int)),
    ensures
        r is Ok,
        r matches Ok(t) ==> {
            &&& t@.len() == specs.len()
            &&& (forall|j: int| 0 <= j < specs.len() ==> (#[trigger] t@[j]).len() == rows.len())
            &&& (forall|i: int, j: int|
                0 <= i < rows.len() && 0 <= j < specs.len() ==> t@[j][i] == cell_value(
                    #[trigger] rows[i],
                    #[trigger] specs[j].ordinal as int,
                ))
        },
{
    match r {
        Ok(t) => {
            assert forall|j: int| 0 <= j < specs.len() implies (#[trigger] t@[j]).len()
                == rows.len() && (forall|i: int|
                0 <= i < rows.len() ==> t@[j][i] == cell_value(
                    rows[i],
                    specs[j].ordinal as int,
                )) by {
                lemma_column_full(rows, specs[j].ordinal as int);
            }
        },
        Err(e) => {
            let j = choose|j: int|
                first_bad_at(rows, specs, e->ValueParse_row as int, j) && e->ValueParse_column@
                    == specs[j].name@ && e->ValueParse_text@ == raw_cell(
                    rows[e->ValueParse_row as int],
                    specs[j].ordinal as int,
                );
            assert(cell_bad(rows, specs, e->ValueParse_row as int, j));
            assert(false);
        },
    }
}

/// When exactly one row is missing the cell of one configured column and
/// every other configured cell is numeric, extraction still succeeds: that
/// column's sequence is shorter by exactly one, while every other column
/// keeps one value per row.
pub proof fn lemma_extract_one_missing(
    rows: Seq<Seq<Seq<char>>>,
    specs: Seq<ColumnSpec>,
    r: Result<ExtractedTable, PipelineError>,
    k: int,
    j0: int,
)
    requires
        extract_post(rows, specs, r),
        0 <= k < rows.len(),
        0 <= j0 < specs.len(),
        !cell_present(rows[k], specs[j0].ordinal as int),
        forall|i: int, j: int|
            0 <= i < rows.len() && 0 <= j < specs.len() && !(i == k && j == j0)
                ==> cell_present(#[trigger] rows[i], #[trigger] specs[j].ordinal as int)
                && is_number(cell_value(rows[i], specs[j].ordinal as int)),
    ensures
        r is Ok,
        r matches Ok(t) ==> {
            &&& t@.len() == specs.len()
            &&& t@[j0].len() == rows.len() - 1
            &&& (forall|j: int|
                0 <= j < specs.len() && j != j0 ==> (#[trigger] t@[j]).len() == rows.len())
        },
{
    match r {
        Ok(t) => {
            lemma_column_one_missing(rows, specs[j0].ordinal as int, k);
            assert forall|j: int| 0 <= j < specs.len() && j != j0 implies (
            #[trigger] t@[j]).len() == rows.len() by {
                lemma_column_full(rows, specs[j].ordinal as int);
            }
        },
        Err(e) => {
            let j = choose|j: int|
                first_bad_at(rows, specs, e->ValueParse_row as int, j) && e->ValueParse_column@
                    == specs[j].name@ && e->ValueParse_text@ == raw_cell(
                    rows[e->ValueParse_row as int],
                    specs[j].ordinal as int,
                );
            assert(cell_bad(rows, specs, e->ValueParse_row as int, j));
            assert(false);
        },
    }
}

/// A present configured cell whose trimmed text is not numeric makes the
/// run fail, and the failure is a value-parse error.
pub proof fn lemma_bad_cell_fails(
    rows: Seq<Seq<Seq<char>>>,
    specs: Seq<ColumnSpec>,
    r: Result<ExtractedTable, PipelineError>,
    i: int,
    j: int,
)
    requires
        extract_post(rows, specs, r),
        0 <= i < rows.len(),
        0 <= j < specs.len(),
        cell_bad(rows, specs, i, j),
    ensures
        r is Err,
        r matches Err(e) ==> e is ValueParse,
{
}

} // verus!
