//! The exporter: serializes an extracted table as comma-separated text.
//!
//! One header record with the configured column names in order, then one
//! record per row position, fields in column order, each value written as
//! its decimal text. Record formatting is csv's, under its default
//! configuration; where columns are of unequal length the output is
//! truncated to the shortest column, so every written row is complete.
//! Writing the text to its destination is the caller's side of the split.

use vstd::prelude::*;
use crate::config::ColumnSpec;
use crate::extract::ExtractedTable;
use crate::num::is_digit;
use crate::num::is_number;
use crate::num::is_unsigned_number;

verus! {

/// What csv's default writer makes of one record: the given fields in
/// order, separated by commas, quoted where their text demands it, and a
/// terminating newline.
pub uninterp spec fn csv_record_of(fields: Seq<Seq<char>>) -> Seq<char>;

/// A field that csv's default writer passes through unquoted.
pub open spec fn plain_field(f: Seq<char>) -> bool {
    forall|k: int| 0 <= k < f.len() ==> f[k] != ',' && f[k] != '"' && f[k] != '\n' && f[k] != '\r'
}

/// A record that csv's default writer passes through with no quoting at
/// all: every field plain, and not the degenerate single empty field that
/// the writer quotes to keep the record visible.
pub open spec fn plain_fields(fs: Seq<Seq<char>>) -> bool {
    &&& fs.len() >= 1
    &&& (forall|j: int| 0 <= j < fs.len() ==> plain_field(#[trigger] fs[j]))
    &&& (fs.len() == 1 ==> fs[0].len() > 0)
}

/// The fields joined by single commas.
pub open spec fn join_comma(fs: Seq<Seq<char>>) -> Seq<char>
    decreases fs.len(),
{
    if fs.len() == 0 {
        Seq::empty()
    } else if fs.len() == 1 {
        fs[0]
    } else {
        fs[0].push(',') + join_comma(fs.drop_first())
    }
}

/// The position of the first comma of `s`, or its length when it has none.
pub open spec fn first_comma(s: Seq<char>) -> nat
    decreases s.len(),
{
    if s.len() == 0 {
        0
    } else if s[0] == ',' {
        0
    } else {
        1 + first_comma(s.drop_first())
    }
}

/// `s` cut at every comma: what a reader of one unquoted record gets back.
pub open spec fn split_comma(s: Seq<char>) -> Seq<Seq<char>>
    decreases s.len(),
{
    let k = first_comma(s) as int;
    if k >= s.len() {
        seq![s]
    } else {
        seq![s.take(k)] + split_comma(s.skip(k + 1))
    }
}

/// Relies on csv::Writer under its default configuration, writing one
/// record into memory: fields come out separated by `,` and terminated by
/// `\n`, and a field is quoted exactly when it holds `,`, `"`, `\n` or
/// `\r`, or is the sole field and empty. Writing into a Vec cannot fail
/// and csv records are built from the given UTF-8 text, so the unwraps
/// cannot fail.
#[verifier::external_body]
fn csv_record_line(fields: &Vec<String>) -> (r: String)
    ensures
        r@ == csv_record_of(fields.deep_view()),
        plain_fields(fields.deep_view()) ==> r@ == join_comma(fields.deep_view()).push('\n'),
{
    let mut w = csv::Writer::from_writer(Vec::new());
    w.write_record(fields).unwrap();
    String::from_utf8(w.into_inner().unwrap()).unwrap()
}

/// The header record's fields: the configured column names, in order.
pub open spec fn header_fields(specs: Seq<ColumnSpec>) -> Seq<Seq<char>> {
    Seq::new(specs.len(), |j: int| specs[j].name@)
}

/// The fields of the record for row position `i`: one value per column, in
/// column order.
pub open spec fn row_fields(cols: Seq<Seq<Seq<char>>>, i: int) -> Seq<Seq<char>> {
    Seq::new(cols.len(), |j: int| cols[j][i])
}

/// The number of rows written: the length of the shortest column (zero
/// when there are no columns).
pub open spec fn row_count(cols: Seq<Seq<Seq<char>>>) -> nat
    decreases cols.len(),
{
    if cols.len() == 0 {
        0
    } else if cols.len() == 1 {
        cols.last().len()
    } else {
        let m = row_count(cols.drop_last());
        if cols.last().len() < m {
            cols.last().len()
        } else {
            m
        }
    }
}

/// No column is shorter than the row count.
pub proof fn lemma_row_count_le(cols: Seq<Seq<Seq<char>>>, j: int)
    requires
        0 <= j < cols.len(),
    ensures
        row_count(cols) <= cols[j].len(),
    decreases cols.len(),
{
    if j < cols.len() - 1 {
        lemma_row_count_le(cols.drop_last(), j);
        assert(cols.drop_last()[j] == cols[j]);
    }
}

/// The value records for the first `k` row positions, concatenated.
pub open spec fn rows_text(cols: Seq<Seq<Seq<char>>>, k: int) -> Seq<char>
    decreases k,
{
    if k <= 0 {
        Seq::empty()
    } else {
        rows_text(cols, k - 1) + csv_record_of(row_fields(cols, k - 1))
    }
}

/// The whole exported text: the header record, then one record per row
/// position up to the shortest column's length.
pub open spec fn export_model(cols: Seq<Seq<Seq<char>>>, specs: Seq<ColumnSpec>) -> Seq<char> {
    csv_record_of(header_fields(specs)) + rows_text(cols, row_count(cols) as int)
}

/// Serializes `table` under the column names of `specs` and returns the
/// comma-separated text for the caller to write out.
pub fn export(table: &ExtractedTable, specs: &Vec<ColumnSpec>) -> (out: String)
    requires
        table.wf(),
        table@.len() == specs@.len(),
    ensures
        out@ == export_model(table@, specs@),
{
    let n = table.column_count();
    // the header record
    let mut fields: Vec<String> = Vec::new();
    let mut j: usize = 0;
    while j < n
        invariant
            n == table@.len(),
            table@.len() == specs@.len(),
            j <= n,
            fields@.len() == j,
            forall|t: int| 0 <= t < j ==> fields@[t]@ == specs@[t].name@,
        decreases n - j,
    {
        let sp = &specs[j];
        fields.push(sp.name.clone());
        j = j + 1;
    }
    proof {
        assert(fields.deep_view() =~= header_fields(specs@));
    }
    let mut out = csv_record_line(&fields);
    proof {
        assert(out@ =~= csv_record_of(header_fields(specs@)) + rows_text(table@, 0));
    }
    // the shortest column's length
    let mut m: usize = 0;
    let mut j2: usize = 0;
    while j2 < n
        invariant
            n == table@.len(),
            j2 <= n,
            m == row_count(table@.take(j2 as int)),
        decreases n - j2,
    {
        let l = table.column_len(j2);
        proof {
            assert(table@.take(j2 + 1).drop_last() =~= table@.take(j2 as int));
            assert(table@.take(j2 + 1).last() == table@[j2 as int]);
        }
        if j2 == 0 {
            m = l;
        } else if l < m {
            m = l;
        }
        j2 = j2 + 1;
    }
    proof {
        assert(table@.take(n as int) =~= table@);
    }
    // one record per row position
    let mut i: usize = 0;
    while i < m
        invariant
            n == table@.len(),
            table@.len() == specs@.len(),
            table.wf(),
            m == row_count(table@),
            i <= m,
            out@ == csv_record_of(header_fields(specs@)) + rows_text(table@, i as int),
        decreases m - i,
    {
        let mut rowf: Vec<String> = Vec::new();
        let mut j3: usize = 0;
        while j3 < n
            invariant
                n == table@.len(),
                m == row_count(table@),
                i < m,
                j3 <= n,
                rowf@.len() == j3,
                forall|t: int| 0 <= t < j3 ==> rowf@[t]@ == table@[t][i as int],
            decreases n - j3,
        {
            proof {
                lemma_row_count_le(table@, j3 as int);
            }
            let v = table.value(j3, i);
            rowf.push(v.to_text());
            j3 = j3 + 1;
        }
        proof {
            assert(rowf.deep_view() =~= row_fields(table@, i as int));
        }
        let line = csv_record_line(&rowf);
        out.append(line.as_str());
        proof {
            assert(out@ =~= csv_record_of(header_fields(specs@)) + rows_text(table@, i + 1));
        }
        i = i + 1;
    }
    out
}

/// Text in the numeric grammar holds only signs, digits and a decimal
/// point, so the record writer passes every extracted value through
/// unquoted.
pub proof fn lemma_number_plain(s: Seq<char>)
    requires
        is_number(s),
    ensures
        plain_field(s),
{
    assert forall|k: int| 0 <= k < s.len() implies s[k] != ',' && s[k] != '"' && s[k] != '\n'
        && s[k] != '\r' by {
        if s.len() > 0 && (s[0] == '+' || s[0] == '-') {
            if k > 0 {
                let u = s.subrange(1, s.len() as int);
                assert(u[k - 1] == s[k]);
                assert(is_digit(u[k - 1]) || u[k - 1] == '.');
            }
        } else {
            assert(is_digit(s[k]) || s[k] == '.');
        }
    }
}

/// A value record of a well-formed table is entirely plain: every field is
/// numeric text, and even a single-column record is non-empty. Together
/// with what the record writer promises of plain records, each exported
/// value row is simply its values joined by commas.
pub proof fn lemma_wf_row_plain(cols: Seq<Seq<Seq<char>>>, i: int)
    requires
        crate::extract::table_wf(cols),
        cols.len() >= 1,
        forall|j: int| 0 <= j < cols.len() ==> i < (#[trigger] cols[j]).len(),
        0 <= i,
    ensures
        plain_fields(row_fields(cols, i)),
{
    let fs = row_fields(cols, i);
    assert forall|j: int| 0 <= j < fs.len() implies plain_field(#[trigger] fs[j]) by {
        assert(is_number(cols[j][i]));
        lemma_number_plain(cols[j][i]);
    }
    if fs.len() == 1 {
        assert(is_number(cols[0][i]));
        assert(is_unsigned_number(cols[0][i]) || is_unsigned_number(
            cols[0][i].subrange(1, cols[0][i].len() as int),
        ));
    }
}

/// The first comma of `s` is at `m` when everything before `m` is not a
/// comma and `m` is a comma or the end.
proof fn lemma_first_comma_at(s: Seq<char>, m: int)
    requires
        0 <= m <= s.len(),
        forall|k: int| 0 <= k < m ==> s[k] != ',',
        m < s.len() ==> s[m] == ',',
    ensures
        first_comma(s) == m,
    decreases s.len(),
{
    if m > 0 {
        let d = s.drop_first();
        assert(forall|k: int| 0 <= k < d.len() ==> d[k] == s[k + 1]);
        lemma_first_comma_at(d, m - 1);
    }
}

/// Splitting on commas undoes joining, for one or more comma-free fields:
/// a reader that cuts one unquoted record at its commas gets the fields
/// back exactly.
pub proof fn lemma_split_comma_join(fs: Seq<Seq<char>>)
    requires
        fs.len() >= 1,
        forall|j: int, k: int|
            0 <= j < fs.len() && 0 <= k < fs[j].len() ==> #[trigger] fs[j][k] != ',',
    ensures
        split_comma(join_comma(fs)) == fs,
    decreases fs.len(),
{
    let s = join_comma(fs);
    let f0 = fs[0];
    if fs.len() == 1 {
        lemma_first_comma_at(s, s.len() as int);
        assert(split_comma(s) =~= fs);
    } else {
        let rest = fs.drop_first();
        assert(s == f0.push(',') + join_comma(rest));
        assert(forall|k: int| 0 <= k < f0.len() ==> s[k] == f0[k]);
        assert(s[f0.len() as int] == ',');
        lemma_first_comma_at(s, f0.len() as int);
        assert(s.take(f0.len() as int) =~= f0);
        assert(s.skip(f0.len() as int + 1) =~= join_comma(rest));
        assert(forall|j: int| 0 <= j < rest.len() ==> rest[j] == fs[j + 1]);
        lemma_split_comma_join(rest);
        assert(split_comma(s) =~= fs);
    }
}

/// Round trip of a value record: for a well-formed table, the record of
/// row position `i` holds no quoting, and cutting it at its commas yields
/// exactly the row's values, one per column, in column order.
pub proof fn lemma_row_round_trip(cols: Seq<Seq<Seq<char>>>, i: int)
    requires
        crate::extract::table_wf(cols),
        cols.len() >= 1,
        0 <= i,
        forall|j: int| 0 <= j < cols.len() ==> i < (#[trigger] cols[j]).len(),
    ensures
        plain_fields(row_fields(cols, i)),
        split_comma(join_comma(row_fields(cols, i))) == row_fields(cols, i),
{
    lemma_wf_row_plain(cols, i);
    let fs = row_fields(cols, i);
    assert forall|j: int, k: int|
        0 <= j < fs.len() && 0 <= k < fs[j].len() implies #[trigger] fs[j][k] != ',' by {
        assert(plain_field(fs[j]));
    }
    lemma_split_comma_join(fs);
}

} // verus!
