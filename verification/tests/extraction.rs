use price_scrape::ColumnSpec;
use price_scrape::PipelineError;
use price_scrape::TableQuery;
use price_scrape::extract;
use price_scrape::extract_rows;

fn spec(name: &str, ordinal: usize) -> ColumnSpec {
    ColumnSpec::new(name.to_string(), ordinal).unwrap()
}

fn row(cells: &[&str]) -> Vec<String> {
    cells.iter().map(|c| c.to_string()).collect()
}

#[test]
fn full_rows_give_full_parallel_columns() {
    let rows = vec![
        row(&["1.0", "2.0", "3.0"]),
        row(&["4.5", "5.5", "6.5"]),
        row(&["7.25", "8.25", "9.25"]),
    ];
    let specs = vec![spec("A", 1), spec("B", 2), spec("C", 3)];
    let table = extract_rows(&rows, &specs).unwrap();
    assert_eq!(table.column_count(), 3);
    for j in 0..3 {
        assert_eq!(table.column_len(j), 3);
    }
    assert_eq!(table.value(0, 0).as_text(), "1.0");
    assert_eq!(table.value(0, 1).as_text(), "4.5");
    assert_eq!(table.value(0, 2).as_text(), "7.25");
    assert_eq!(table.value(1, 0).as_text(), "2.0");
    assert_eq!(table.value(2, 2).as_text(), "9.25");
}

#[test]
fn missing_cell_shrinks_only_that_column() {
    // The middle row has no third cell: the column at ordinal 3 skips that
    // row, the others keep one value per row.
    let rows = vec![
        row(&["1.0", "2.0", "3.0"]),
        row(&["4.5", "5.5"]),
        row(&["7.25", "8.25", "9.25"]),
    ];
    let specs = vec![spec("A", 1), spec("C", 3)];
    let table = extract_rows(&rows, &specs).unwrap();
    assert_eq!(table.column_count(), 2);
    assert_eq!(table.column_len(0), 3);
    assert_eq!(table.column_len(1), 2);
    assert_eq!(table.value(1, 0).as_text(), "3.0");
    assert_eq!(table.value(1, 1).as_text(), "9.25");
}

#[test]
fn non_numeric_cell_fails_with_first_value_parse_error() {
    let rows = vec![
        row(&["1.0", "2.0"]),
        row(&["N/A", "also bad"]),
        row(&["7.25", "8.25"]),
    ];
    let specs = vec![spec("Left", 1), spec("Right", 2)];
    let err = extract_rows(&rows, &specs).unwrap_err();
    assert_eq!(
        err,
        PipelineError::ValueParse {
            row: 1,
            column: "Left".to_string(),
            text: "N/A".to_string(),
        }
    );
}

#[test]
fn empty_cell_text_is_a_value_parse_error() {
    let rows = vec![row(&["1.0", ""])];
    let specs = vec![spec("A", 1), spec("B", 2)];
    let err = extract_rows(&rows, &specs).unwrap_err();
    assert_eq!(
        err,
        PipelineError::ValueParse { row: 0, column: "B".to_string(), text: "".to_string() }
    );
}

#[test]
fn surrounding_whitespace_is_trimmed_before_parsing() {
    let rows = vec![row(&["  10.5 \n", "\t-3.25"])];
    let specs = vec![spec("A", 1), spec("B", 2)];
    let table = extract_rows(&rows, &specs).unwrap();
    assert_eq!(table.value(0, 0).as_text(), "10.5");
    assert_eq!(table.value(1, 0).as_text(), "-3.25");
}

#[test]
fn no_break_space_padding_is_trimmed() {
    let rows = vec![row(&["\u{a0}10.5\u{a0}"])];
    let specs = vec![spec("A", 1)];
    let table = extract_rows(&rows, &specs).unwrap();
    assert_eq!(table.value(0, 0).as_text(), "10.5");
}

#[test]
fn ordinal_beyond_every_row_gives_an_empty_column() {
    let rows = vec![row(&["1.0"]), row(&["2.0"])];
    let specs = vec![spec("A", 1), spec("Gone", 9)];
    let table = extract_rows(&rows, &specs).unwrap();
    assert_eq!(table.column_len(0), 2);
    assert_eq!(table.column_len(1), 0);
}

fn html_row(cells: &[&str; 4]) -> String {
    // Seventeen cells; the configured ordinals 12, 14, 16 and 17 carry the
    // values, the rest carry unrelated text that must stay unread.
    let mut r = String::from("<tr>");
    let mut vals = cells.iter();
    for pos in 1..=17 {
        let text = match pos {
            12 | 14 | 16 | 17 => vals.next().unwrap(),
            _ => "x",
        };
        r.push_str(&format!("<td>{}</td>", text));
    }
    r.push_str("</tr>");
    r
}

fn ercot_specs() -> Vec<ColumnSpec> {
    vec![
        spec("LZ Houston", 12),
        spec("LZ North", 14),
        spec("LZ South", 16),
        spec("LZ West", 17),
    ]
}

#[test]
fn end_to_end_three_row_table() {
    let doc = format!(
        "<html><body><table class=\"tableStyle\">{}{}{}</table></body></html>",
        html_row(&["10.5", "10.5", "10.5", "10.5"]),
        html_row(&["11.0", "11.2", "10.9", "11.1"]),
        html_row(&["9.75", "9.80", "9.70", "9.65"]),
    );
    let query = TableQuery::new("tableStyle".to_string()).unwrap();
    let specs = ercot_specs();
    let table = extract(&doc, &query, &specs).unwrap();
    assert_eq!(table.column_count(), 4);
    let expected: [[f64; 3]; 4] = [
        [10.5, 11.0, 9.75],
        [10.5, 11.2, 9.80],
        [10.5, 10.9, 9.70],
        [10.5, 11.1, 9.65],
    ];
    for j in 0..4 {
        assert_eq!(table.column_len(j), 3);
        for i in 0..3 {
            let got: f64 = table.value(j, i).as_text().parse().unwrap();
            assert_eq!(got, expected[j][i]);
        }
    }
    let out = price_scrape::export(&table, &specs);
    let lines: Vec<&str> = out.lines().collect();
    assert_eq!(lines.len(), 4);
    assert_eq!(lines[0], "LZ Houston,LZ North,LZ South,LZ West");
    assert_eq!(lines[1], "10.5,10.5,10.5,10.5");
    assert_eq!(lines[2], "11.0,11.2,10.9,11.1");
    assert_eq!(lines[3], "9.75,9.80,9.70,9.65");
}

#[test]
fn bad_cell_in_markup_reports_row_and_column() {
    let doc = format!(
        "<html><body><table class=\"tableStyle\">{}{}</table></body></html>",
        html_row(&["10.5", "10.5", "10.5", "10.5"]),
        html_row(&["11.0", "N/A", "10.9", "11.1"]),
    );
    let query = TableQuery::new("tableStyle".to_string()).unwrap();
    let err = extract(&doc, &query, &ercot_specs()).unwrap_err();
    assert_eq!(
        err,
        PipelineError::ValueParse {
            row: 1,
            column: "LZ North".to_string(),
            text: "N/A".to_string(),
        }
    );
}

#[test]
fn tables_without_the_class_are_ignored() {
    let doc = format!(
        "<html><body><table class=\"other\">{}</table><p>no data</p></body></html>",
        html_row(&["10.5", "10.5", "10.5", "10.5"]),
    );
    let query = TableQuery::new("tableStyle".to_string()).unwrap();
    let table = extract(&doc, &query, &ercot_specs()).unwrap();
    assert_eq!(table.column_count(), 4);
    for j in 0..4 {
        assert_eq!(table.column_len(j), 0);
    }
}

#[test]
fn nested_markup_in_cells_yields_first_text() {
    let doc = "<table class=\"t\"><tr><td><b> 42.5 </b></td></tr></table>";
    let query = TableQuery::new("t".to_string()).unwrap();
    let specs = vec![spec("Only", 1)];
    let table = extract(doc, &query, &specs).unwrap();
    assert_eq!(table.column_len(0), 1);
    assert_eq!(table.value(0, 0).as_text(), "42.5");
}
