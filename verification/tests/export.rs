use price_scrape::ColumnSpec;
use price_scrape::Num;
use price_scrape::export;
use price_scrape::ExtractedTable;

fn spec(name: &str, ordinal: usize) -> ColumnSpec {
    ColumnSpec::new(name.to_string(), ordinal).unwrap()
}

fn num_col(texts: &[&str]) -> Vec<Num> {
    texts.iter().map(|t| Num::new(t.to_string()).unwrap()).collect()
}

#[test]
fn export_writes_header_then_rows_in_order() {
    let table =
        ExtractedTable::from_columns(vec![num_col(&["1.5", "2.5"]), num_col(&["3.0", "4.0"])]);
    let specs = vec![spec("A", 1), spec("B", 2)];
    let out = export(&table, &specs);
    assert_eq!(out, "A,B\n1.5,3.0\n2.5,4.0\n");
}

#[test]
fn export_round_trips_through_a_csv_reader() {
    let values: [[f64; 3]; 4] = [
        [10.5, 11.0, 9.75],
        [10.5, 11.2, 9.80],
        [10.5, 10.9, 9.70],
        [10.5, 11.1, 9.65],
    ];
    let texts: [[&str; 3]; 4] = [
        ["10.5", "11.0", "9.75"],
        ["10.5", "11.2", "9.80"],
        ["10.5", "10.9", "9.70"],
        ["10.5", "11.1", "9.65"],
    ];
    let table = ExtractedTable::from_columns(texts.iter().map(|c| num_col(c)).collect());
    let specs = vec![
        spec("LZ Houston", 12),
        spec("LZ North", 14),
        spec("LZ South", 16),
        spec("LZ West", 17),
    ];
    let out = export(&table, &specs);

    let mut reader = csv::Reader::from_reader(out.as_bytes());
    let headers: Vec<String> =
        reader.headers().unwrap().iter().map(|h| h.to_string()).collect();
    assert_eq!(headers, vec!["LZ Houston", "LZ North", "LZ South", "LZ West"]);
    let mut rows_seen = 0;
    for (i, record) in reader.records().enumerate() {
        let record = record.unwrap();
        assert_eq!(record.len(), 4);
        for j in 0..4 {
            let got: f64 = record.get(j).unwrap().parse().unwrap();
            assert_eq!(got, values[j][i]);
        }
        rows_seen += 1;
    }
    assert_eq!(rows_seen, 3);
}

#[test]
fn export_truncates_to_the_shortest_column() {
    let table = ExtractedTable::from_columns(vec![
        num_col(&["1.0", "2.0", "3.0"]),
        num_col(&["4.0"]),
    ]);
    let specs = vec![spec("A", 1), spec("B", 2)];
    let out = export(&table, &specs);
    assert_eq!(out, "A,B\n1.0,4.0\n");
}

#[test]
fn export_of_empty_columns_is_header_only() {
    let table = ExtractedTable::from_columns(vec![num_col(&[]), num_col(&[])]);
    let specs = vec![spec("A", 1), spec("B", 2)];
    let out = export(&table, &specs);
    assert_eq!(out, "A,B\n");
}

#[test]
fn header_name_holding_a_comma_is_quoted() {
    let table = ExtractedTable::from_columns(vec![num_col(&["1.0"]), num_col(&["2.0"])]);
    let specs = vec![spec("A,B", 1), spec("C", 2)];
    let out = export(&table, &specs);
    assert_eq!(out, "\"A,B\",C\n1.0,2.0\n");
}
