use price_scrape::Num;
use price_scrape::PipelineError;
use price_scrape::TableQuery;
use price_scrape::classify_status;

#[test]
fn server_error_status_is_a_transport_error() {
    assert_eq!(
        classify_status(500),
        Err(PipelineError::Transport { status: Some(500) })
    );
}

#[test]
fn success_statuses_pass() {
    assert_eq!(classify_status(200), Ok(()));
    assert_eq!(classify_status(204), Ok(()));
    assert_eq!(classify_status(299), Ok(()));
}

#[test]
fn non_success_statuses_fail_with_their_code() {
    for code in [100u16, 199, 300, 301, 404, 502] {
        assert_eq!(
            classify_status(code),
            Err(PipelineError::Transport { status: Some(code) })
        );
    }
}

#[test]
fn numeric_grammar_accepts_decimal_text() {
    for ok in ["0", "7", "10.5", "9.80", "+3.5", "-2", "-0.25", "007", "123456.789"] {
        let v = Num::new(ok.to_string()).unwrap();
        assert_eq!(v.as_text(), ok);
        assert_eq!(v.to_text(), ok);
    }
}

#[test]
fn numeric_grammar_rejects_other_text() {
    for bad in ["", "N/A", ".", "1.", ".5", "1.2.3", "+", "-", "1e5", " 1", "1 ", "--1", "10,5"] {
        assert!(Num::new(bad.to_string()).is_none(), "accepted {:?}", bad);
    }
}

#[test]
fn table_query_accepts_class_names() {
    for ok in ["tableStyle", "t", "_private", "a-b-c", "row2"] {
        let q = TableQuery::new(ok.to_string()).unwrap();
        assert_eq!(q.class_text(), ok);
    }
}

#[test]
fn table_query_rejects_other_text() {
    for bad in ["", "1abc", "-lead", "has space", "a.b", "tr,td", "\"x\""] {
        assert!(TableQuery::new(bad.to_string()).is_none(), "accepted {:?}", bad);
    }
}
