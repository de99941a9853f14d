use query_cache::executor::{aggregate_statement, render_outcome};
use query_cache::size::SizeError;

#[test]
fn render_passes_a_result_through() {
    assert_eq!(render_outcome(Ok(Some("[{\"a\":1}]".to_string()))), "[{\"a\":1}]");
}

#[test]
fn render_makes_no_result_the_empty_text() {
    assert_eq!(render_outcome(Ok(None)), "");
}

#[test]
fn render_makes_a_failure_its_description() {
    assert_eq!(render_outcome(Err("relation \"t\" does not exist".to_string())), "relation \"t\" does not exist");
}

#[test]
fn render_keeps_an_empty_result_empty() {
    assert_eq!(render_outcome(Ok(Some(String::new()))), "");
    assert_eq!(render_outcome(Err(String::new())), "");
}

#[test]
fn aggregate_statement_wraps_the_query() {
    assert_eq!(
        aggregate_statement("SELECT 1 AS col1"),
        "SELECT json_agg(t) FROM (SELECT 1 AS col1) t"
    );
}

#[test]
fn aggregate_statement_of_the_empty_query() {
    assert_eq!(aggregate_statement(""), "SELECT json_agg(t) FROM () t");
}

#[test]
fn aggregate_statement_does_not_read_the_query() {
    assert_eq!(aggregate_statement(") t; --"), "SELECT json_agg(t) FROM () t; --) t");
}

#[test]
fn size_error_messages() {
    assert_eq!(SizeError::NotANumber.message(), "Error: Cache size must be a number.");
    assert_eq!(SizeError::NotPositive.message(), "Error: Cache size must be greater than 0.");
}
