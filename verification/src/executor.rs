//! The boundary to the executor: what is made of its answer.

use vstd::prelude::*;
use vstd::string::*;

verus! {

/// The text that an executor's outcome is cached and returned as: a result
/// as it is, no result as the empty text, and a failure as its description,
/// which from then on is served like any result.
pub open spec fn rendered(outcome: Result<Option<String>, String>) -> Seq<char> {
    match outcome {
        Ok(Some(text)) => text@,
        Ok(None) => Seq::empty(),
        Err(description) => description@,
    }
}

/// Renders an executor's outcome to the text that is cached for it. This is
/// the one place that decides that failures are cached.
pub fn render_outcome(outcome: Result<Option<String>, String>) -> (text: String)
    ensures
        text@ == rendered(outcome),
{
    match outcome {
        Ok(Some(text)) => text,
        Ok(None) => String::new(),
        Err(description) => description,
    }
}

/// The statement that yields the rows of `query` as one aggregate value.
pub open spec fn aggregate_of(query: Seq<char>) -> Seq<char> {
    "SELECT json_agg(t) FROM ("@ + query + ") t"@
}

/// Wraps `query`, unread, into the statement that yields its rows as one
/// aggregate value.
pub fn aggregate_statement(query: &str) -> (statement: String)
    ensures
        statement@ == aggregate_of(query@),
{
    let mut statement = String::from_str("SELECT json_agg(t) FROM (");
    statement.append(query);
    statement.append(") t");
    statement
}

} // verus!
