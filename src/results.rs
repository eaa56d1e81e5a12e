//! The response envelope: what one server response says about a statement.
use vstd::prelude::*;

verus! {

/// One result column: its name and the engine's name for its type.
#[derive(Clone, Debug)]
pub struct Column {
    pub name: String,
    pub column_type: String,
}

impl Column {
    pub fn name(&self) -> (r: &str)
        ensures
            r@ == self.name@,
    {
        self.name.as_str()
    }
}

/// Where in the statement text an error was found.
#[derive(Clone, Copy, Debug, PartialEq, Eq, Structural)]
pub struct ErrorLocation {
    pub line_number: u32,
    pub column_number: u32,
}

/// An error that the server reports for the statement itself.
#[derive(Clone, Debug)]
pub struct QueryError {
    pub sql_state: Option<String>,
    pub message: String,
    pub error_code: i64,
    pub error_name: String,
    pub error_type: String,
    pub error_location: Option<ErrorLocation>,
}

impl QueryError {
    /// The message that describes this error.
    pub fn to_message(&self) -> (r: String)
        ensures
            r@ == self.message@,
    {
        self.message.clone()
    }
}

/// Execution statistics as the server reports them at one step.
#[derive(Clone, Debug)]
pub struct QueryStats {
    pub state: String,
    pub queued: bool,
    pub scheduled: bool,
    pub nodes: u32,
    pub total_splits: u32,
    pub queued_splits: u32,
    pub running_splits: u32,
    pub completed_splits: u32,
    pub cpu_time_millis: u32,
    pub wall_time_millis: u32,
    pub queued_time_millis: u32,
    pub elapsed_time_millis: u32,
    pub processed_rows: u32,
    pub processed_bytes: u32,
    pub physical_input_bytes: u32,
    pub peak_memory_bytes: u32,
    pub spilled_bytes: u32,
}

/// One server response. `next_uri` present means there is more to fetch;
/// `data` absent means this response carries no rows.
#[derive(Clone, Debug)]
pub struct QueryResults<T> {
    pub id: String,
    pub info_uri: String,
    pub next_uri: Option<String>,
    pub partial_cancel_uri: Option<String>,
    pub columns: Option<Vec<Column>>,
    pub data: Option<Vec<T>>,
    pub stats: QueryStats,
    pub error: Option<QueryError>,
}

} // verus!
