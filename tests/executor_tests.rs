use prestino::executor::NextResponse;
use prestino::stream::{batches_of, rows_of};
use prestino::{
    ErrorLocation, Headers, Method, PrestinoError, QueryError, QueryResults, QueryStats,
    StatementExecutor,
};

const ID: &str = "20221102_163624_00001_ipi9h";

fn stats(state: &str) -> QueryStats {
    QueryStats {
        state: state.to_string(),
        queued: false,
        scheduled: true,
        nodes: 1,
        total_splits: 0,
        queued_splits: 0,
        running_splits: 0,
        completed_splits: 0,
        cpu_time_millis: 0,
        wall_time_millis: 0,
        queued_time_millis: 0,
        elapsed_time_millis: 0,
        processed_rows: 0,
        processed_bytes: 0,
        physical_input_bytes: 0,
        peak_memory_bytes: 0,
        spilled_bytes: 0,
    }
}

fn envelope(state: &str, next: Option<&str>, data: Option<Vec<i64>>) -> QueryResults<i64> {
    QueryResults {
        id: ID.to_string(),
        info_uri: format!("http://localhost:8080/ui/query.html?{ID}"),
        next_uri: next.map(|s| s.to_string()),
        partial_cancel_uri: None,
        columns: None,
        data,
        stats: stats(state),
        error: None,
    }
}

fn syntax_error() -> QueryError {
    QueryError {
        sql_state: None,
        message: "line 5:14: mismatched input 'BOOLEAN'".to_string(),
        error_code: 1,
        error_name: "SYNTAX_ERROR".to_string(),
        error_type: "USER_ERROR".to_string(),
        error_location: Some(ErrorLocation { line_number: 5, column_number: 14 }),
    }
}

struct Run {
    responses: Vec<Result<Vec<i64>, PrestinoError>>,
    requested: Vec<(String, u64)>,
}

/// Drive the executor against scripted outcomes; each request is answered at
/// the time it was allowed to go out.
fn drive(
    mut exec: StatementExecutor<i64>,
    mut script: Vec<Result<QueryResults<i64>, PrestinoError>>,
) -> Run {
    let mut run = Run { responses: Vec::new(), requested: Vec::new() };
    loop {
        match exec.next_response() {
            NextResponse::Rows(rows) => run.responses.push(Ok(rows)),
            NextResponse::Failed(e) => {
                run.responses.push(Err(e));
                break;
            }
            NextResponse::End => break,
            NextResponse::Fetch(request, not_before) => {
                assert_eq!(request.method, Method::Get);
                run.requested.push((request.uri.clone(), not_before));
                let outcome = script.remove(0);
                match exec.complete_fetch(outcome, not_before) {
                    Ok(rows) => run.responses.push(Ok(rows)),
                    Err(e) => {
                        run.responses.push(Err(e));
                        break;
                    }
                }
            }
        }
    }
    run
}

fn ok_lists(run: &Run) -> Vec<Vec<i64>> {
    run.responses
        .iter()
        .filter_map(|r| r.as_ref().ok().cloned())
        .collect()
}

#[test]
fn scripted_flow_yields_one_row() {
    let first = envelope("QUEUED", Some("http://h/queued/1"), None);
    let exec = StatementExecutor::new(Headers::trino().user("me"), first, 0);
    let script = vec![
        Ok(envelope("RUNNING", Some("http://h/executing/1"), None)),
        Ok(envelope("RUNNING", Some("http://h/executing/2"), Some(vec![1]))),
        Ok(envelope("FINISHED", Some("http://h/executing/3"), None)),
        Ok(envelope("FINISHED", None, None)),
    ];
    let run = drive(exec, script);
    assert!(run.responses.iter().all(|r| r.is_ok()));
    let rows = rows_of(batches_of(ok_lists(&run)));
    assert_eq!(rows, vec![1]);
    let uris: Vec<&str> = run.requested.iter().map(|(u, _)| u.as_str()).collect();
    assert_eq!(
        uris,
        vec!["http://h/queued/1", "http://h/executing/1", "http://h/executing/2", "http://h/executing/3"]
    );
}

#[test]
fn query_error_ends_without_rows() {
    let first = envelope("QUEUED", Some("http://h/queued/1"), None);
    let exec = StatementExecutor::new(Headers::trino(), first, 0);
    let mut failed = envelope("FAILED", None, None);
    failed.error = Some(syntax_error());
    let run = drive(exec, vec![Ok(failed)]);
    assert_eq!(run.responses.len(), 1);
    match &run.responses[0] {
        Err(PrestinoError::QueryError(e)) => {
            assert_eq!(e.error_name, "SYNTAX_ERROR");
            assert_eq!(e.error_type, "USER_ERROR");
            assert_eq!(e.error_code, 1);
            assert!(e.error_location.is_some());
        }
        other => panic!("unexpected item: {:?}", other),
    }
    let rows = rows_of(batches_of(ok_lists(&run)));
    assert!(rows.is_empty());
}

#[test]
fn query_error_in_first_response_comes_first() {
    let mut first = envelope("FAILED", None, Some(vec![7]));
    first.error = Some(syntax_error());
    let mut exec = StatementExecutor::new(Headers::trino(), first, 0);
    match exec.next_response() {
        NextResponse::Failed(PrestinoError::QueryError(e)) => assert_eq!(e.error_name, "SYNTAX_ERROR"),
        _ => panic!("expected the query error"),
    }
    assert!(matches!(exec.next_response(), NextResponse::End));
}

#[test]
fn overload_is_retried_after_backoff() {
    let first = envelope("RUNNING", Some("http://h/executing/1"), None);
    let exec = StatementExecutor::new(Headers::trino(), first, 1000);
    let script = vec![
        Err(PrestinoError::from_status_code(503, "busy".to_string())),
        Ok(envelope("RUNNING", Some("http://h/executing/2"), Some(vec![1, 2]))),
        Ok(envelope("FINISHED", None, Some(vec![3]))),
    ];
    let run = drive(exec, script);
    assert!(run.responses.iter().all(|r| r.is_ok()));
    assert_eq!(
        run.requested,
        vec![
            ("http://h/executing/1".to_string(), 1000),
            ("http://h/executing/1".to_string(), 1100),
            ("http://h/executing/2".to_string(), 1100),
        ]
    );
    assert_eq!(rows_of(batches_of(ok_lists(&run))), vec![1, 2, 3]);
}

#[test]
fn other_status_is_fatal() {
    let first = envelope("RUNNING", Some("http://h/executing/1"), None);
    let exec = StatementExecutor::new(Headers::trino(), first, 0);
    let run = drive(exec, vec![Err(PrestinoError::from_status_code(500, "oops".to_string()))]);
    assert_eq!(run.responses.len(), 1);
    match &run.responses[0] {
        Err(PrestinoError::StatusCodeError(code, body)) => {
            assert_eq!(*code, 500);
            assert_eq!(body, "oops");
        }
        other => panic!("unexpected item: {:?}", other),
    }
}

#[test]
fn empty_data_arms_backoff_and_rows_do_not() {
    let first = envelope("RUNNING", Some("http://h/1"), None);
    let mut exec = StatementExecutor::new(Headers::trino(), first, 50);
    assert!(matches!(exec.next_response(), NextResponse::Fetch(_, 50)));
    let rows = exec
        .complete_fetch(Ok(envelope("RUNNING", Some("http://h/2"), Some(vec![]))), 60)
        .unwrap();
    assert!(rows.is_empty());
    match exec.next_response() {
        NextResponse::Fetch(req, t) => {
            assert_eq!(req.uri, "http://h/2");
            assert_eq!(t, 160);
        }
        _ => panic!("expected a fetch"),
    }
    let rows = exec
        .complete_fetch(Ok(envelope("RUNNING", Some("http://h/3"), Some(vec![4]))), 200)
        .unwrap();
    assert_eq!(rows, vec![4]);
    assert!(matches!(exec.next_response(), NextResponse::Fetch(_, 160)));
    let rows = exec.complete_fetch(Ok(envelope("RUNNING", Some("http://h/4"), None)), 300).unwrap();
    assert!(rows.is_empty());
    assert!(matches!(exec.next_response(), NextResponse::Fetch(_, 400)));
}

#[test]
fn cancel_after_done_fails_with_id() {
    let first = envelope("FINISHED", None, Some(vec![1]));
    let mut exec = StatementExecutor::new(Headers::trino(), first, 0);
    assert!(matches!(exec.next_response(), NextResponse::Rows(_)));
    assert!(matches!(exec.next_response(), NextResponse::End));
    match exec.cancel() {
        Err(PrestinoError::QueryFinishedError(id)) => assert_eq!(id, ID),
        _ => panic!("expected the already-finished error"),
    }
}

#[test]
fn cancel_mid_sequence_is_one_delete() {
    let first = envelope("RUNNING", Some("http://h/executing/1"), Some(vec![1]));
    let mut exec = StatementExecutor::new(Headers::trino().user("me"), first, 0);
    assert!(matches!(exec.next_response(), NextResponse::Rows(_)));
    let request = exec.cancel().unwrap();
    assert_eq!(request.method, Method::Delete);
    assert_eq!(request.uri, "http://h/executing/1");
    assert_eq!(request.headers, vec![("x-trino-user".to_string(), "me".to_string())]);
    assert!(request.body.is_none());
}

#[test]
fn batches_skip_empty_responses() {
    let responses = vec![vec![], vec![1, 2], vec![], vec![3]];
    let batches = batches_of(responses.clone());
    assert_eq!(batches, vec![vec![1, 2], vec![3]]);
    assert_eq!(rows_of(batches), vec![1, 2, 3]);
    assert_eq!(rows_of(responses), vec![1, 2, 3]);
    assert!(batches_of(Vec::<Vec<i64>>::new()).is_empty());
}

#[test]
fn response_status_and_headers() {
    let first = envelope("RUNNING", Some("http://h/1"), None);
    let mut exec = StatementExecutor::new(Headers::trino(), first, 0);
    let hs = vec![("X-Trino-Set-Catalog".to_string(), "cat2".to_string())];
    let err = exec.absorb_response(404, &hs, "missing".to_string()).unwrap_err();
    assert!(matches!(err, PrestinoError::StatusCodeError(404, ref b) if b == "missing"));
    assert!(exec.headers().get_headers().is_empty());
    let body = exec.absorb_response(200, &hs, "{}".to_string()).unwrap();
    assert_eq!(body, "{}");
    assert_eq!(
        exec.headers().get_headers(),
        vec![("x-trino-catalog".to_string(), "cat2".to_string())]
    );
    let bad = vec![("X-Trino-Set-Session".to_string(), "nokey".to_string())];
    assert!(matches!(
        exec.absorb_response(200, &bad, "{}".to_string()),
        Err(PrestinoError::HeaderParseError)
    ));
}

#[test]
fn executor_getters() {
    let mut first = envelope("QUEUED", Some("http://h/1"), None);
    first.columns = Some(vec![prestino::Column { name: "a".to_string(), column_type: "integer".to_string() }]);
    let exec = StatementExecutor::new(Headers::trino(), first, 0);
    assert_eq!(exec.id(), ID);
    assert_eq!(exec.info_uri(), format!("http://localhost:8080/ui/query.html?{ID}"));
    assert_eq!(exec.columns().unwrap()[0].name(), "a");
    assert_eq!(exec.stats().state, "QUEUED");
    assert!(exec.is_polling_now());
}

#[test]
fn transport_error_ends_the_execution() {
    let first = envelope("RUNNING", Some("http://h/executing/1"), None);
    let mut exec = StatementExecutor::new(Headers::trino(), first, 0);
    assert!(matches!(exec.next_response(), NextResponse::Fetch(_, 0)));
    let err = exec
        .complete_fetch(Err(PrestinoError::HttpError("connection refused".to_string())), 5)
        .unwrap_err();
    assert!(matches!(err, PrestinoError::HttpError(ref m) if m == "connection refused"));
    assert!(matches!(exec.next_response(), NextResponse::End));
    assert!(matches!(exec.cancel(), Err(PrestinoError::QueryFinishedError(_))));
}

#[test]
fn decode_error_ends_the_execution() {
    let first = envelope("RUNNING", Some("http://h/executing/1"), None);
    let mut exec = StatementExecutor::new(Headers::trino(), first, 0);
    assert!(matches!(exec.next_response(), NextResponse::Fetch(_, 0)));
    let err = exec
        .complete_fetch(Err(PrestinoError::JsonParseError("expected value".to_string())), 5)
        .unwrap_err();
    assert!(matches!(err, PrestinoError::JsonParseError(_)));
    assert!(matches!(exec.next_response(), NextResponse::End));
}

#[test]
fn query_error_message() {
    assert_eq!(syntax_error().to_message(), "line 5:14: mismatched input 'BOOLEAN'");
}
