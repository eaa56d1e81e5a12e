use prestino::{HeaderKey, Headers, PrestinoClient, PrestinoError};

fn get_value(pairs: &[(String, String)], name: &str) -> Option<String> {
    pairs.iter().find(|(n, _)| n == name).map(|(_, v)| v.clone())
}

fn response_headers(pairs: &[(&str, &str)]) -> Vec<(String, String)> {
    pairs.iter().map(|(n, v)| (n.to_string(), v.to_string())).collect()
}

#[test]
fn test_basic_headers() {
    let mut headers = Headers::trino()
        .user("me")
        .source("here")
        .catalog("memory")
        .language("en/us");

    headers.set_schema("database").unwrap();
    headers.set_timezone("america/chicago").unwrap();
    headers.set_role("moderator").unwrap();
    headers.set_transaction_id("abc123").unwrap();

    let header_map = headers.get_headers();
    assert_eq!(get_value(&header_map, "x-trino-user"), Some("me".to_string()));
    assert_eq!(get_value(&header_map, "x-trino-source"), Some("here".to_string()));
    assert_eq!(get_value(&header_map, "x-trino-catalog"), Some("memory".to_string()));
    assert_eq!(get_value(&header_map, "x-trino-schema"), Some("database".to_string()));
    assert_eq!(get_value(&header_map, "x-trino-language"), Some("en/us".to_string()));
    assert_eq!(
        get_value(&header_map, "x-trino-time-zone"),
        Some("america/chicago".to_string())
    );
    assert_eq!(get_value(&header_map, "x-trino-role"), Some("moderator".to_string()));
    assert_eq!(
        get_value(&header_map, "x-trino-transaction-id"),
        Some("abc123".to_string())
    );

    headers.set_user("you").unwrap();
    let header_map = headers.get_headers();
    assert_eq!(get_value(&header_map, "x-trino-user"), Some("you".to_string()));
}

#[test]
fn test_session() {
    let headers = Headers::trino()
        .session("b", "2")
        .session("a", "1")
        .session("c", "3");

    let header_map = headers.get_headers();
    assert_eq!(
        get_value(&header_map, "x-trino-session"),
        Some("a=1,b=2,c=3".to_string())
    );
}

#[test]
fn test_update_headers() {
    let mut request_headers = Headers::trino()
        .session("a", "1")
        .session("b", "2")
        .session("c", "3");
    let response_header_map = response_headers(&[
        ("X-Trino-Set-Catalog", "cat2"),
        ("X-Trino-Set-Schema", "schema2"),
        ("X-Trino-Set-Session", "b=4"),
        ("X-Trino-Clear-Session", "c"),
        ("X-Trino-Set-Role", "moderator"),
        ("X-Trino-Started-Transaction-Id", "abc123"),
    ]);

    request_headers
        .update_from_response_headers(&response_header_map)
        .unwrap();
    let header_map = request_headers.get_headers();
    assert_eq!(get_value(&header_map, "x-trino-catalog"), Some("cat2".to_string()));
    assert_eq!(get_value(&header_map, "x-trino-schema"), Some("schema2".to_string()));
    assert_eq!(get_value(&header_map, "x-trino-session"), Some("a=1,b=4".to_string()));
    assert_eq!(get_value(&header_map, "x-trino-role"), Some("moderator".to_string()));
    assert_eq!(
        get_value(&header_map, "x-trino-transaction-id"),
        Some("abc123".to_string())
    );

    let response_header_map = response_headers(&[("X-Trino-Clear-Transaction-Id", "")]);

    let mut request_headers = Headers::trino().transaction_id("abc123");
    request_headers
        .update_from_response_headers(&response_header_map)
        .unwrap();
    let header_map = request_headers.get_headers();
    assert!(get_value(&header_map, "x-trino-transaction-id").is_none());
}

#[test]
fn test_merge() {
    let mut base_headers = Headers::trino()
        .user("me")
        .catalog("memory")
        .session("a", "1")
        .session("b", "2")
        .session("c", "3");

    let new_headers = Headers::trino()
        .user("you")
        .schema("database")
        .session("b", "4");

    base_headers.update(&new_headers);
    let header_map = base_headers.get_headers();
    assert_eq!(get_value(&header_map, "x-trino-user"), Some("you".to_string()));
    assert_eq!(get_value(&header_map, "x-trino-catalog"), Some("memory".to_string()));
    assert_eq!(get_value(&header_map, "x-trino-schema"), Some("database".to_string()));
    assert_eq!(
        get_value(&header_map, "x-trino-session"),
        Some("a=1,b=4,c=3".to_string())
    );
}

#[test]
fn set_then_clear_session_property_leaves_no_trace() {
    let mut headers = Headers::trino().user("me").session("a", "1");
    headers.set_session("z", "9").unwrap();
    assert_eq!(
        get_value(&headers.get_headers(), "x-trino-session"),
        Some("a=1,z=9".to_string())
    );
    headers
        .update_from_response_header("X-Trino-Clear-Session", "z")
        .unwrap();
    let pairs = headers.get_headers();
    assert_eq!(get_value(&pairs, "x-trino-session"), Some("a=1".to_string()));

    headers.clear_session("a");
    let pairs = headers.get_headers();
    assert_eq!(get_value(&pairs, "x-trino-session"), None);
    assert_eq!(pairs, vec![("x-trino-user".to_string(), "me".to_string())]);
}

#[test]
fn session_value_is_sorted_for_every_insertion_order() {
    let orders = [
        ["a", "b", "c"],
        ["a", "c", "b"],
        ["b", "a", "c"],
        ["b", "c", "a"],
        ["c", "a", "b"],
        ["c", "b", "a"],
    ];
    for order in orders.iter() {
        let mut headers = Headers::trino();
        for name in order.iter() {
            let value = match *name {
                "a" => "1",
                "b" => "2",
                _ => "3",
            };
            headers.add_session_property(name, value).unwrap();
        }
        assert_eq!(
            get_value(&headers.get_headers(), "x-trino-session"),
            Some("a=1,b=2,c=3".to_string())
        );
    }
}

#[test]
fn merge_keeps_the_value_merged_last() {
    let mut first = Headers::presto().session("b", "4");
    let second = Headers::presto().session("b", "2");
    first.update(&second);
    assert_eq!(
        get_value(&first.get_headers(), "x-presto-session"),
        Some("b=2".to_string())
    );

    let mut second = Headers::presto().session("b", "2");
    let first = Headers::presto().session("b", "4");
    second.update(&first);
    assert_eq!(
        get_value(&second.get_headers(), "x-presto-session"),
        Some("b=4".to_string())
    );
}

#[test]
fn values_and_names_are_lower_cased() {
    let mut headers = Headers::presto();
    headers.set_catalog("Hive").unwrap();
    headers.add_session_property("Query_Max_Run_Time", "10M").unwrap();
    let pairs = headers.get_headers();
    assert_eq!(
        pairs,
        vec![
            ("x-presto-catalog".to_string(), "hive".to_string()),
            ("x-presto-session".to_string(), "query_max_run_time=10m".to_string()),
        ]
    );
}

#[test]
fn invalid_values_are_refused_and_change_nothing() {
    let mut headers = Headers::trino().user("me");
    assert!(matches!(headers.set_user("m\u{e9}"), Err(PrestinoError::HeaderParseError)));
    assert!(matches!(headers.set_catalog("a\nb"), Err(PrestinoError::HeaderParseError)));
    assert!(matches!(
        headers.add_session_property("k", "\u{212a}"),
        Err(PrestinoError::HeaderParseError)
    ));
    assert!(matches!(
        headers.set_header(HeaderKey::Session, "a=1"),
        Err(PrestinoError::HeaderParseError)
    ));
    assert_eq!(
        headers.get_headers(),
        vec![("x-trino-user".to_string(), "me".to_string())]
    );
}

#[test]
fn set_session_response_without_separator_is_refused() {
    let mut headers = Headers::trino();
    let r = headers.update_from_response_header("X-Trino-Set-Session", "novalue");
    assert!(matches!(r, Err(PrestinoError::HeaderParseError)));
    assert!(headers.get_headers().is_empty());
}

#[test]
fn set_session_response_splits_at_first_equals() {
    let mut headers = Headers::trino();
    headers
        .update_from_response_header("x-trino-set-session", "k=a=b")
        .unwrap();
    assert_eq!(
        get_value(&headers.get_headers(), "x-trino-session"),
        Some("k=a=b".to_string())
    );
}

#[test]
fn foreign_and_unknown_response_headers_are_ignored() {
    let mut headers = Headers::trino().catalog("memory");
    headers
        .update_from_response_header("X-Presto-Set-Catalog", "hive")
        .unwrap();
    headers.update_from_response_header("Content-Type", "json").unwrap();
    headers
        .update_from_response_header("X-Trino-Added-Prepare", "x")
        .unwrap();
    assert_eq!(headers.get(HeaderKey::Catalog), Some("memory".to_string()));
}

#[test]
fn header_key_names() {
    assert_eq!(HeaderKey::Timezone.name(), "time-zone");
    assert_eq!(HeaderKey::TraceToken.name(), "trace-token");
    assert_eq!(HeaderKey::ClientInfo.name(), "client-info");
    assert_eq!(prestino::Fork::Presto.prefix(), "x-presto");
    assert_eq!(prestino::Fork::Trino.name_for("user"), "x-trino-user");
}

#[test]
fn client_prepares_statement_post() {
    let client = PrestinoClient::trino("http://localhost:8080").user("me");
    let overrides = Headers::trino().catalog("memory");
    let (request, headers) = client.execute_with_headers("SELECT 1", &overrides);
    assert_eq!(request.method, prestino::Method::Post);
    assert_eq!(request.uri, "http://localhost:8080/v1/statement");
    assert_eq!(request.body, Some("SELECT 1".to_string()));
    assert_eq!(
        request.headers,
        vec![
            ("x-trino-catalog".to_string(), "memory".to_string()),
            ("x-trino-user".to_string(), "me".to_string()),
        ]
    );
    assert_eq!(headers.get(HeaderKey::User), Some("me".to_string()));
    let (plain, _) = client.execute("SELECT 2");
    assert_eq!(
        plain.headers,
        vec![("x-trino-user".to_string(), "me".to_string())]
    );
}
