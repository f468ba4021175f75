use naked_rust_api::{
    build_response, format_response, process_request, validate_todo_completed,
    validate_todo_title, Store, Todo,
};

fn send(db: &mut Store, request: &str) -> (String, String) {
    let (status, body) = process_request(request, db);
    (status.to_string(), body)
}

fn post_create(db: &mut Store, title_json: &str) -> (String, String) {
    let body = format!("{{\"title\":\"{}\"}}", title_json);
    let request = format!(
        "POST /todos HTTP/1.1\r\nContent-Length: {}\r\n\r\n{}",
        body.len(),
        body
    );
    send(db, &request)
}

#[test]
fn create_sets_completed_false_and_exact_title() {
    let mut db = Store::new();
    let (status, body) = post_create(&mut db, "Buy milk");
    assert_eq!(status, "201 Created");
    assert!(body.contains("\"title\":\"Buy milk\""));
    assert!(body.contains("\"completed\":false"));
    assert_eq!(body, "{\"id\":1,\"title\":\"Buy milk\",\"completed\":false}");
}

#[test]
fn delete_then_get_yields_not_found() {
    let mut db = Store::new();
    post_create(&mut db, "Ephemeral");
    let (status, _) = send(&mut db, "DELETE /todos/1 HTTP/1.1\r\n\r\n");
    assert_eq!(status, "200 OK");
    let (status, body) = send(&mut db, "GET /todos/1 HTTP/1.1\r\n\r\n");
    assert_eq!(status, "404 Not Found");
    assert_eq!(body, "Todo not found.");
}

#[test]
fn update_missing_id_creates_nothing() {
    let mut db = Store::new();
    let body = r#"{"title":"Ghost","completed":true}"#;
    let request = format!(
        "PUT /todos/7 HTTP/1.1\r\nContent-Length: {}\r\n\r\n{}",
        body.len(),
        body
    );
    let (status, _) = send(&mut db, &request);
    assert_eq!(status, "404 Not Found");
    let (status, listing) = send(&mut db, "GET /todos HTTP/1.1\r\n\r\n");
    assert_eq!(status, "200 OK");
    assert_eq!(listing, "[]");
}

#[test]
fn partial_update_preserves_unnamed_fields() {
    let mut db = Store::new();
    post_create(&mut db, "Keep me");

    let body = r#"{"completed":true}"#;
    let request = format!(
        "PUT /todos/1 HTTP/1.1\r\nContent-Length: {}\r\n\r\n{}",
        body.len(),
        body
    );
    let (status, resp) = send(&mut db, &request);
    assert_eq!(status, "200 OK");
    assert_eq!(resp, "{\"id\":1,\"title\":\"Keep me\",\"completed\":true}");

    let body = r#"{"title":"Renamed","completed":true}"#;
    let request = format!(
        "PUT /todos/1 HTTP/1.1\r\nContent-Length: {}\r\n\r\n{}",
        body.len(),
        body
    );
    let (status, resp) = send(&mut db, &request);
    assert_eq!(status, "200 OK");
    assert_eq!(resp, "{\"id\":1,\"title\":\"Renamed\",\"completed\":true}");
}

#[test]
fn put_without_completed_rejected_like_wrong_type() {
    let mut db = Store::new();
    post_create(&mut db, "Strict");

    let body = r#"{"title":"Still strict"}"#;
    let request = format!(
        "PUT /todos/1 HTTP/1.1\r\nContent-Length: {}\r\n\r\n{}",
        body.len(),
        body
    );
    let (status, resp) = send(&mut db, &request);
    assert_eq!(status, "400 Bad Request");
    assert_eq!(resp, "The 'completed' field must be of type bool.");

    let body = r#"{"completed":"yes"}"#;
    let request = format!(
        "PUT /todos/1 HTTP/1.1\r\nContent-Length: {}\r\n\r\n{}",
        body.len(),
        body
    );
    let (status, resp) = send(&mut db, &request);
    assert_eq!(status, "400 Bad Request");
    assert_eq!(resp, "JSON deserialization error occurred.");
}

#[test]
fn request_line_token_count_must_be_three() {
    let mut db = Store::new();
    let (status, body) = send(&mut db, "GET /todos\r\n\r\n");
    assert_eq!(status, "400 Bad Request");
    assert_eq!(body, "Invalid request line.");

    let (status, _) = send(&mut db, "GET /todos HTTP/1.1 extra\r\n\r\n");
    assert_eq!(status, "400 Bad Request");

    let (status, body) = send(&mut db, "GET /todos HTTP/9.9\r\n\r\n");
    assert_eq!(status, "505 HTTP Version Not Supported");
    assert_eq!(body, "HTTP version is not supported.");
}

#[test]
fn repeated_get_is_byte_identical() {
    let mut db = Store::new();
    post_create(&mut db, "Stable");
    let (s1, b1) = send(&mut db, "GET /todos/1 HTTP/1.1\r\n\r\n");
    let (s2, b2) = send(&mut db, "GET /todos/1 HTTP/1.1\r\n\r\n");
    assert_eq!(s1, s2);
    assert_eq!(b1, b2);
}

#[test]
fn sequential_creates_never_share_id_one() {
    let mut db = Store::new();
    let (_, first) = post_create(&mut db, "first");
    let (_, second) = post_create(&mut db, "second");
    assert!(first.contains("\"id\":1"));
    assert!(second.contains("\"id\":2"));
}

#[test]
fn id_reuse_after_delete_replaces_record() {
    let mut db = Store::new();
    post_create(&mut db, "one");
    post_create(&mut db, "two");
    post_create(&mut db, "three");
    send(&mut db, "DELETE /todos/1 HTTP/1.1\r\n\r\n");
    // Two records remain, so the next creation takes identifier three and
    // replaces the live record under it.
    let (status, body) = post_create(&mut db, "reused");
    assert_eq!(status, "201 Created");
    assert!(body.contains("\"id\":3"));
    let (_, fetched) = send(&mut db, "GET /todos/3 HTTP/1.1\r\n\r\n");
    assert_eq!(fetched, "{\"id\":3,\"title\":\"reused\",\"completed\":false}");
}

#[test]
fn blank_title_rejected() {
    let mut db = Store::new();
    let (status, body) = post_create(&mut db, "   ");
    assert_eq!(status, "400 Bad Request");
    assert_eq!(body, "Title cannot be empty.");
}

#[test]
fn invalid_json_body_rejected_on_create() {
    let mut db = Store::new();
    let body = "not json";
    let request = format!(
        "POST /todos HTTP/1.1\r\nContent-Length: {}\r\n\r\n{}",
        body.len(),
        body
    );
    let (status, resp) = send(&mut db, &request);
    assert_eq!(status, "400 Bad Request");
    assert_eq!(resp, "Invalid JSON format.");
}

#[test]
fn non_numeric_id_rejected() {
    let mut db = Store::new();
    let (status, body) = send(&mut db, "GET /todos/abc HTTP/1.1\r\n\r\n");
    assert_eq!(status, "400 Bad Request");
    assert_eq!(body, "Invalid ID.");
}

#[test]
fn unknown_route_not_found() {
    let mut db = Store::new();
    let (status, body) = send(&mut db, "GET /other HTTP/1.1\r\n\r\n");
    assert_eq!(status, "404 Not Found");
    assert_eq!(body, "Endpoint not found.");

    let (status, _) = send(&mut db, "POST /todos/3 HTTP/1.1\r\n\r\n");
    assert_eq!(status, "404 Not Found");
}

#[test]
fn empty_request_rejected() {
    let mut db = Store::new();
    let (status, body) = send(&mut db, "");
    assert_eq!(status, "400 Bad Request");
    assert_eq!(body, "Invalid request.");
}

#[test]
fn malformed_header_rejected() {
    let mut db = Store::new();
    let (status, body) = send(&mut db, "GET /todos HTTP/1.1\r\nBadHeader\r\n\r\n");
    assert_eq!(status, "400 Bad Request");
    assert_eq!(body, "Invalid header format.");
}

#[test]
fn declared_length_beyond_body_rejected() {
    let mut db = Store::new();
    let request = "POST /todos HTTP/1.1\r\nContent-Length: 100\r\n\r\n{}";
    let (status, body) = send(&mut db, request);
    assert_eq!(status, "400 Bad Request");
    assert_eq!(body, "Invalid request.");
}

#[test]
fn declared_length_truncates_body() {
    let mut db = Store::new();
    // Only the first two body bytes are read, which no longer parse as JSON.
    let request = "POST /todos HTTP/1.1\r\nContent-Length: 2\r\n\r\n{\"title\":\"x\"}";
    let (status, body) = send(&mut db, request);
    assert_eq!(status, "400 Bad Request");
    assert_eq!(body, "Invalid JSON format.");
}

#[test]
fn title_is_unescaped_on_the_way_in_and_escaped_on_the_way_out() {
    let mut db = Store::new();
    // The submitted JSON spells the title with an escape; the stored title
    // holds the real characters and the answer re-escapes them.
    let body = r#"{"title":"say \"hi\"A"}"#;
    let request = format!(
        "POST /todos HTTP/1.1\r\nContent-Length: {}\r\n\r\n{}",
        body.len(),
        body
    );
    let (status, resp) = send(&mut db, &request);
    assert_eq!(status, "201 Created");
    assert_eq!(resp, "{\"id\":1,\"title\":\"say \\\"hi\\\"A\",\"completed\":false}");
}

#[test]
fn control_characters_escaped_in_listing() {
    let mut db = Store::new();
    let body = "{\"title\":\"a\\nb\\u0001c\"}";
    let request = format!(
        "POST /todos HTTP/1.1\r\nContent-Length: {}\r\n\r\n{}",
        body.len(),
        body
    );
    let (_, resp) = send(&mut db, &request);
    assert_eq!(resp, "{\"id\":1,\"title\":\"a\\nb\\u0001c\",\"completed\":false}");
    let (_, listing) = send(&mut db, "GET /todos HTTP/1.1\r\n\r\n");
    assert_eq!(listing, "[{\"id\":1,\"title\":\"a\\nb\\u0001c\",\"completed\":false}]");
}

#[test]
fn listing_joins_records_with_commas() {
    let mut db = Store::new();
    post_create(&mut db, "a");
    post_create(&mut db, "b");
    let (_, listing) = send(&mut db, "GET /todos HTTP/1.1\r\n\r\n");
    assert_eq!(
        listing,
        "[{\"id\":1,\"title\":\"a\",\"completed\":false},{\"id\":2,\"title\":\"b\",\"completed\":false}]"
    );
}

#[test]
fn last_content_length_header_wins() {
    let mut db = Store::new();
    let request =
        "POST /todos HTTP/1.1\r\nContent-Length: 2\r\ncontent-length: 13\r\n\r\n{\"title\":\"x\"}";
    let (status, _) = send(&mut db, request);
    assert_eq!(status, "201 Created");
}

#[test]
fn unreadable_content_length_counts_as_zero() {
    let mut db = Store::new();
    let request = "POST /todos HTTP/1.1\r\nContent-Length: soon\r\n\r\n{\"title\":\"x\"}";
    let (status, body) = send(&mut db, request);
    assert_eq!(status, "400 Bad Request");
    assert_eq!(body, "Invalid JSON format.");
}

#[test]
fn id_with_leading_plus_is_read_as_numeric() {
    let mut db = Store::new();
    post_create(&mut db, "plus");
    let (status, body) = send(&mut db, "GET /todos/+1 HTTP/1.1\r\n\r\n");
    assert_eq!(status, "200 OK");
    assert!(body.contains("\"title\":\"plus\""));
}

#[test]
fn empty_id_segment_rejected() {
    let mut db = Store::new();
    let (status, body) = send(&mut db, "GET /todos/ HTTP/1.1\r\n\r\n");
    assert_eq!(status, "400 Bad Request");
    assert_eq!(body, "Invalid ID.");
}

#[test]
fn validate_title_accepts_only_non_blank() {
    assert!(validate_todo_title("Learn Rust").is_ok());
    assert_eq!(validate_todo_title(""), Err("Title cannot be empty."));
    assert_eq!(validate_todo_title(" \t\n"), Err("Title cannot be empty."));
    assert_eq!(validate_todo_title("\u{00A0}"), Err("Title cannot be empty."));
    assert!(validate_todo_title(" x ").is_ok());
}

#[test]
fn validate_completed_requires_presence() {
    assert!(validate_todo_completed(&Some(true)).is_ok());
    assert!(validate_todo_completed(&Some(false)).is_ok());
    assert_eq!(
        validate_todo_completed(&None),
        Err("The 'completed' field must be of type bool.")
    );
}

#[test]
fn format_response_exact_layout() {
    let response = format_response("200 OK", "Thu, 01 Jan 1970 00:00:00 GMT", "[]");
    assert_eq!(
        response,
        "HTTP/1.1 200 OK\r\nDate: Thu, 01 Jan 1970 00:00:00 GMT\r\nContent-Type: application/json; charset=UTF-8\r\nContent-Length: 2\r\nConnection: close\r\n\r\n[]"
    );
}

#[test]
fn build_response_carries_status_and_body() {
    let response = build_response("404 Not Found", "Todo not found.");
    assert!(response.starts_with("HTTP/1.1 404 Not Found\r\nDate: "));
    assert!(response.contains("\r\nContent-Length: 15\r\n"));
    assert!(response.ends_with("\r\n\r\nTodo not found."));
}
