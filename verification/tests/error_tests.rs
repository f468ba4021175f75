use naked_rust_api::{format_response, process_request, Store, Todo};

const TEST_DATE: &str = "Thu, 01 Jan 1970 00:00:00 GMT";

fn respond(db: &mut Store, request: &str) -> String {
    let (status, body) = process_request(request, db);
    format_response(status, TEST_DATE, &body)
}

#[test]
fn test_invalid_request_line() {
    let mut db = Store::new();

    let request = "INVALID / HTTP/1.1\r\n\r\n";
    let response = respond(&mut db, request);

    assert!(response.contains("405 Method Not Allowed"));
}

#[test]
fn test_create_todo_without_title() {
    let mut db = Store::new();

    let request_body = "{}";
    let request = format!(
        "POST /todos HTTP/1.1\r\nContent-Length: {}\r\n\r\n{}",
        request_body.len(),
        request_body
    );
    let response = respond(&mut db, &request);

    assert!(response.contains("400 Bad Request"));
    assert!(response.contains("Title is required."));
}

#[test]
fn test_update_nonexistent_todo() {
    let mut db = Store::new();

    let request_body = r#"{"title":"Nonexistent Todo","completed":true}"#;
    let request = format!(
        "PUT /todos/999 HTTP/1.1\r\nContent-Length: {}\r\n\r\n{}",
        request_body.len(),
        request_body
    );
    let response = respond(&mut db, &request);

    assert!(response.contains("404 Not Found"));
    assert!(response.contains("Todo not found."));
}

#[test]
fn test_delete_nonexistent_todo() {
    let mut db = Store::new();

    let request = "DELETE /todos/999 HTTP/1.1\r\n\r\n";
    let response = respond(&mut db, request);

    assert!(response.contains("404 Not Found"));
    assert!(response.contains("Todo not found."));
}

#[test]
fn test_create_todo_invalid_json() {
    let mut db = Store::new();

    let request_body = r#"{"title":123}"#;
    let request = format!(
        "POST /todos HTTP/1.1\r\nContent-Length: {}\r\n\r\n{}",
        request_body.len(),
        request_body
    );
    let response = respond(&mut db, &request);

    assert!(response.contains("400 Bad Request"));
    assert!(response.contains("Title is required."));
}

#[test]
fn test_update_todo_invalid_json() {
    let mut db = Store::new();
    let todo = Todo {
        id: 5,
        title: "Valid Todo".to_string(),
        completed: false,
    };
    db.insert(todo);

    let request_body = r#"{"title":"Updated Todo","completed":"yes"}"#;
    let request = format!(
        "PUT /todos/5 HTTP/1.1\r\nContent-Length: {}\r\n\r\n{}",
        request_body.len(),
        request_body
    );
    let response = respond(&mut db, &request);

    assert!(response.contains("400 Bad Request"));
    assert!(response.contains("JSON deserialization error occurred."));
}
