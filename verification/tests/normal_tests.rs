use naked_rust_api::{format_response, process_request, Store, Todo};

const TEST_DATE: &str = "Thu, 01 Jan 1970 00:00:00 GMT";

fn respond(db: &mut Store, request: &str) -> String {
    let (status, body) = process_request(request, db);
    format_response(status, TEST_DATE, &body)
}

#[test]
fn test_create_todo() {
    let mut db = Store::new();

    let request_body = r#"{"title":"Learn Rust"}"#;
    let request = format!(
        "POST /todos HTTP/1.1\r\nContent-Length: {}\r\n\r\n{}",
        request_body.len(),
        request_body
    );
    let response = respond(&mut db, &request);

    assert!(response.contains("201 Created"));
    assert!(response.contains("\"title\":\"Learn Rust\""));
}

#[test]
fn test_get_todos() {
    let mut db = Store::new();
    let todo = Todo {
        id: 1,
        title: "Learn Rust".to_string(),
        completed: false,
    };
    db.insert(todo);

    let request = "GET /todos HTTP/1.1\r\n\r\n";
    let response = respond(&mut db, request);

    assert!(response.contains("200 OK"));
    assert!(response.contains("\"title\":\"Learn Rust\""));
}

#[test]
fn test_get_todo() {
    let mut db = Store::new();
    let todo = Todo {
        id: 2,
        title: "Write Tests".to_string(),
        completed: false,
    };
    db.insert(todo);

    let request = "GET /todos/2 HTTP/1.1\r\n\r\n";
    let response = respond(&mut db, request);

    assert!(response.contains("200 OK"));
    assert!(response.contains("\"title\":\"Write Tests\""));
}

#[test]
fn test_update_todo() {
    let mut db = Store::new();
    let todo = Todo {
        id: 3,
        title: "Initial Title".to_string(),
        completed: false,
    };
    db.insert(todo);

    let request_body = r#"{"title":"Updated Title","completed":true}"#;
    let request = format!(
        "PUT /todos/3 HTTP/1.1\r\nContent-Length: {}\r\n\r\n{}",
        request_body.len(),
        request_body
    );
    let response = respond(&mut db, &request);

    assert!(response.contains("200 OK"));
    assert!(response.contains("\"title\":\"Updated Title\""));
    assert!(response.contains("\"completed\":true"));
}

#[test]
fn test_delete_todo() {
    let mut db = Store::new();
    let todo = Todo {
        id: 4,
        title: "To be deleted".to_string(),
        completed: false,
    };
    db.insert(todo);

    let request = "DELETE /todos/4 HTTP/1.1\r\n\r\n";
    let response = respond(&mut db, request);

    assert!(response.contains("200 OK"));
    assert!(response.contains("Todo has been deleted."));
}
