use vstd::prelude::*;
use vstd::string::StringExecFns;
use vstd::string::StringSliceAdditionalSpecFns;
use crate::jsonin::{parse_post_body, parse_put_body, post_title_field, put_update_fields};
use crate::jsonout::{spec_todo_json, spec_todos_json, todo_to_json, todos_to_json};
use crate::store::{
    find_id, lemma_find_id, lemma_map_of_contains, lemma_map_of_index, Store, Todo, TodoV,
};
use crate::text::{
    bytes_eq, ci_eq, ci_eq_bytes, find_sep, find_sep_at, has_prefix, join_lines, parse_usize,
    spec_join, spec_lines, spec_parse_usize, spec_tokens, split_lines, split_ws, starts_with,
    subvec, views,
};
use crate::validate::{title_is_blank, validate_todo_completed, validate_todo_title};

verus! {

/// The status a response is labelled with.
pub ghost enum Status {
    Ok200,
    Created201,
    BadRequest400,
    NotFound404,
    MethodNotAllowed405,
    VersionNotSupported505,
}

/// The status line text for each status.
pub open spec fn status_text(st: Status) -> Seq<char> {
    match st {
        Status::Ok200 => "200 OK"@,
        Status::Created201 => "201 Created"@,
        Status::BadRequest400 => "400 Bad Request"@,
        Status::NotFound404 => "404 Not Found"@,
        Status::MethodNotAllowed405 => "405 Method Not Allowed"@,
        Status::VersionNotSupported505 => "505 HTTP Version Not Supported"@,
    }
}

/// What handling a request amounts to: a status, a response body, and the
/// records the store holds afterwards.
pub ghost struct RouteOut {
    pub status: Status,
    pub body: Seq<char>,
    pub records: Seq<TodoV>,
}

/// A response that leaves the store as it was.
pub open spec fn rejected(st: Status, body: Seq<char>, recs: Seq<TodoV>) -> RouteOut {
    RouteOut { status: st, body: body, records: recs }
}

/// Listing: every record as a JSON array, the store unchanged.
pub open spec fn spec_get_todos(recs: Seq<TodoV>) -> RouteOut {
    RouteOut { status: Status::Ok200, body: spec_todos_json(recs), records: recs }
}

/// Lookup: the record's JSON when `id` is held, else the not-found reply.
pub open spec fn spec_get_todo(id: usize, recs: Seq<TodoV>) -> RouteOut {
    let f = find_id(recs, id);
    if f >= 0 {
        RouteOut { status: Status::Ok200, body: spec_todo_json(recs[f]), records: recs }
    } else {
        rejected(Status::NotFound404, "Todo not found."@, recs)
    }
}

/// Creation: the fresh record takes identifier count-plus-one and an unset
/// completion flag; a live record under that identifier is replaced.
pub open spec fn spec_create_todo(title: Seq<char>, recs: Seq<TodoV>) -> RouteOut {
    let id = (recs.len() + 1) as usize;
    let t = TodoV { id: id, title: title, completed: false };
    let f = find_id(recs, id);
    RouteOut {
        status: Status::Created201,
        body: spec_todo_json(t),
        records: if f >= 0 {
            recs.update(f, t)
        } else {
            recs.push(t)
        },
    }
}

/// Update: only the fields given change; an absent identifier is reported
/// and nothing is created.
pub open spec fn spec_update_todo(
    id: usize,
    title: Option<Seq<char>>,
    completed: Option<bool>,
    recs: Seq<TodoV>,
) -> RouteOut {
    let f = find_id(recs, id);
    if f < 0 {
        rejected(Status::NotFound404, "Todo not found."@, recs)
    } else {
        let prev = recs[f];
        let t = TodoV {
            id: prev.id,
            title: match title {
                Some(tt) => tt,
                None => prev.title,
            },
            completed: match completed {
                Some(c) => c,
                None => prev.completed,
            },
        };
        RouteOut { status: Status::Ok200, body: spec_todo_json(t), records: recs.update(f, t) }
    }
}

/// Deletion: the record leaves the store when held, else the absence is
/// reported.
pub open spec fn spec_delete_todo(id: usize, recs: Seq<TodoV>) -> RouteOut {
    let f = find_id(recs, id);
    if f >= 0 {
        RouteOut {
            status: Status::Ok200,
            body: "Todo has been deleted."@,
            records: recs.remove(f),
        }
    } else {
        rejected(Status::NotFound404, "Todo not found."@, recs)
    }
}

pub open spec fn m_get() -> Seq<u8> {
    seq!['G' as u8, 'E' as u8, 'T' as u8]
}

pub open spec fn m_post() -> Seq<u8> {
    seq!['P' as u8, 'O' as u8, 'S' as u8, 'T' as u8]
}

pub open spec fn m_put() -> Seq<u8> {
    seq!['P' as u8, 'U' as u8, 'T' as u8]
}

pub open spec fn m_delete() -> Seq<u8> {
    seq!['D' as u8, 'E' as u8, 'L' as u8, 'E' as u8, 'T' as u8, 'E' as u8]
}

pub open spec fn p_todos() -> Seq<u8> {
    seq!['/' as u8, 't' as u8, 'o' as u8, 'd' as u8, 'o' as u8, 's' as u8]
}

pub open spec fn p_todos_slash() -> Seq<u8> {
    p_todos().push('/' as u8)
}

pub open spec fn v_http11() -> Seq<u8> {
    seq![
        'H' as u8,
        'T' as u8,
        'T' as u8,
        'P' as u8,
        '/' as u8,
        '1' as u8,
        '.' as u8,
        '1' as u8,
    ]
}

pub open spec fn v_http10() -> Seq<u8> {
    seq![
        'H' as u8,
        'T' as u8,
        'T' as u8,
        'P' as u8,
        '/' as u8,
        '1' as u8,
        '.' as u8,
        '0' as u8,
    ]
}

pub open spec fn v_http20() -> Seq<u8> {
    seq![
        'H' as u8,
        'T' as u8,
        'T' as u8,
        'P' as u8,
        '/' as u8,
        '2' as u8,
        '.' as u8,
        '0' as u8,
    ]
}

pub open spec fn hk_content_length() -> Seq<u8> {
    seq![
        'C' as u8,
        'o' as u8,
        'n' as u8,
        't' as u8,
        'e' as u8,
        'n' as u8,
        't' as u8,
        '-' as u8,
        'L' as u8,
        'e' as u8,
        'n' as u8,
        'g' as u8,
        't' as u8,
        'h' as u8,
    ]
}

/// The protocol versions the router accepts.
pub open spec fn version_ok(v: Seq<u8>) -> bool {
    v == v_http11() || v == v_http10() || v == v_http20()
}

/// What scanning the header lines yields: a malformed line, or the start of
/// the body lines together with the declared content length (the last
/// `Content-Length` header wins; an unreadable value counts as zero).
pub ghost enum HeaderScan {
    Bad,
    Fine { body_from: int, content_len: usize },
}

pub open spec fn spec_headers(ls: Seq<Seq<u8>>, i: int, cl: usize) -> HeaderScan
    decreases ls.len() - i,
{
    if i < 0 || i >= ls.len() {
        HeaderScan::Fine { body_from: if i < 0 { 0 } else { i }, content_len: cl }
    } else if ls[i].len() == 0 {
        HeaderScan::Fine { body_from: i + 1, content_len: cl }
    } else {
        let sep = find_sep(ls[i], 0);
        if sep < 0 {
            HeaderScan::Bad
        } else {
            let key = ls[i].subrange(0, sep);
            let value = ls[i].subrange(sep + 2, ls[i].len() as int);
            let cl2 = if ci_eq(key, hk_content_length()) {
                match spec_parse_usize(value) {
                    Some(v) => v,
                    None => 0,
                }
            } else {
                cl
            };
            spec_headers(ls, i + 1, cl2)
        }
    }
}

/// Routing of one request, its line already parsed: the method and path pick
/// the handler, the body is read only where the route takes one.
pub open spec fn spec_dispatch(
    method: Seq<u8>,
    path: Seq<u8>,
    body: Seq<u8>,
    recs: Seq<TodoV>,
) -> RouteOut {
    if method == m_get() {
        if path == p_todos() {
            spec_get_todos(recs)
        } else if has_prefix(path, p_todos_slash()) {
            match spec_parse_usize(path.skip(7)) {
                Some(id) => spec_get_todo(id, recs),
                None => rejected(Status::BadRequest400, "Invalid ID."@, recs),
            }
        } else {
            rejected(Status::NotFound404, "Endpoint not found."@, recs)
        }
    } else if method == m_post() {
        if path == p_todos() {
            match post_title_field(body) {
                None => rejected(Status::BadRequest400, "Invalid JSON format."@, recs),
                Some(None) => rejected(Status::BadRequest400, "Title is required."@, recs),
                Some(Some(t)) => if title_is_blank(t@) {
                    rejected(Status::BadRequest400, "Title cannot be empty."@, recs)
                } else {
                    spec_create_todo(t@, recs)
                },
            }
        } else {
            rejected(Status::NotFound404, "Endpoint not found."@, recs)
        }
    } else if method == m_put() {
        if has_prefix(path, p_todos_slash()) {
            match spec_parse_usize(path.skip(7)) {
                None => rejected(Status::BadRequest400, "Invalid ID."@, recs),
                Some(id) => match put_update_fields(body) {
                    None => rejected(
                        Status::BadRequest400,
                        "JSON deserialization error occurred."@,
                        recs,
                    ),
                    Some(fields) => if fields.0 matches Some(t) && title_is_blank(t@) {
                        rejected(Status::BadRequest400, "Title cannot be empty."@, recs)
                    } else if fields.1 is None {
                        rejected(
                            Status::BadRequest400,
                            "The 'completed' field must be of type bool."@,
                            recs,
                        )
                    } else {
                        spec_update_todo(
                            id,
                            match fields.0 {
                                Some(t) => Some(t@),
                                None => None,
                            },
                            fields.1,
                            recs,
                        )
                    },
                },
            }
        } else {
            rejected(Status::NotFound404, "Endpoint not found."@, recs)
        }
    } else if method == m_delete() {
        if has_prefix(path, p_todos_slash()) {
            match spec_parse_usize(path.skip(7)) {
                Some(id) => spec_delete_todo(id, recs),
                None => rejected(Status::BadRequest400, "Invalid ID."@, recs),
            }
        } else {
            rejected(Status::NotFound404, "Endpoint not found."@, recs)
        }
    } else {
        rejected(Status::MethodNotAllowed405, "Method is not allowed."@, recs)
    }
}

/// The request after line splitting: request line, version check, header
/// scan, then the body cut to the declared length.  A body shorter than
/// declared is rejected rather than read out of bounds.
pub open spec fn spec_route_lines(ls: Seq<Seq<u8>>, recs: Seq<TodoV>) -> RouteOut {
    if ls.len() == 0 {
        rejected(Status::BadRequest400, "Invalid request."@, recs)
    } else {
        let toks = spec_tokens(ls[0]);
        if toks.len() != 3 {
            rejected(Status::BadRequest400, "Invalid request line."@, recs)
        } else if !version_ok(toks[2]) {
            rejected(Status::VersionNotSupported505, "HTTP version is not supported."@, recs)
        } else {
            match spec_headers(ls, 1, 0) {
                HeaderScan::Bad => rejected(
                    Status::BadRequest400,
                    "Invalid header format."@,
                    recs,
                ),
                HeaderScan::Fine { body_from, content_len } => {
                    let body_all = spec_join(ls, body_from);
                    if content_len > body_all.len() {
                        rejected(Status::BadRequest400, "Invalid request."@, recs)
                    } else {
                        spec_dispatch(toks[0], toks[1], body_all.take(content_len as int), recs)
                    }
                },
            }
        }
    }
}

/// What the router answers and how the store changes, for any request text
/// and store contents.
pub open spec fn spec_route(req: Seq<u8>, recs: Seq<TodoV>) -> RouteOut {
    spec_route_lines(spec_lines(req), recs)
}

fn process_request_get_todos(db: &Store) -> (r: (&'static str, String))
    ensures
        ({
            let out = spec_get_todos(db.records());
            r.0@ == status_text(out.status) && r.1@ == out.body
        }),
{
    ("200 OK", todos_to_json(db.all()))
}

/// One record read back: its JSON exactly as stored, or the not-found
/// reply; the store is untouched.
pub fn get_todo(id: usize, db: &Store) -> (r: (&'static str, String))
    requires
        db.wf(),
    ensures
        ({
            let out = spec_get_todo(id, db.records());
            r.0@ == status_text(out.status) && r.1@ == out.body
        }),
{
    proof {
        lemma_map_of_contains(db.records(), id);
        lemma_find_id(db.records(), id);
    }
    match db.get(id) {
        Some(t) => {
            proof {
                let recs = db.records();
                let f = find_id(recs, id);
                assert(f >= 0) by {
                    if f < 0 {
                        assert(forall|i: int| 0 <= i < recs.len() ==> recs[i].id != id);
                    }
                }
                lemma_map_of_index(recs, f);
            }
            ("200 OK", todo_to_json(t))
        },
        None => {
            proof {
                let recs = db.records();
                let f = find_id(recs, id);
                if f >= 0 {
                    assert(recs[f].id == id);
                }
            }
            ("404 Not Found", String::from_str("Todo not found."))
        },
    }
}

/// Creation: the record answered carries the submitted title unchanged and
/// an unset completion flag, and the store holds it afterwards.
pub fn create_todo(title: String, db: &mut Store) -> (r: (&'static str, String))
    requires
        old(db).wf(),
        old(db).records().len() < usize::MAX,
    ensures
        final(db).wf(),
        ({
            let out = spec_create_todo(title@, old(db).records());
            final(db).records() == out.records && r.0@ == status_text(out.status) && r.1@
                == out.body
        }),
{
    let id = db.len() + 1;
    let todo = Todo { id: id, title: title, completed: false };
    let body = todo_to_json(&todo);
    db.insert(todo);
    ("201 Created", body)
}

/// Update: only the fields given change, the rest of the record is kept; an
/// absent identifier is reported and the store is left as it was.
pub fn update_todo(
    id: usize,
    title: Option<String>,
    completed: Option<bool>,
    db: &mut Store,
) -> (r: (&'static str, String))
    requires
        old(db).wf(),
    ensures
        final(db).wf(),
        ({
            let out = spec_update_todo(
                id,
                match title {
                    Some(t) => Some(t@),
                    None => None,
                },
                completed,
                old(db).records(),
            );
            final(db).records() == out.records && r.0@ == status_text(out.status) && r.1@
                == out.body
        }),
{
    let ghost recs = db.records();
    proof {
        lemma_map_of_contains(recs, id);
        lemma_find_id(recs, id);
    }
    let updated: Option<Todo> = match db.get(id) {
        Some(t) => {
            proof {
                let f = find_id(recs, id);
                assert(f >= 0) by {
                    if f < 0 {
                        assert(forall|i: int| 0 <= i < recs.len() ==> recs[i].id != id);
                    }
                }
                lemma_map_of_index(recs, f);
            }
            let new_title = match title {
                Some(tt) => tt,
                None => t.title.clone(),
            };
            let new_completed = match completed {
                Some(c) => c,
                None => t.completed,
            };
            Some(Todo { id: t.id, title: new_title, completed: new_completed })
        },
        None => None,
    };
    match updated {
        Some(todo) => {
            let body = todo_to_json(&todo);
            db.insert(todo);
            ("200 OK", body)
        },
        None => {
            proof {
                let f = find_id(recs, id);
                if f >= 0 {
                    assert(recs[f].id == id);
                }
            }
            ("404 Not Found", String::from_str("Todo not found."))
        },
    }
}

/// Deletion: the record leaves the store when held; an absent identifier is
/// reported and the store is left as it was.
pub fn delete_todo(id: usize, db: &mut Store) -> (r: (&'static str, String))
    requires
        old(db).wf(),
    ensures
        final(db).wf(),
        ({
            let out = spec_delete_todo(id, old(db).records());
            final(db).records() == out.records && r.0@ == status_text(out.status) && r.1@
                == out.body
        }),
{
    let ghost recs = db.records();
    proof {
        lemma_map_of_contains(recs, id);
        lemma_find_id(recs, id);
        let f = find_id(recs, id);
        if f >= 0 {
            assert(recs[f].id == id);
        }
    }
    if db.remove(id) {
        ("200 OK", String::from_str("Todo has been deleted."))
    } else {
        ("404 Not Found", String::from_str("Todo not found."))
    }
}

fn dispatch(method: &Vec<u8>, path: &Vec<u8>, body: &Vec<u8>, db: &mut Store) -> (r: (
    &'static str,
    String,
))
    requires
        old(db).wf(),
        old(db).records().len() < usize::MAX,
    ensures
        final(db).wf(),
        ({
            let out = spec_dispatch(method@, path@, body@, old(db).records());
            final(db).records() == out.records && r.0@ == status_text(out.status) && r.1@
                == out.body
        }),
{
    let ghost recs = db.records();
    let p_todos_v: Vec<u8> = vec![
        '/' as u8,
        't' as u8,
        'o' as u8,
        'd' as u8,
        'o' as u8,
        's' as u8,
    ];
    let p_slash_v: Vec<u8> = vec![
        '/' as u8,
        't' as u8,
        'o' as u8,
        'd' as u8,
        'o' as u8,
        's' as u8,
        '/' as u8,
    ];
    proof {
        assert(p_todos_v@ =~= p_todos());
        assert(p_slash_v@ =~= p_todos_slash());
    }
    let m_get_v: Vec<u8> = vec!['G' as u8, 'E' as u8, 'T' as u8];
    proof {
        assert(m_get_v@ =~= m_get());
    }
    if bytes_eq(method.as_slice(), m_get_v.as_slice()) {
        if bytes_eq(path.as_slice(), p_todos_v.as_slice()) {
            return process_request_get_todos(db);
        } else if starts_with(path.as_slice(), p_slash_v.as_slice()) {
            let idb = subvec(path, 7, path.len());
            proof {
                assert(idb@ =~= path@.skip(7));
            }
            match parse_usize(idb.as_slice()) {
                Some(id) => {
                    return get_todo(id, db);
                },
                None => {
                    return ("400 Bad Request", String::from_str("Invalid ID."));
                },
            }
        } else {
            return ("404 Not Found", String::from_str("Endpoint not found."));
        }
    }
    let m_post_v: Vec<u8> = vec!['P' as u8, 'O' as u8, 'S' as u8, 'T' as u8];
    proof {
        assert(m_post_v@ =~= m_post());
    }
    if bytes_eq(method.as_slice(), m_post_v.as_slice()) {
        if bytes_eq(path.as_slice(), p_todos_v.as_slice()) {
            match parse_post_body(body) {
                None => {
                    return ("400 Bad Request", String::from_str("Invalid JSON format."));
                },
                Some(None) => {
                    return ("400 Bad Request", String::from_str("Title is required."));
                },
                Some(Some(title)) => {
                    match validate_todo_title(title.as_str()) {
                        Err(e) => {
                            return ("400 Bad Request", String::from_str(e));
                        },
                        Ok(_) => {
                            return create_todo(title, db);
                        },
                    }
                },
            }
        } else {
            return ("404 Not Found", String::from_str("Endpoint not found."));
        }
    }
    let m_put_v: Vec<u8> = vec!['P' as u8, 'U' as u8, 'T' as u8];
    proof {
        assert(m_put_v@ =~= m_put());
    }
    if bytes_eq(method.as_slice(), m_put_v.as_slice()) {
        if starts_with(path.as_slice(), p_slash_v.as_slice()) {
            let idb = subvec(path, 7, path.len());
            proof {
                assert(idb@ =~= path@.skip(7));
            }
            match parse_usize(idb.as_slice()) {
                None => {
                    return ("400 Bad Request", String::from_str("Invalid ID."));
                },
                Some(id) => {
                    match parse_put_body(body) {
                        None => {
                            return (
                                "400 Bad Request",
                                String::from_str("JSON deserialization error occurred."),
                            );
                        },
                        Some(fields) => {
                            let (ot, oc) = fields;
                            match &ot {
                                Some(t) => {
                                    match validate_todo_title(t.as_str()) {
                                        Err(e) => {
                                            return ("400 Bad Request", String::from_str(e));
                                        },
                                        Ok(_) => {},
                                    }
                                },
                                None => {},
                            }
                            match validate_todo_completed(&oc) {
                                Err(e) => {
                                    return ("400 Bad Request", String::from_str(e));
                                },
                                Ok(_) => {},
                            }
                            return update_todo(id, ot, oc, db);
                        },
                    }
                },
            }
        } else {
            return ("404 Not Found", String::from_str("Endpoint not found."));
        }
    }
    let m_delete_v: Vec<u8> = vec![
        'D' as u8,
        'E' as u8,
        'L' as u8,
        'E' as u8,
        'T' as u8,
        'E' as u8,
    ];
    proof {
        assert(m_delete_v@ =~= m_delete());
    }
    if bytes_eq(method.as_slice(), m_delete_v.as_slice()) {
        if starts_with(path.as_slice(), p_slash_v.as_slice()) {
            let idb = subvec(path, 7, path.len());
            proof {
                assert(idb@ =~= path@.skip(7));
            }
            match parse_usize(idb.as_slice()) {
                Some(id) => {
                    return delete_todo(id, db);
                },
                None => {
                    return ("400 Bad Request", String::from_str("Invalid ID."));
                },
            }
        } else {
            return ("404 Not Found", String::from_str("Endpoint not found."));
        }
    }
    ("405 Method Not Allowed", String::from_str("Method is not allowed."))
}

/// The router: parses the raw request text, validates it, drives the store,
/// and answers with a status line and a response body.  Its whole behaviour,
/// for every request text and store state, is `spec_route`.
pub fn process_request(request: &str, db: &mut Store) -> (r: (&'static str, String))
    requires
        old(db).wf(),
        old(db).records().len() < usize::MAX,
    ensures
        final(db).wf(),
        ({
            let out = spec_route(request.spec_bytes(), old(db).records());
            final(db).records() == out.records && r.0@ == status_text(out.status) && r.1@
                == out.body
        }),
{
    let bytes = request.as_bytes();
    let ghost req = request.spec_bytes();
    let ghost recs = db.records();
    let lines = split_lines(bytes);
    let ghost ls = views(lines@);
    proof {
        assert(ls == spec_lines(req));
    }
    if lines.len() == 0 {
        return ("400 Bad Request", String::from_str("Invalid request."));
    }
    let toks = split_ws(&lines[0]);
    let ghost tks = views(toks@);
    proof {
        assert(lines@[0]@ == ls[0]);
        assert(tks == spec_tokens(ls[0]));
    }
    if toks.len() != 3 {
        return ("400 Bad Request", String::from_str("Invalid request line."));
    }
    let v11: Vec<u8> = vec![
        'H' as u8,
        'T' as u8,
        'T' as u8,
        'P' as u8,
        '/' as u8,
        '1' as u8,
        '.' as u8,
        '1' as u8,
    ];
    let v10: Vec<u8> = vec![
        'H' as u8,
        'T' as u8,
        'T' as u8,
        'P' as u8,
        '/' as u8,
        '1' as u8,
        '.' as u8,
        '0' as u8,
    ];
    let v20: Vec<u8> = vec![
        'H' as u8,
        'T' as u8,
        'T' as u8,
        'P' as u8,
        '/' as u8,
        '2' as u8,
        '.' as u8,
        '0' as u8,
    ];
    proof {
        assert(v11@ =~= v_http11());
        assert(v10@ =~= v_http10());
        assert(v20@ =~= v_http20());
        assert(toks@[2]@ == tks[2]);
    }
    let version_good = bytes_eq(toks[2].as_slice(), v11.as_slice()) || bytes_eq(
        toks[2].as_slice(),
        v10.as_slice(),
    ) || bytes_eq(toks[2].as_slice(), v20.as_slice());
    if !version_good {
        return ("505 HTTP Version Not Supported", String::from_str(
            "HTTP version is not supported.",
        ));
    }
    let cl_key: Vec<u8> = vec![
        'C' as u8,
        'o' as u8,
        'n' as u8,
        't' as u8,
        'e' as u8,
        'n' as u8,
        't' as u8,
        '-' as u8,
        'L' as u8,
        'e' as u8,
        'n' as u8,
        'g' as u8,
        't' as u8,
        'h' as u8,
    ];
    proof {
        assert(cl_key@ =~= hk_content_length());
    }
    let n = lines.len();
    let mut i: usize = 1;
    let mut cl: usize = 0;
    while i < n && lines[i].len() > 0
        invariant
            1 <= i <= n,
            n == lines@.len(),
            ls == views(lines@),
            cl_key@ == hk_content_length(),
            spec_headers(ls, 1, 0) == spec_headers(ls, i as int, cl),
            db.wf(),
            db.records() == old(db).records(),
            recs == old(db).records(),
            req == request.spec_bytes(),
            ls == spec_lines(req),
            tks == spec_tokens(ls[0]),
            tks.len() == 3,
            version_ok(tks[2]),
        decreases n - i,
    {
        proof {
            assert(lines@[i as int]@ == ls[i as int]);
        }
        let ghost cl_old = cl;
        match find_sep_at(&lines[i]) {
            None => {
                proof {
                    assert(spec_headers(ls, i as int, cl) == HeaderScan::Bad);
                }
                return ("400 Bad Request", String::from_str("Invalid header format."));
            },
            Some(sep) => {
                proof {
                    crate::text::lemma_find_sep_props(ls[i as int], 0);
                }
                let key = subvec(&lines[i], 0, sep);
                let value = subvec(&lines[i], sep + 2, lines[i].len());
                if ci_eq_bytes(key.as_slice(), cl_key.as_slice()) {
                    cl = match parse_usize(value.as_slice()) {
                        Some(v) => v,
                        None => 0,
                    };
                }
                proof {
                    assert(key@ == ls[i as int].subrange(0, sep as int));
                    assert(value@ == ls[i as int].subrange(sep + 2, ls[i as int].len() as int));
                    assert(spec_headers(ls, i as int, cl_old) == spec_headers(ls, i + 1, cl));
                }
            },
        }
        i = i + 1;
    }
    let body_from = if i < n {
        i + 1
    } else {
        i
    };
    proof {
        assert(spec_headers(ls, 1, 0) == (HeaderScan::Fine {
            body_from: body_from as int,
            content_len: cl,
        }));
    }
    let body_all = join_lines(&lines, body_from);
    if cl > body_all.len() {
        return ("400 Bad Request", String::from_str("Invalid request."));
    }
    let body = subvec(&body_all, 0, cl);
    proof {
        assert(body@ =~= spec_join(ls, body_from as int).take(cl as int));
        assert(toks@[0]@ == tks[0]);
        assert(toks@[1]@ == tks[1]);
    }
    dispatch(&toks[0], &toks[1], &body, db)
}

} // verus!
