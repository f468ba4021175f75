use vstd::prelude::*;
use crate::router::{
    m_get, m_put, p_todos_slash, spec_create_todo, spec_delete_todo, spec_dispatch, spec_get_todo,
    spec_route, spec_update_todo,
};
use crate::store::{
    find_id, lemma_find_id, lemma_map_of_contains, lemma_map_of_index, lemma_map_of_push,
    lemma_map_of_update, map_of, unique_ids, TodoV,
};
use crate::text::{has_prefix, spec_lines, spec_parse_usize, spec_tokens};
use crate::jsonin::put_update_fields;

verus! {

/// A freshly created record answers with its completion flag unset and with
/// exactly the submitted title, and the store holds that record under the
/// assigned identifier.
pub proof fn lemma_create_record_fields(title: Seq<char>, recs: Seq<TodoV>)
    requires
        unique_ids(recs),
    ensures
        ({
            let out = spec_create_todo(title, recs);
            let id = (recs.len() + 1) as usize;
            out.status is Created201 && map_of(out.records).contains_key(id) && map_of(
                out.records,
            )[id].title == title && map_of(out.records)[id].completed == false
        }),
{
    let id = (recs.len() + 1) as usize;
    let t = TodoV { id: id, title: title, completed: false };
    let f = find_id(recs, id);
    if f >= 0 {
        lemma_find_id(recs, id);
        lemma_map_of_update(recs, f, t);
    } else {
        lemma_map_of_push(recs, t);
    }
}

/// Deleting a record and then querying the same identifier finds nothing.
pub proof fn lemma_delete_then_get_not_found(id: usize, recs: Seq<TodoV>)
    requires
        unique_ids(recs),
    ensures
        ({
            let after = spec_delete_todo(id, recs).records;
            spec_get_todo(id, after).status is NotFound404 && spec_get_todo(id, after).body
                == "Todo not found."@
        }),
{
    let f = find_id(recs, id);
    lemma_find_id(recs, id);
    if f >= 0 {
        let after = recs.remove(f);
        assert(forall|k: int|
            0 <= k < after.len() ==> #[trigger] after[k] == if k < f {
                recs[k]
            } else {
                recs[k + 1]
            });
        lemma_find_id(after, id);
        let g = find_id(after, id);
        if g >= 0 {
            assert(after[g].id == id);
            if g < f {
                assert(recs[g].id == id && recs[f].id == id);
            } else {
                assert(recs[g + 1].id == id && recs[f].id == id);
            }
        }
    }
}

/// Updating an identifier the store does not hold reports it missing and
/// mutates nothing: afterwards the records are as before and the identifier
/// is still absent.
pub proof fn lemma_update_missing_creates_nothing(
    id: usize,
    title: Option<Seq<char>>,
    completed: Option<bool>,
    recs: Seq<TodoV>,
)
    requires
        find_id(recs, id) < 0,
    ensures
        ({
            let out = spec_update_todo(id, title, completed, recs);
            out.status is NotFound404 && out.records == recs && !map_of(
                out.records,
            ).contains_key(id)
        }),
{
    lemma_find_id(recs, id);
    lemma_map_of_contains(recs, id);
    if map_of(recs).contains_key(id) {
        let i = choose|i: int| 0 <= i < recs.len() && recs[i].id == id;
        assert(recs[i].id == id);
    }
}

/// An update naming only the completion flag keeps the title, and an update
/// naming only the title keeps the completion flag: the fields not given
/// are preserved.
pub proof fn lemma_partial_update_preserves_fields(id: usize, recs: Seq<TodoV>)
    requires
        unique_ids(recs),
        find_id(recs, id) >= 0,
    ensures
        ({
            let prev = map_of(recs)[id];
            forall|c: bool|
                {
                    let m = map_of(#[trigger] spec_update_todo(id, None, Some(c), recs).records);
                    m.contains_key(id) && m[id].title == prev.title && m[id].completed == c
                }
        }),
        ({
            let prev = map_of(recs)[id];
            forall|t: Seq<char>|
                {
                    let m = map_of(#[trigger] spec_update_todo(id, Some(t), None, recs).records);
                    m.contains_key(id) && m[id].title == t && m[id].completed == prev.completed
                }
        }),
{
    let f = find_id(recs, id);
    lemma_find_id(recs, id);
    lemma_map_of_index(recs, f);
    assert forall|c: bool|
        {
            let m = map_of(#[trigger] spec_update_todo(id, None, Some(c), recs).records);
            m.contains_key(id) && m[id].title == map_of(recs)[id].title && m[id].completed == c
        } by {
        let prev = recs[f];
        let t = TodoV { id: prev.id, title: prev.title, completed: c };
        lemma_map_of_update(recs, f, t);
    }
    assert forall|t: Seq<char>|
        {
            let m = map_of(#[trigger] spec_update_todo(id, Some(t), None, recs).records);
            m.contains_key(id) && m[id].title == t && m[id].completed == map_of(
                recs,
            )[id].completed
        } by {
        let prev = recs[f];
        let nt = TodoV { id: prev.id, title: t, completed: prev.completed };
        lemma_map_of_update(recs, f, nt);
    }
}

/// An update payload whose completion flag is absent is refused exactly as
/// one whose completion flag has the wrong type: either way the route
/// answers a rejection and the store keeps its records.
pub proof fn lemma_put_requires_boolean_completed(path: Seq<u8>, body: Seq<u8>, recs: Seq<TodoV>)
    requires
        has_prefix(path, p_todos_slash()),
        spec_parse_usize(path.skip(7)) is Some,
        put_update_fields(body) is None || (put_update_fields(body) matches Some(f) && f.1
            is None),
    ensures
        ({
            let out = spec_dispatch(m_put(), path, body, recs);
            out.status is BadRequest400 && out.records == recs
        }),
{
    assert(m_put() != m_get()) by {
        assert(m_put().len() != m_get().len() ==> m_put() != m_get());
        assert(m_put()[1] != m_get()[1]);
    }
}

/// A request line of other than three tokens is answered with the
/// bad-request status, whatever else the request holds.
pub proof fn lemma_short_request_line_rejected(req: Seq<u8>, recs: Seq<TodoV>)
    requires
        spec_lines(req).len() > 0,
        spec_tokens(spec_lines(req)[0]).len() != 3,
    ensures
        spec_route(req, recs).status is BadRequest400,
        spec_route(req, recs).records == recs,
{
}

/// An unsupported protocol version is answered with the version status,
/// however valid the method and path may be.
pub proof fn lemma_unsupported_version_rejected(req: Seq<u8>, recs: Seq<TodoV>)
    requires
        spec_lines(req).len() > 0,
        spec_tokens(spec_lines(req)[0]).len() == 3,
        !crate::router::version_ok(spec_tokens(spec_lines(req)[0])[2]),
    ensures
        spec_route(req, recs).status is VersionNotSupported505,
        spec_route(req, recs).records == recs,
{
}

/// A request whose method token reads a record never changes the store, so
/// repeating it against an unchanged store answers the identical text.
pub proof fn lemma_repeated_get_identical(req: Seq<u8>, recs: Seq<TodoV>)
    requires
        spec_lines(req).len() > 0,
        spec_tokens(spec_lines(req)[0]).len() == 3,
        spec_tokens(spec_lines(req)[0])[0] == m_get(),
    ensures
        spec_route(req, recs).records == recs,
        spec_route(req, spec_route(req, recs).records) == spec_route(req, recs),
{
}

/// Creations are totally ordered by the store's lock, so two of them against
/// an empty store run in sequence: the first is assigned identifier one, the
/// second identifier two, never the same.
pub proof fn lemma_sequential_creates_distinct_ids(t1: Seq<char>, t2: Seq<char>)
    ensures
        ({
            let first = spec_create_todo(t1, Seq::<TodoV>::empty());
            let second = spec_create_todo(t2, first.records);
            first.records.len() == 1 && first.records[0].id == 1 && second.records.len() == 2
                && second.records[1].id == 2 && second.records[1].id != first.records[0].id
        }),
{
    let first = spec_create_todo(t1, Seq::<TodoV>::empty());
    assert(find_id(Seq::<TodoV>::empty(), 1) < 0);
    let r1 = first.records;
    assert(r1 =~= Seq::<TodoV>::empty().push(TodoV { id: 1, title: t1, completed: false }));
    assert(find_id(r1, 2) < 0) by {
        assert(r1[0].id == 1);
        assert(r1.drop_first() =~= Seq::<TodoV>::empty());
        assert(find_id(r1.drop_first(), 2) == -1);
    }
}

} // verus!
