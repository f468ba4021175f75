use vstd::prelude::*;
use vstd::string::StringExecFns;
use crate::store::{Todo, TodoV};

verus! {

/// Relies on `String::push`: appends exactly the one character.
#[verifier::external_body]
fn push_char(s: &mut String, c: char)
    ensures
        final(s)@ == old(s)@.push(c),
{
    s.push(c);
}

/// The ASCII digit for a value below ten.
pub open spec fn digit_char(d: int) -> char {
    ((0x30 + d) as u8) as char
}

/// The decimal digits of a number, most significant first.
pub open spec fn dec_digits(n: nat) -> Seq<char>
    decreases n,
{
    if n < 10 {
        seq![digit_char(n as int)]
    } else {
        dec_digits(n / 10).push(digit_char((n % 10) as int))
    }
}

pub fn usize_to_string(n: usize) -> (r: String)
    ensures
        r@ == dec_digits(n as nat),
    decreases n,
{
    if n < 10 {
        let mut s = String::new();
        push_char(&mut s, ((0x30 + n as u8)) as char);
        proof {
            assert(s@ =~= seq![digit_char(n as int)]);
        }
        s
    } else {
        let mut s = usize_to_string(n / 10);
        push_char(&mut s, (0x30 + (n % 10) as u8) as char);
        s
    }
}

/// The lower-case hex digit for a value below sixteen.
pub open spec fn hex_char(d: int) -> char {
    if d < 10 {
        ((0x30 + d) as u8) as char
    } else {
        ((0x57 + d) as u8) as char
    }
}

/// How one character is written inside a JSON string: quote, backslash and
/// control characters are escaped, all others stand as themselves.
pub open spec fn esc_char(c: char) -> Seq<char> {
    let n = c as u32;
    if c == '"' {
        seq!['\\', '"']
    } else if c == '\\' {
        seq!['\\', '\\']
    } else if n == 0x08 {
        seq!['\\', 'b']
    } else if n == 0x09 {
        seq!['\\', 't']
    } else if n == 0x0A {
        seq!['\\', 'n']
    } else if n == 0x0C {
        seq!['\\', 'f']
    } else if n == 0x0D {
        seq!['\\', 'r']
    } else if n < 0x20 {
        seq!['\\', 'u', '0', '0', hex_char((n / 16) as int), hex_char((n % 16) as int)]
    } else {
        seq![c]
    }
}

/// The text of `s` escaped for a JSON string, from position `i` on.
pub open spec fn escape_rec(s: Seq<char>, i: int) -> Seq<char>
    decreases s.len() - i,
{
    if i < 0 || i >= s.len() {
        Seq::empty()
    } else {
        esc_char(s[i]) + escape_rec(s, i + 1)
    }
}

/// The text of `s` escaped for a JSON string.
pub open spec fn escape_json(s: Seq<char>) -> Seq<char> {
    escape_rec(s, 0)
}

fn append_escaped_char(out: &mut String, c: char)
    ensures
        final(out)@ == old(out)@ + esc_char(c),
{
    let ghost o0 = out@;
    let n = c as u32;
    if c == '"' {
        push_char(out, '\\');
        push_char(out, '"');
    } else if c == '\\' {
        push_char(out, '\\');
        push_char(out, '\\');
    } else if n == 0x08 {
        push_char(out, '\\');
        push_char(out, 'b');
    } else if n == 0x09 {
        push_char(out, '\\');
        push_char(out, 't');
    } else if n == 0x0A {
        push_char(out, '\\');
        push_char(out, 'n');
    } else if n == 0x0C {
        push_char(out, '\\');
        push_char(out, 'f');
    } else if n == 0x0D {
        push_char(out, '\\');
        push_char(out, 'r');
    } else if n < 0x20 {
        push_char(out, '\\');
        push_char(out, 'u');
        push_char(out, '0');
        push_char(out, '0');
        let hi = (n / 16) as u8;
        let lo = (n % 16) as u8;
        let hc = if hi < 10 {
            (0x30 + hi) as char
        } else {
            (0x57 + hi) as char
        };
        let lc = if lo < 10 {
            (0x30 + lo) as char
        } else {
            (0x57 + lo) as char
        };
        push_char(out, hc);
        push_char(out, lc);
    } else {
        push_char(out, c);
    }
    proof {
        assert(out@ =~= o0 + esc_char(c));
    }
}

fn append_escaped(out: &mut String, s: &str)
    ensures
        final(out)@ == old(out)@ + escape_json(s@),
{
    let len = s.unicode_len();
    let mut i: usize = 0;
    while i < len
        invariant
            i <= len,
            len == s@.len(),
            out@ + escape_rec(s@, i as int) == old(out)@ + escape_json(s@),
        decreases len - i,
    {
        let ghost o0 = out@;
        let c = s.get_char(i);
        append_escaped_char(out, c);
        proof {
            assert(escape_rec(s@, i as int) == esc_char(c) + escape_rec(s@, i + 1));
            assert((o0 + esc_char(c)) + escape_rec(s@, i + 1) =~= o0 + (esc_char(c) + escape_rec(
                s@,
                i + 1,
            )));
        }
        i = i + 1;
    }
    proof {
        assert(escape_rec(s@, len as int) =~= Seq::<char>::empty());
        assert(out@ + Seq::<char>::empty() =~= out@);
    }
}

/// The JSON text of one record.
pub open spec fn spec_todo_json(t: TodoV) -> Seq<char> {
    "{\"id\":"@ + dec_digits(t.id as nat) + ",\"title\":\""@ + escape_json(t.title)
        + "\",\"completed\":"@ + (if t.completed {
        "true"@
    } else {
        "false"@
    }) + "}"@
}

pub fn todo_to_json(t: &Todo) -> (r: String)
    ensures
        r@ == spec_todo_json(t@),
{
    let mut s = String::from_str("{\"id\":");
    let num = usize_to_string(t.id);
    s.append(num.as_str());
    s.append(",\"title\":\"");
    append_escaped(&mut s, t.title.as_str());
    s.append("\",\"completed\":");
    if t.completed {
        s.append("true");
    } else {
        s.append("false");
    }
    s.append("}");
    proof {
        assert(s@ =~= spec_todo_json(t@));
    }
    s
}

/// The elements of the JSON array of records, commas between them, from
/// position `i` on.
pub open spec fn todos_json_items(s: Seq<TodoV>, i: int) -> Seq<char>
    decreases s.len() - i,
{
    if i < 0 || i >= s.len() {
        Seq::empty()
    } else if i == s.len() - 1 {
        spec_todo_json(s[i])
    } else {
        spec_todo_json(s[i]) + ","@ + todos_json_items(s, i + 1)
    }
}

/// The JSON array listing every record, in stored order.
pub open spec fn spec_todos_json(s: Seq<TodoV>) -> Seq<char> {
    "["@ + todos_json_items(s, 0) + "]"@
}

pub fn todos_to_json(v: &Vec<Todo>) -> (r: String)
    ensures
        r@ == spec_todos_json(v@.map_values(|t: Todo| t@)),
{
    let ghost sv = v@.map_values(|t: Todo| t@);
    let n = v.len();
    let mut s = String::from_str("[");
    let mut i: usize = 0;
    while i < n
        invariant
            i <= n,
            n == sv.len(),
            sv == v@.map_values(|t: Todo| t@),
            s@ + todos_json_items(sv, i as int) == "["@ + todos_json_items(sv, 0),
        decreases n - i,
    {
        let ghost s0 = s@;
        let piece = todo_to_json(&v[i]);
        s.append(piece.as_str());
        proof {
            assert(piece@ == spec_todo_json(sv[i as int]));
        }
        if i < n - 1 {
            s.append(",");
            proof {
                assert(todos_json_items(sv, i as int) == spec_todo_json(sv[i as int]) + ","@
                    + todos_json_items(sv, i + 1));
                assert(s@ + todos_json_items(sv, i + 1) =~= s0 + todos_json_items(
                    sv,
                    i as int,
                ));
            }
        } else {
            proof {
                assert(todos_json_items(sv, i as int) == spec_todo_json(sv[i as int]));
                assert(todos_json_items(sv, i + 1) =~= Seq::<char>::empty());
                assert(s@ + todos_json_items(sv, i + 1) =~= s0 + todos_json_items(sv, i as int));
            }
        }
        i = i + 1;
    }
    s.append("]");
    proof {
        if n == 0 {
            assert(todos_json_items(sv, 0) =~= Seq::<char>::empty());
        }
        assert(s@ =~= spec_todos_json(sv));
    }
    s
}

} // verus!
