use vstd::prelude::*;

verus! {

/// The Unicode `White_Space` characters, the set that `char::is_whitespace`
/// recognizes and that title trimming is defined over.
pub open spec fn is_whitespace_char(c: char) -> bool {
    let n = c as u32;
    (0x09 <= n && n <= 0x0D) || n == 0x20 || n == 0x85 || n == 0xA0 || n == 0x1680 || (0x2000
        <= n && n <= 0x200A) || n == 0x2028 || n == 0x2029 || n == 0x202F || n == 0x205F || n
        == 0x3000
}

/// A title is blank when trimming whitespace from it leaves nothing.
pub open spec fn title_is_blank(s: Seq<char>) -> bool {
    forall|i: int| 0 <= i < s.len() ==> is_whitespace_char(s[i])
}

fn is_ws(c: char) -> (r: bool)
    ensures
        r == is_whitespace_char(c),
{
    let n = c as u32;
    (0x09 <= n && n <= 0x0D) || n == 0x20 || n == 0x85 || n == 0xA0 || n == 0x1680 || (0x2000
        <= n && n <= 0x200A) || n == 0x2028 || n == 0x2029 || n == 0x202F || n == 0x205F || n
        == 0x3000
}

/// A title is accepted exactly when it has a non-whitespace character.
pub fn validate_todo_title(title: &str) -> (r: Result<(), &'static str>)
    ensures
        r is Ok <==> !title_is_blank(title@),
        r matches Err(m) ==> m@ == "Title cannot be empty."@,
{
    let len = title.unicode_len();
    let mut i: usize = 0;
    while i < len
        invariant
            len == title@.len(),
            i <= len,
            forall|k: int| 0 <= k < i ==> is_whitespace_char(title@[k]),
        decreases len - i,
    {
        if !is_ws(title.get_char(i)) {
            return Ok(());
        }
        i = i + 1;
    }
    Err("Title cannot be empty.")
}

/// The update payload is accepted only when its completion flag is present.
pub fn validate_todo_completed(completed: &Option<bool>) -> (r: Result<(), &'static str>)
    ensures
        r is Ok <==> completed is Some,
        r matches Err(m) ==> m@ == "The 'completed' field must be of type bool."@,
{
    if completed.is_some() {
        Ok(())
    } else {
        Err("The 'completed' field must be of type bool.")
    }
}

} // verus!
