use vstd::prelude::*;
use vstd::string::StringExecFns;
use crate::jsonout::{dec_digits, usize_to_string};

verus! {

/// The byte count of a text in its wire encoding, as the machine counts it.
pub open spec fn byte_len(s: Seq<char>) -> nat {
    (vstd::utf8::encode_utf8(s).len() as usize) as nat
}

/// The full response text: status line, date header, fixed content type,
/// the body's byte count, a close directive, then the body.
pub open spec fn spec_response(status: Seq<char>, date: Seq<char>, body: Seq<char>) -> Seq<char> {
    "HTTP/1.1 "@ + status + "\r\nDate: "@ + date
        + "\r\nContent-Type: application/json; charset=UTF-8\r\nContent-Length: "@ + dec_digits(
        byte_len(body),
    ) + "\r\nConnection: close\r\n\r\n"@ + body
}

/// Serializes a response around the given date header value.
pub fn format_response(status: &str, date: &str, body: &str) -> (r: String)
    ensures
        r@ == spec_response(status@, date@, body@),
{
    let mut s = String::from_str("HTTP/1.1 ");
    s.append(status);
    s.append("\r\nDate: ");
    s.append(date);
    s.append("\r\nContent-Type: application/json; charset=UTF-8\r\nContent-Length: ");
    let num = usize_to_string(body.len());
    s.append(num.as_str());
    s.append("\r\nConnection: close\r\n\r\n");
    s.append(body);
    proof {
        assert(s@ =~= spec_response(status@, date@, body@));
    }
    s
}

/// Relies on chrono's `Utc::now` and `DateTime::format`: the clock read at
/// the call and printed in the date-header shape.  The text depends on the
/// clock, so nothing further is promised of it.
#[verifier::external_body]
fn current_http_date() -> String {
    chrono::Utc::now().format("%a, %d %b %Y %H:%M:%S GMT").to_string()
}

/// Serializes a response dated at the moment of the call: exactly
/// `spec_response` around some date text.
pub fn build_response(status: &str, body: &str) -> (r: String)
    ensures
        exists|d: Seq<char>| r@ == spec_response(status@, d, body@),
{
    let date = current_http_date();
    let r = format_response(status, date.as_str(), body);
    proof {
        assert(r@ == spec_response(status@, date@, body@));
    }
    r
}

} // verus!
