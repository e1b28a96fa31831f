//! Outgoing HTTP requests as data: where they go, their headers, and their
//! JSON bodies.
use vstd::prelude::*;

use crate::json::JsonValue;
use crate::text::{concat_str, decimal, owned, push_decimal};

verus! {

/// An HTTP POST to make: where, with which headers, with which JSON body.
pub struct HttpPost {
    pub url: String,
    pub headers: Vec<(String, String)>,
    pub body: JsonValue,
}

/// The reason phrase that the `http` crate's status table holds for a status
/// code (`None` where the table has none).
pub uninterp spec fn reason_phrase(status: u16) -> Option<Seq<char>>;

/// `reqwest::StatusCode::from_u16(status)` then `canonical_reason()`: the
/// reason phrase of a status code. `from_u16` only turns the number into a
/// status code, which it does for every number in 100..=999. Claimed: the
/// phrase depends on the number alone, and is named `reason_phrase`; the
/// table itself is not stated.
#[verifier::external_body]
fn canonical_reason(status: u16) -> (r: Option<&'static str>)
    requires
        100 <= status <= 999,
    ensures
        r matches Some(p) ==> reason_phrase(status) == Some(p@),
        r is None ==> reason_phrase(status) is None,
{
    match reqwest::StatusCode::from_u16(status) {
        Ok(code) => code.canonical_reason(),
        Err(_) => None,
    }
}

/// How an HTTP status reads in text: its number, then its reason phrase, or
/// `<unknown status code>` where there is none (numbers outside 100..=999
/// are no status code and have none).
pub open spec fn status_text_of(status: u16) -> Seq<char> {
    decimal(status as nat) + " "@ + match if 100 <= status <= 999 {
        reason_phrase(status)
    } else {
        None
    } {
        Some(p) => p,
        None => "<unknown status code>"@,
    }
}

/// How an HTTP status reads in text, e.g. `401 Unauthorized`.
pub fn status_text(status: u16) -> (t: String)
    ensures
        t@ == status_text_of(status),
{
    let mut t = String::new();
    push_decimal(&mut t, status as u64);
    let t = concat_str(t, " ");
    let reason = if 100 <= status && status <= 999 {
        canonical_reason(status)
    } else {
        None
    };
    match reason {
        Some(p) => concat_str(t, p),
        None => concat_str(t, "<unknown status code>"),
    }
}

/// Whether `headers` are exactly the `expected` (name, value) pairs, in order.
pub open spec fn headers_are(
    headers: Seq<(String, String)>,
    expected: Seq<(Seq<char>, Seq<char>)>,
) -> bool {
    &&& headers.len() == expected.len()
    &&& forall|i: int|
        0 <= i < headers.len() ==> #[trigger] headers[i].0@ == expected[i].0 && headers[i].1@
            == expected[i].1
}

/// Whether `v` is the string `s`.
pub open spec fn is_str(v: JsonValue, s: Seq<char>) -> bool {
    v matches JsonValue::Str(t) && t@ == s
}

/// Whether `v` is a chat message object `{"role": role, "content": content}`.
pub open spec fn is_message(v: JsonValue, role: Seq<char>, content: Seq<char>) -> bool {
    &&& v matches JsonValue::Object(es)
    &&& es@.len() == 2
    &&& es@[0].0@ == "role"@ && is_str(es@[0].1, role)
    &&& es@[1].0@ == "content"@ && is_str(es@[1].1, content)
}

} // verus!
