//! Reading a language model's extraction output: locating the JSON object in its reply,
//! and spotting a route of administration in free text.
use vstd::prelude::*;
use vstd::string::StringExecFns;
use crate::text::{contains_text, lower_of, occurs_in, to_lower};

verus! {

/// Errors of extraction.
#[derive(Debug)]
pub enum ExtractionError {
    /// The JSON object could not be decoded.
    JsonParse(String),
    /// The reply holds no JSON object.
    InvalidFormat(String),
    /// The model failed.
    Inference(String),
}

/// The route named in a lowercase text: the first of the known spoken forms that occurs in
/// it, in table order.
pub open spec fn route_in(t: Seq<char>) -> Option<Seq<char>> {
    if occurs_in(t, "orally"@) {
        Some("PO"@)
    } else if occurs_in(t, "by mouth"@) {
        Some("PO"@)
    } else if occurs_in(t, " po"@) {
        Some("PO"@)
    } else if occurs_in(t, "intravenously"@) {
        Some("IV"@)
    } else if occurs_in(t, " iv"@) {
        Some("IV"@)
    } else if occurs_in(t, "intramuscularly"@) {
        Some("IM"@)
    } else if occurs_in(t, " im"@) {
        Some("IM"@)
    } else if occurs_in(t, "subcutaneously"@) {
        Some("SQ"@)
    } else if occurs_in(t, "sub-q"@) {
        Some("SQ"@)
    } else if occurs_in(t, "subq"@) {
        Some("SQ"@)
    } else if occurs_in(t, " sq"@) {
        Some("SQ"@)
    } else {
        None
    }
}

fn some_route(r: &str) -> (o: Option<String>)
    ensures
        o matches Some(s) && s@ == r@,
{
    Some(String::from_str(r))
}

/// The route named in the text that follows a drug name, read case-insensitively.
pub fn extract_route(text: &str) -> (r: Option<String>)
    ensures
        match route_in(lower_of(text@)) {
            Some(c) => r matches Some(s) && s@ == c,
            None => r is None,
        },
{
    let lower = to_lower(text);
    let t = lower.as_str();
    if contains_text(t, "orally") {
        some_route("PO")
    } else if contains_text(t, "by mouth") {
        some_route("PO")
    } else if contains_text(t, " po") {
        some_route("PO")
    } else if contains_text(t, "intravenously") {
        some_route("IV")
    } else if contains_text(t, " iv") {
        some_route("IV")
    } else if contains_text(t, "intramuscularly") {
        some_route("IM")
    } else if contains_text(t, " im") {
        some_route("IM")
    } else if contains_text(t, "subcutaneously") {
        some_route("SQ")
    } else if contains_text(t, "sub-q") {
        some_route("SQ")
    } else if contains_text(t, "subq") {
        some_route("SQ")
    } else if contains_text(t, " sq") {
        some_route("SQ")
    } else {
        None
    }
}

/// `i` is the first position of `c` in `s`.
pub open spec fn is_first(s: Seq<char>, c: char, i: int) -> bool {
    0 <= i < s.len() && s[i] == c && forall|k: int| 0 <= k < i ==> s[k] != c
}

/// `j` is the last position of `c` in `s`.
pub open spec fn is_last(s: Seq<char>, c: char, j: int) -> bool {
    0 <= j < s.len() && s[j] == c && forall|k: int| j < k < s.len() ==> s[k] != c
}

fn find_first(s: &str, c: char) -> (r: Option<usize>)
    ensures
        match r {
            Some(i) => is_first(s@, c, i as int),
            None => !s@.contains(c),
        },
{
    let n = s.unicode_len();
    let mut i: usize = 0;
    while i < n
        invariant
            n == s@.len(),
            i <= n,
            forall|k: int| 0 <= k < i ==> s@[k] != c,
        decreases n - i,
    {
        if s.get_char(i) == c {
            return Some(i);
        }
        i = i + 1;
    }
    None
}

fn find_last(s: &str, c: char) -> (r: Option<usize>)
    ensures
        match r {
            Some(j) => is_last(s@, c, j as int),
            None => !s@.contains(c),
        },
{
    let n = s.unicode_len();
    let mut i: usize = n;
    while i > 0
        invariant
            n == s@.len(),
            i <= n,
            forall|k: int| i <= k < n ==> s@[k] != c,
        decreases i,
    {
        i = i - 1;
        if s.get_char(i) == c {
            return Some(i);
        }
    }
    None
}

/// The outermost JSON object of a reply: from its first `{` to its last `}`, so that
/// prose around the object is ignored. Fails with `InvalidFormat` when either brace is
/// missing or the last `}` stands before the first `{`.
pub fn outermost_object(reply: &str) -> (r: Result<String, ExtractionError>)
    ensures
        r matches Ok(o) ==> exists|i: int, j: int|
            is_first(reply@, '{', i) && is_last(reply@, '}', j) && i <= j && o@ == reply@.subrange(
                i,
                j + 1,
            ),
        r is Err ==> (r matches Err(ExtractionError::InvalidFormat(_))),
        r is Err <==> (!reply@.contains('{') || !reply@.contains('}') || exists|i: int, j: int|
            is_first(reply@, '{', i) && is_last(reply@, '}', j) && j < i),
{
    let n = reply.unicode_len();
    assert(n == reply@.len());
    match find_first(reply, '{') {
        None => Err(ExtractionError::InvalidFormat(String::from_str("No JSON object found in response"))),
        Some(start) => match find_last(reply, '}') {
            None => {
                assert(reply@[start as int] == '{');
                Err(ExtractionError::InvalidFormat(String::from_str("No closing brace found in response")))
            },
            Some(end) => {
                assert(reply@[start as int] == '{');
                assert(reply@[end as int] == '}');
                if end < start {
                    Err(ExtractionError::InvalidFormat(String::from_str("No JSON object found in response")))
                } else {
                    proof {
                        assert forall|i: int, j: int|
                            is_first(reply@, '{', i) && is_last(reply@, '}', j) implies !(j < i) by {
                            assert(i == start);
                            assert(j == end);
                        }
                    }
                    let o = reply.substring_char(start, end + 1);
                    Ok(String::from_str(o))
                }
            },
        },
    }
}

} // verus!
