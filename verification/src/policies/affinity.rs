//! The affinity key of a request: what decides where a session lands.
//!
//! In order of rank: the value of the header `x-session-id`; the value of
//! the first `session_id` field in the body, at any depth; the body itself.
//! The one of highest rank that exists is the key, and no other.

use crate::policies::hashing::finish;
use crate::policies::hashing::fold_range;
use crate::policies::hashing::hash;
use crate::policies::hashing::hash_bytes;
use crate::policies::hashing::FNV_OFFSET;
use crate::policies::headers::RequestHeaders;
use vstd::prelude::*;
use vstd::utf8::encode_utf8;

verus! {

pub const QUOTE: u8 = 0x22;

pub const BACKSLASH: u8 = 0x5c;

pub const COLON: u8 = 0x3a;

/// Blank, tab, line feed or carriage return.
pub open spec fn is_space(byte: u8) -> bool {
    byte == 0x20 || byte == 0x09 || byte == 0x0a || byte == 0x0d
}

/// Where the string whose contents begin at `i` is closed: the position of
/// the first quote at or after `i` that no backslash escapes; the length of
/// `s` if the string is never closed.
pub open spec fn string_end(s: Seq<u8>, i: int) -> int
    decreases s.len() - i,
{
    if i < 0 || i >= s.len() {
        s.len() as int
    } else if s[i] == QUOTE {
        i
    } else if s[i] == BACKSLASH {
        if i + 1 < s.len() {
            string_end(s, i + 2)
        } else {
            s.len() as int
        }
    } else {
        string_end(s, i + 1)
    }
}

/// The first position at or after `i` that holds no space.
pub open spec fn skip_spaces(s: Seq<u8>, i: int) -> int
    decreases s.len() - i,
{
    if 0 <= i < s.len() && is_space(s[i]) {
        skip_spaces(s, i + 1)
    } else {
        i
    }
}

/// The name of the field that carries a session.
pub open spec fn session_field() -> Seq<u8> {
    encode_utf8("session_id"@)
}

/// A closed string ends at or after its beginning, within the text.
pub proof fn lemma_string_end_bounds(s: Seq<u8>, i: int)
    requires
        0 <= i <= s.len(),
    ensures
        i <= string_end(s, i) <= s.len(),
    decreases s.len() - i,
{
    if i < s.len() && s[i] != QUOTE {
        if s[i] == BACKSLASH {
            if i + 1 < s.len() {
                lemma_string_end_bounds(s, i + 2);
            }
        } else {
            lemma_string_end_bounds(s, i + 1);
        }
    }
}

/// Skipping spaces moves forward, within the text.
pub proof fn lemma_skip_spaces_bounds(s: Seq<u8>, i: int)
    requires
        0 <= i <= s.len(),
    ensures
        i <= skip_spaces(s, i) <= s.len(),
    decreases s.len() - i,
{
    if i < s.len() && is_space(s[i]) {
        lemma_skip_spaces_bounds(s, i + 1);
    }
}

/// Where the value of the first `session_id` field at or after `i` begins
/// and ends, for `i` outside any string. A field is a string `"session_id"`
/// that is followed, after spaces, by a colon; its value counts if, after
/// spaces, it is a closed string, and is then what stands between the
/// quotes, escapes as they are written. A field whose value is no string is
/// passed over; a string that is never closed ends the search.
pub open spec fn find_session_id(s: Seq<u8>, i: int) -> Option<(int, int)>
    decreases s.len() - i,
{
    if i < 0 || i >= s.len() {
        None
    } else if s[i] != QUOTE {
        find_session_id(s, i + 1)
    } else {
        let end = string_end(s, i + 1);
        let colon = skip_spaces(s, end + 1);
        let open = skip_spaces(s, colon + 1);
        let close = string_end(s, open + 1);
        proof {
            lemma_string_end_bounds(s, i + 1);
            if end < s.len() {
                lemma_skip_spaces_bounds(s, end + 1);
            }
        }
        if end >= s.len() {
            None
        } else if s.subrange(i + 1, end) != session_field() || colon >= s.len() || s[colon]
            != COLON {
            find_session_id(s, end + 1)
        } else if open >= s.len() || s[open] != QUOTE {
            find_session_id(s, colon + 1)
        } else if close >= s.len() {
            None
        } else {
            Some((open + 1, close))
        }
    }
}

/// A value that is found stands between two quotes of the text.
pub proof fn law_session_id_is_quoted(s: Seq<u8>, i: int)
    requires
        0 <= i,
        find_session_id(s, i) is Some,
    ensures
        i < find_session_id(s, i).unwrap().0 <= find_session_id(s, i).unwrap().1 < s.len(),
        s[find_session_id(s, i).unwrap().0 - 1] == QUOTE,
        s[find_session_id(s, i).unwrap().1] == QUOTE,
    decreases s.len() - i,
{
    if s[i] != QUOTE {
        law_session_id_is_quoted(s, i + 1);
    } else {
        let end = string_end(s, i + 1);
        let colon = skip_spaces(s, end + 1);
        let open = skip_spaces(s, colon + 1);
        lemma_string_end_bounds(s, i + 1);
        lemma_skip_spaces_bounds(s, end + 1);
        if s.subrange(i + 1, end) != session_field() || colon >= s.len() || s[colon] != COLON {
            law_session_id_is_quoted(s, end + 1);
        } else {
            lemma_skip_spaces_bounds(s, colon + 1);
            if open >= s.len() || s[open] != QUOTE {
                law_session_id_is_quoted(s, colon + 1);
            } else {
                lemma_string_end_bounds(s, open + 1);
                lemma_string_end_closes(s, open + 1);
            }
        }
    }
}

/// A string that is closed is closed by a quote.
pub proof fn lemma_string_end_closes(s: Seq<u8>, i: int)
    requires
        0 <= i <= s.len(),
        string_end(s, i) < s.len(),
    ensures
        s[string_end(s, i)] == QUOTE,
    decreases s.len() - i,
{
    if i < s.len() && s[i] != QUOTE {
        if s[i] == BACKSLASH {
            if i + 1 < s.len() {
                lemma_string_end_closes(s, i + 2);
            }
        } else {
            lemma_string_end_closes(s, i + 1);
        }
    }
}

/// The value of the first `session_id` field of `body`, if it has one.
pub open spec fn body_session_id(body: Seq<u8>) -> Option<Seq<u8>> {
    match find_session_id(body, 0) {
        Some((from, to)) => Some(body.subrange(from, to)),
        None => None,
    }
}

/// The name of the header that carries a session.
pub open spec fn session_header() -> Seq<char> {
    "x-session-id"@
}

/// The affinity key of a request with body `body` and headers `headers`.
pub open spec fn affinity_key(
    body: Option<Seq<char>>,
    headers: Option<Map<Seq<char>, Seq<char>>>,
) -> Seq<u8> {
    if headers is Some && headers.unwrap().contains_key(session_header()) {
        encode_utf8(headers.unwrap()[session_header()])
    } else {
        match body {
            Some(text) => match body_session_id(encode_utf8(text)) {
                Some(id) => id,
                None => encode_utf8(text),
            },
            None => Seq::empty(),
        }
    }
}

/// The text of an optional body.
pub open spec fn body_text(body: Option<&str>) -> Option<Seq<char>> {
    match body {
        Some(text) => Some(text@),
        None => None,
    }
}

/// The mapping of optional headers.
pub open spec fn header_values(headers: Option<&RequestHeaders>) -> Option<
    Map<Seq<char>, Seq<char>>,
> {
    match headers {
        Some(h) => Some(h@),
        None => None,
    }
}

/// Where the string whose contents begin at `from` is closed.
pub fn string_end_from(s: &[u8], from: usize) -> (end: usize)
    requires
        from <= s@.len(),
    ensures
        end == string_end(s@, from as int),
        from <= end <= s@.len(),
{
    let mut i: usize = from;
    while i < s.len()
        invariant
            from <= i <= s@.len(),
            string_end(s@, i as int) == string_end(s@, from as int),
        decreases s@.len() - i,
    {
        let byte = s[i];
        if byte == QUOTE {
            return i;
        } else if byte == BACKSLASH {
            if i + 1 < s.len() {
                i += 2;
            } else {
                return s.len();
            }
        } else {
            i += 1;
        }
    }
    s.len()
}

/// The first position at or after `from` that holds no space.
pub fn skip_spaces_from(s: &[u8], from: usize) -> (at: usize)
    requires
        from <= s@.len(),
    ensures
        at == skip_spaces(s@, from as int),
        from <= at <= s@.len(),
{
    let mut i: usize = from;
    while i < s.len() && (s[i] == 0x20 || s[i] == 0x09 || s[i] == 0x0a || s[i] == 0x0d)
        invariant
            from <= i <= s@.len(),
            skip_spaces(s@, i as int) == skip_spaces(s@, from as int),
        decreases s@.len() - i,
    {
        i += 1;
    }
    i
}

/// Whether the bytes of `s` from `from` up to `to` are those of `word`.
pub fn range_is(s: &[u8], from: usize, to: usize, word: &[u8]) -> (same: bool)
    requires
        from <= to <= s@.len(),
    ensures
        same == (s@.subrange(from as int, to as int) == word@),
{
    if to - from != word.len() {
        return false;
    }
    let mut k: usize = 0;
    while k < word.len()
        invariant
            from <= to <= s@.len(),
            to - from == word@.len(),
            k <= word@.len(),
            forall|j: int| 0 <= j < k ==> s@[from + j] == word@[j],
        decreases word@.len() - k,
    {
        if s[from + k] != word[k] {
            proof {
                assert(s@.subrange(from as int, to as int)[k as int] == s@[from + k]);
            }
            return false;
        }
        k += 1;
    }
    proof {
        assert(s@.subrange(from as int, to as int) =~= word@);
    }
    true
}

/// Where the value of the first `session_id` field of `s` begins and ends.
pub fn session_id_span(s: &[u8]) -> (span: Option<(usize, usize)>)
    ensures
        span is Some <==> find_session_id(s@, 0) is Some,
        span is Some ==> {
            &&& span.unwrap().0 == find_session_id(s@, 0).unwrap().0
            &&& span.unwrap().1 == find_session_id(s@, 0).unwrap().1
            &&& span.unwrap().0 <= span.unwrap().1 <= s@.len()
        },
{
    let field = "session_id".as_bytes();
    let mut i: usize = 0;
    while i < s.len()
        invariant
            i <= s@.len(),
            field@ == session_field(),
            find_session_id(s@, i as int) == find_session_id(s@, 0),
        decreases s@.len() - i,
    {
        if s[i] != QUOTE {
            i += 1;
        } else {
            let end = string_end_from(s, i + 1);
            if end >= s.len() {
                return None;
            }
            let colon = skip_spaces_from(s, end + 1);
            if !range_is(s, i + 1, end, field) || colon >= s.len() || s[colon] != COLON {
                i = end + 1;
            } else {
                let open = skip_spaces_from(s, colon + 1);
                if open >= s.len() || s[open] != QUOTE {
                    i = colon + 1;
                } else {
                    let close = string_end_from(s, open + 1);
                    if close >= s.len() {
                        return None;
                    }
                    return Some((open + 1, close));
                }
            }
        }
    }
    None
}

/// The ring position of the affinity key of a request.
pub fn affinity_hash(body: Option<&str>, headers: Option<&RequestHeaders>) -> (key: u64)
    ensures
        key == hash_bytes(affinity_key(body_text(body), header_values(headers))),
{
    if let Some(h) = headers {
        if let Some(session) = h.get("x-session-id") {
            return hash(session.as_bytes());
        }
    }
    match body {
        Some(text) => {
            let bytes = text.as_bytes();
            match session_id_span(bytes) {
                Some((from, to)) => finish(fold_range(FNV_OFFSET, bytes, from, to)),
                None => hash(bytes),
            }
        },
        None => finish(FNV_OFFSET),
    }
}

/// A session header outranks the body: with `x-session-id` set, the key is
/// the header's value, whatever the body holds.
pub proof fn law_header_outranks_body(
    headers: Map<Seq<char>, Seq<char>>,
    body: Option<Seq<char>>,
    other_body: Option<Seq<char>>,
)
    requires
        headers.contains_key(session_header()),
    ensures
        affinity_key(body, Some(headers)) == encode_utf8(headers[session_header()]),
        affinity_key(body, Some(headers)) == affinity_key(other_body, Some(headers)),
{
}

} // verus!
