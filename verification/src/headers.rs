//! Header handling for the forwarder. Outgoing headers are validated one by
//! one against the transport library's own rules, and a malformed entry is
//! dropped without failing the rest. Incoming header values arrive as raw
//! bytes; only those that are visible ASCII text are kept.

use vstd::prelude::*;

verus! {

/// The characters http accepts in a header name: ASCII letters and digits
/// and the token punctuation. Uppercase letters are accepted (the library
/// lowercases them itself).
pub open spec fn is_name_char(c: char) -> bool {
    ||| ('a' as u32) <= (c as u32) <= ('z' as u32)
    ||| ('A' as u32) <= (c as u32) <= ('Z' as u32)
    ||| ('0' as u32) <= (c as u32) <= ('9' as u32)
    ||| c == '!' || c == '#' || c == '$' || c == '%' || c == '&' || c == '\''
    ||| c == '*' || c == '+' || c == '-' || c == '.' || c == '^' || c == '_'
    ||| c == '`' || c == '|' || c == '~'
}

/// A well-formed header name: between 1 and 65535 name characters.
pub open spec fn name_ok(s: Seq<char>) -> bool {
    &&& 1 <= s.len() <= 0xffff
    &&& forall|i: int| 0 <= i < s.len() ==> is_name_char(s[i])
}

/// The characters http accepts in an outgoing header value: horizontal tab
/// and everything from the space upward, except the delete control.
pub open spec fn is_value_char(c: char) -> bool {
    c == '\t' || (32 <= c as u32 && c as u32 != 127)
}

/// A well-formed outgoing header value.
pub open spec fn value_ok(s: Seq<char>) -> bool {
    forall|i: int| 0 <= i < s.len() ==> is_value_char(s[i])
}

/// A header entry the forwarder will send: both halves are well-formed.
pub open spec fn header_entry_ok(name: Seq<char>, value: Seq<char>) -> bool {
    name_ok(name) && value_ok(value)
}

/// Relies on http's `HeaderName::from_str` (reexported by reqwest): a name
/// is accepted exactly when it is 1 to 65535 bytes, each a token character
/// per its lookup table, the set `is_name_char` spells out.
#[verifier::external_body]
pub(crate) fn header_name_ok(s: &str) -> (r: bool)
    ensures
        r == name_ok(s@),
{
    match <reqwest::header::HeaderName as core::str::FromStr>::from_str(s) {
        Ok(_) => true,
        Err(_) => false,
    }
}

/// Relies on http's `HeaderValue::from_str` (reexported by reqwest): a value
/// is accepted exactly when every byte is a tab or at least 32 and not the
/// delete control; every character of the view satisfies the same bound.
#[verifier::external_body]
pub(crate) fn header_value_ok(s: &str) -> (r: bool)
    ensures
        r == value_ok(s@),
{
    match reqwest::header::HeaderValue::from_str(s) {
        Ok(_) => true,
        Err(_) => false,
    }
}

/// The outgoing header entries that survive validation, in their given
/// order: exactly those whose name and value are both well-formed.
pub open spec fn spec_valid_headers(hs: Seq<(Seq<char>, Seq<char>)>) -> Seq<(Seq<char>, Seq<char>)>
    decreases hs.len(),
{
    if hs.len() == 0 {
        Seq::empty()
    } else {
        let rest = spec_valid_headers(hs.drop_last());
        if header_entry_ok(hs.last().0, hs.last().1) {
            rest.push(hs.last())
        } else {
            rest
        }
    }
}

/// Validates outgoing headers one by one, keeping the well-formed entries
/// in order and dropping the rest.
pub fn filter_valid_headers(hs: &Vec<(String, String)>) -> (r: Vec<(String, String)>)
    ensures
        r.deep_view() == spec_valid_headers(hs.deep_view()),
{
    let mut r: Vec<(String, String)> = Vec::new();
    let mut i: usize = 0;
    while i < hs.len()
        invariant
            i <= hs.len(),
            r.deep_view() == spec_valid_headers(hs.deep_view().take(i as int)),
        decreases hs.len() - i,
    {
        let entry = &hs[i];
        proof {
            assert(hs.deep_view().take(i + 1).drop_last() =~= hs.deep_view().take(i as int));
            assert(hs.deep_view().take(i + 1).last() == hs.deep_view()[i as int]);
        }
        if header_name_ok(entry.0.as_str()) && header_value_ok(entry.1.as_str()) {
            r.push((entry.0.clone(), entry.1.clone()));
        }
        i += 1;
    }
    proof {
        assert(hs.deep_view().take(hs.len() as int) =~= hs.deep_view());
    }
    r
}

/// A response header value that is text: every byte is a tab or visible
/// ASCII. This is the bound http's `to_str` places on a value it hands out.
pub open spec fn byte_is_text(b: u8) -> bool {
    b == 9 || (32 <= b && b <= 126)
}

/// A whole response value that is text.
pub open spec fn bytes_text(s: Seq<u8>) -> bool {
    forall|i: int| 0 <= i < s.len() ==> byte_is_text(s[i])
}

/// The characters those bytes spell, one character per byte.
pub open spec fn bytes_as_chars(s: Seq<u8>) -> Seq<char> {
    s.map_values(|b: u8| b as char)
}

/// Whether every byte of a response value is text.
pub fn bytes_are_text(v: &Vec<u8>) -> (r: bool)
    ensures
        r == bytes_text(v@),
{
    let mut i: usize = 0;
    while i < v.len()
        invariant
            i <= v.len(),
            forall|j: int| 0 <= j < i ==> byte_is_text(v@[j]),
        decreases v.len() - i,
    {
        let b = v[i];
        if !(b == 9 || (32 <= b && b <= 126)) {
            return false;
        }
        i += 1;
    }
    true
}

/// Relies on `String::from_utf8`: ASCII bytes are valid UTF-8 and decode to
/// exactly the characters with those code points.
#[verifier::external_body]
fn ascii_to_string(v: &Vec<u8>) -> (r: String)
    requires
        bytes_text(v@),
    ensures
        r@ == bytes_as_chars(v@),
{
    String::from_utf8(v.clone()).unwrap_or_default()
}

/// The response headers that are kept, in their given order: exactly those
/// whose value is text, with the value decoded.
pub open spec fn spec_text_headers(raw: Seq<(Seq<char>, Seq<u8>)>) -> Seq<(Seq<char>, Seq<char>)>
    decreases raw.len(),
{
    if raw.len() == 0 {
        Seq::empty()
    } else {
        let rest = spec_text_headers(raw.drop_last());
        let last = raw.last();
        if bytes_text(last.1) {
            rest.push((last.0, bytes_as_chars(last.1)))
        } else {
            rest
        }
    }
}

/// Copies every response header whose raw value is text into the result,
/// in order, decoding the value; a header with a non-text value is dropped.
pub fn text_headers(raw: Vec<(String, Vec<u8>)>) -> (r: Vec<(String, String)>)
    ensures
        r.deep_view() == spec_text_headers(raw.deep_view()),
{
    let mut r: Vec<(String, String)> = Vec::new();
    let mut i: usize = 0;
    while i < raw.len()
        invariant
            i <= raw.len(),
            r.deep_view() == spec_text_headers(raw.deep_view().take(i as int)),
        decreases raw.len() - i,
    {
        proof {
            assert(raw.deep_view().take(i + 1).drop_last() =~= raw.deep_view().take(i as int));
            assert(raw.deep_view().take(i + 1).last() == raw.deep_view()[i as int]);
        }
        let entry = &raw[i];
        proof {
            assert(raw.deep_view()[i as int].1 =~= entry.1@);
        }
        if bytes_are_text(&entry.1) {
            let text = ascii_to_string(&entry.1);
            r.push((entry.0.clone(), text));
        }
        i += 1;
    }
    proof {
        assert(raw.deep_view().take(raw.len() as int) =~= raw.deep_view());
    }
    r
}

/// Every entry that survives validation is well-formed, so sending each of
/// them will be accepted by the transport's own parser.
pub proof fn lemma_valid_headers_wellformed(hs: Seq<(Seq<char>, Seq<char>)>)
    ensures
        forall|i: int|
            0 <= i < spec_valid_headers(hs).len() ==> #[trigger] header_entry_ok(
                spec_valid_headers(hs)[i].0,
                spec_valid_headers(hs)[i].1,
            ),
    decreases hs.len(),
{
    if hs.len() != 0 {
        lemma_valid_headers_wellformed(hs.drop_last());
        let rest = spec_valid_headers(hs.drop_last());
        let whole = spec_valid_headers(hs);
        assert forall|i: int|
            0 <= i < whole.len() implies #[trigger] header_entry_ok(
            whole[i].0,
            whole[i].1,
        ) by {
            if i < rest.len() {
                assert(whole[i] == rest[i]);
                assert(header_entry_ok(rest[i].0, rest[i].1));
            } else {
                assert(whole[i] == hs.last());
            }
        }
    }
}

/// A malformed entry is dropped: validating headers with it appended gives
/// the same result as without it.
pub proof fn lemma_malformed_header_dropped(
    hs: Seq<(Seq<char>, Seq<char>)>,
    name: Seq<char>,
    value: Seq<char>,
)
    requires
        !header_entry_ok(name, value),
    ensures
        spec_valid_headers(hs.push((name, value))) == spec_valid_headers(hs),
{
    assert(hs.push((name, value)).drop_last() =~= hs);
}

/// A well-formed entry is kept: validating headers with it appended keeps
/// it, behind everything kept before it.
pub proof fn lemma_valid_header_kept(
    hs: Seq<(Seq<char>, Seq<char>)>,
    name: Seq<char>,
    value: Seq<char>,
)
    requires
        header_entry_ok(name, value),
    ensures
        spec_valid_headers(hs.push((name, value)))
            == spec_valid_headers(hs).push((name, value)),
{
    assert(hs.push((name, value)).drop_last() =~= hs);
}

} // verus!
