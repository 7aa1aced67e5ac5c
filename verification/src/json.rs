//! The JSON text of records, as `serde_json` writes and reads it.
//!
//! On the wire a record is one JSON object with a single member, named by the
//! record's tag, whose value is an object of string fields. Nothing here is
//! proved: the two functions at the end call `serde_json`, and their contracts
//! give its results a name.

use std::collections::BTreeMap;
use vstd::prelude::*;

verus! {

/// The members of a JSON object of objects of strings: each member's name
/// with the fields of its value, each field a name and a string.
pub type Members = Seq<(Seq<char>, Seq<(Seq<char>, Seq<char>)>)>;

/// What stands at the head of a stream of JSON values.
pub enum Head {
    /// Nothing but whitespace is left.
    End,
    /// The value at the head is cut off by the end of the input.
    Truncated,
    /// The head is not an object of objects of strings.
    Malformed,
    /// An object of objects of strings. `len` counts the bytes from the start
    /// of the input up to and including the object's closing brace.
    Object { members: Vec<(String, Vec<(String, String)>)>, len: usize },
}

/// The mathematical value of a `Head`.
pub enum HeadView {
    End,
    Truncated,
    Malformed,
    Object { members: Members, len: nat },
}

impl View for Head {
    type V = HeadView;

    open spec fn view(&self) -> HeadView {
        match *self {
            Head::End => HeadView::End,
            Head::Truncated => HeadView::Truncated,
            Head::Malformed => HeadView::Malformed,
            Head::Object { members, len } => HeadView::Object {
                members: members.deep_view(),
                len: len as nat,
            },
        }
    }
}

/// What `serde_json` finds at the head of `input`, read as a stream of
/// objects of objects of strings.
pub uninterp spec fn json_head(input: Seq<u8>) -> HeadView;

/// The compact JSON text that `serde_json` writes for the object with the one
/// member `tag`, whose value is the object of the string fields `fields`.
pub uninterp spec fn json_text(tag: Seq<char>, fields: Seq<(Seq<char>, Seq<char>)>) -> Seq<u8>;

/// No two of `fields` share a name.
pub open spec fn distinct_names(fields: Seq<(Seq<char>, Seq<char>)>) -> bool {
    forall|i: int, j: int|
        0 <= i < j < fields.len() ==> (#[trigger] fields[i]).0 != (#[trigger] fields[j]).0
}

#[verifier::external_type_specification]
#[verifier::external_body]
pub struct ExJsonError(serde_json::Error);

/// Calls `serde_json::Deserializer::from_slice(input).into_iter()` for maps of
/// maps of strings, and takes one item from it with `next()`.
///
/// Not proved. The contract claims only that the outcome is a function of the
/// input bytes, named `json_head`: the end of the stream, an error that
/// `serde_json` classifies as an unexpected end of input, any other error, or
/// the object read, its members in the order of their names, together with
/// the stream's `byte_offset()` after it.
#[verifier::external_body]
pub(crate) fn read_head(input: &[u8]) -> (head: Head)
    ensures
        head@ == json_head(input@),
{
    let mut stream = serde_json::Deserializer::from_slice(input)
        .into_iter::<BTreeMap<String, BTreeMap<String, String>>>();
    match stream.next() {
        None => Head::End,
        Some(Ok(object)) => Head::Object {
            members: object.into_iter().map(|m| (m.0, m.1.into_iter().collect())).collect(),
            len: stream.byte_offset(),
        },
        Some(Err(e)) if e.is_eof() => Head::Truncated,
        Some(Err(_)) => Head::Malformed,
    }
}

/// Calls `serde_json::to_vec` on the map with the one entry `tag`, whose value
/// is the map of `fields`.
///
/// Not proved. The contract claims that the call succeeds, that the bytes
/// written are a function of the tag and the fields, named `json_text`, and
/// that there is at least one of them. `to_vec` writes into a vector, which
/// takes every write, and fails otherwise only on a key that is no string or
/// in a `Serialize` impl that chooses to fail: here every key and value is a
/// string. An object's text begins with its opening brace.
#[verifier::external_body]
pub(crate) fn write_object(tag: &str, fields: &Vec<(String, String)>) -> (text: Result<
    Vec<u8>,
    serde_json::Error,
>)
    requires
        distinct_names(fields.deep_view()),
    ensures
        text is Ok,
        text matches Ok(bytes) ==> bytes@ == json_text(tag@, fields.deep_view()),
        text matches Ok(bytes) ==> bytes@.len() > 0,
{
    let inner: BTreeMap<&str, &str> = fields.iter().map(|f| (f.0.as_str(), f.1.as_str())).collect();
    let mut outer: BTreeMap<&str, BTreeMap<&str, &str>> = BTreeMap::new();
    outer.insert(tag, inner);
    serde_json::to_vec(&outer)
}

} // verus!
