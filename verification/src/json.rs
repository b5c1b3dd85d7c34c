//! The JSON texts that cross the relay: built and read by `serde_json`.
//!
//! What `serde_json` writes for given members, and what it reads in a given
//! text, is a function of those arguments alone. The relay does not restate
//! the JSON grammar; it names the results, and the functions in this file
//! are believed to return them.

use crate::text::names_view;
use vstd::prelude::*;

verus! {

/// The compact JSON text of an object, as `serde_json` writes it. The
/// members are given as pairs of key and value: first those whose value is a
/// text, then those whose value is an array of texts.
pub uninterp spec fn json_object_text(
    texts: Seq<(Seq<char>, Seq<char>)>,
    lists: Seq<(Seq<char>, Seq<Seq<char>>)>,
) -> Seq<char>;

/// What `serde_json` reads in `text`: `None` if `text` is not one JSON
/// document; otherwise, for each of the two keys, the text under it if the
/// document is an object that holds a JSON string there.
pub uninterp spec fn json_members(text: Seq<char>, first_key: Seq<char>, second_key: Seq<char>)
    -> Option<(Option<Seq<char>>, Option<Seq<char>>)>;

/// Two text members as they were read, or `None` for a text that is no JSON.
pub type Members = Option<(Option<String>, Option<String>)>;

/// A text that may be absent, as the contracts see it.
pub open spec fn text_view(text: Option<String>) -> Option<Seq<char>> {
    match text {
        Some(t) => Some(t@),
        None => None,
    }
}

/// Members as the contracts see them.
pub open spec fn members_view(members: Members) -> Option<(Option<Seq<char>>, Option<Seq<char>>)> {
    match members {
        Some((first, second)) => Some((text_view(first), text_view(second))),
        None => None,
    }
}

/// Text members as the contracts see them.
pub open spec fn texts_view(members: Seq<(&str, &str)>) -> Seq<(Seq<char>, Seq<char>)> {
    members.map_values(|member: (&str, &str)| (member.0@, member.1@))
}

/// List members as the contracts see them.
pub open spec fn lists_view(members: Seq<(&str, &Vec<String>)>) -> Seq<
    (Seq<char>, Seq<Seq<char>>),
> {
    members.map_values(|member: (&str, &Vec<String>)| (member.0@, names_view(member.1@)))
}

/// `serde_json::Value::to_string` on an object built from the given members:
/// the result is the text that `serde_json` writes for them.
#[verifier::external_body]
pub(crate) fn json_object(texts: &[(&str, &str)], lists: &[(&str, &Vec<String>)]) -> (text: String)
    ensures
        text@ == json_object_text(texts_view(texts@), lists_view(lists@)),
{
    let mut object = serde_json::Map::new();
    object.extend(texts.iter().map(|m| (m.0.to_owned(), serde_json::Value::from(m.1))));
    object.extend(lists.iter().map(|m| (m.0.to_owned(), serde_json::Value::from(m.1.as_slice()))));
    serde_json::Value::Object(object).to_string()
}

/// `serde_json::from_str` into a `Value`, then the two members by index and
/// `as_str`: the result is what `serde_json` reads in the text.
#[verifier::external_body]
pub(crate) fn read_json_members(text: &str, first_key: &str, second_key: &str) -> (members: Members)
    ensures
        members_view(members) == json_members(text@, first_key@, second_key@),
{
    match serde_json::from_str::<serde_json::Value>(text) {
        Ok(document) => Some(
            (
                document[first_key].as_str().map(str::to_owned),
                document[second_key].as_str().map(str::to_owned),
            ),
        ),
        Err(_) => None,
    }
}

} // verus!
