//! JSON documents, as far as the node looks into them.

use self::JsonItem::Nested;
use self::JsonValue::Plain;
use serde_json::{from_str, Value};
use vstd::prelude::*;

verus! {

/// A JSON value that stands alone or inside an array or an object: its kind,
/// and what it holds where the node reads it.
#[derive(Clone, Debug)]
pub enum JsonItem {
    Null,
    Bool(bool),
    /// A number: its value where it is an unsigned 64-bit integer, and the
    /// bits of the double-precision number that stands for it.
    Number(Option<u64>, Option<u64>),
    String(String),
    /// An array or an object below the top level: the node does not look
    /// into it.
    Nested,
}

/// A JSON document, one level deep.
#[derive(Clone, Debug)]
pub enum JsonValue {
    /// A document that is neither an array nor an object.
    Plain(JsonItem),
    /// An array, with its elements in order.
    Array(Vec<JsonItem>),
    /// An object, with its members.
    Object(Vec<(String, JsonItem)>),
}

/// What a `JsonItem` holds.
pub enum ItemValue {
    Null,
    Bool(bool),
    Number(Option<u64>, Option<u64>),
    String(Seq<char>),
    Nested,
}

/// What a `JsonValue` holds.
pub enum DocumentValue {
    Plain(ItemValue),
    Array(Seq<ItemValue>),
    Object(Seq<(Seq<char>, ItemValue)>),
}

impl View for JsonItem {
    type V = ItemValue;

    open spec fn view(&self) -> ItemValue {
        match *self {
            JsonItem::Null => ItemValue::Null,
            JsonItem::Bool(b) => ItemValue::Bool(b),
            JsonItem::Number(unsigned, double) => ItemValue::Number(unsigned, double),
            JsonItem::String(text) => ItemValue::String(text@),
            JsonItem::Nested => ItemValue::Nested,
        }
    }
}

/// What each of the items holds.
pub open spec fn item_values(items: Seq<JsonItem>) -> Seq<ItemValue> {
    Seq::new(items.len(), |i: int| items[i]@)
}

/// The name of each member, and what it holds.
pub open spec fn member_values(members: Seq<(String, JsonItem)>) -> Seq<(Seq<char>, ItemValue)> {
    Seq::new(members.len(), |i: int| (members[i].0@, members[i].1@))
}

impl View for JsonValue {
    type V = DocumentValue;

    open spec fn view(&self) -> DocumentValue {
        match *self {
            JsonValue::Plain(item) => DocumentValue::Plain(item@),
            JsonValue::Array(items) => DocumentValue::Array(item_values(items@)),
            JsonValue::Object(members) => DocumentValue::Object(member_values(members@)),
        }
    }
}

/// What an optional document holds.
pub open spec fn optional_document(document: Option<JsonValue>) -> Option<DocumentValue> {
    match document {
        Some(value) => Some(value@),
        None => None,
    }
}

/// What `serde_json::from_str` makes of `text`, one level deep; `None` where
/// `text` is not one JSON document.
pub uninterp spec fn parsed_json(text: Seq<char>) -> Option<DocumentValue>;

/// Parses `text` with `serde_json::from_str` and keeps the top level of the
/// document: the same text always gives the same document, and text that is
/// not JSON gives `None`.
#[verifier::external_body]
pub(crate) fn parse_json(text: &str) -> (parsed: Option<JsonValue>)
    ensures
        optional_document(parsed) == parsed_json(text@),
{
    let item = |value: &Value| match value {
        Value::Null => JsonItem::Null,
        Value::Bool(b) => JsonItem::Bool(*b),
        Value::Number(n) => JsonItem::Number(n.as_u64(), n.as_f64().map(|d| d.to_bits())),
        Value::String(s) => JsonItem::String(s.clone()),
        _ => Nested,
    };
    Some(match from_str::<Value>(text).ok()? {
        Value::Array(a) => JsonValue::Array(a.iter().map(item).collect()),
        Value::Object(m) => JsonValue::Object(m.iter().map(|(k, v)| (k.clone(), item(v))).collect()),
        other => Plain(item(&other)),
    })
}

/// What the first member of `members` with the name `name` holds, if there
/// is one.
pub open spec fn member(members: Seq<(Seq<char>, ItemValue)>, name: Seq<char>) -> Option<ItemValue>
    decreases members.len(),
{
    if members.len() == 0 {
        None
    } else if members[0].0 == name {
        Some(members[0].1)
    } else {
        member(members.drop_first(), name)
    }
}

/// The string that the first member called `name` holds, where there is such
/// a member and it holds a string.
pub open spec fn string_member(members: Seq<(Seq<char>, ItemValue)>, name: Seq<char>) -> Option<
    Seq<char>,
> {
    match member(members, name) {
        Some(ItemValue::String(text)) => Some(text),
        _ => None,
    }
}

/// The text that an optional string holds.
pub open spec fn optional_text(text: Option<String>) -> Option<Seq<char>> {
    match text {
        Some(t) => Some(t@),
        None => None,
    }
}

/// Looks up the string that the first member called `name` holds.
pub fn find_string(members: &Vec<(String, JsonItem)>, name: &str) -> (found: Option<String>)
    ensures
        optional_text(found) == string_member(member_values(members@), name@),
{
    let wanted = name.to_owned();
    let mut i: usize = 0;
    let ghost all = member_values(members@);
    assert(all.subrange(0, all.len() as int) =~= all);
    while i < members.len()
        invariant
            i <= members.len(),
            wanted@ == name@,
            all == member_values(members@),
            member(all, name@) == member(all.subrange(i as int, all.len() as int), name@),
        decreases members.len() - i,
    {
        let ghost rest = all.subrange(i as int, all.len() as int);
        assert(rest[0] == all[i as int]);
        assert(rest.drop_first() =~= all.subrange(i + 1, all.len() as int));
        if members[i].0 == wanted {
            return match &members[i].1 {
                JsonItem::String(text) => Some(text.clone()),
                _ => None,
            };
        }
        i = i + 1;
    }
    None
}

} // verus!
