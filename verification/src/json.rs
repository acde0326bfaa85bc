//! JSON text of request bodies.

use crate::ordering;
use crate::text;
use vstd::prelude::*;

verus! {

/// A value in a JSON object.
pub enum JsonValue {
    Text(String),
    Flag(bool),
    Whole(u64),
    List(Vec<String>),
}

/// The contents of a [`JsonValue`].
pub enum JsonView {
    Text(Seq<char>),
    Flag(bool),
    Whole(u64),
    List(Seq<Seq<char>>),
}

impl View for JsonValue {
    type V = JsonView;

    open spec fn view(&self) -> JsonView {
        match self {
            JsonValue::Text(value) => JsonView::Text(value@),
            JsonValue::Flag(value) => JsonView::Flag(*value),
            JsonValue::Whole(value) => JsonView::Whole(*value),
            JsonValue::List(items) => JsonView::List(ordering::views(items@)),
        }
    }
}

/// The hexadecimal digit of a value below sixteen.
pub open spec fn hex_digit(value: int) -> char {
    if value < 10 {
        text::digit(value)
    } else {
        (87 + value) as char
    }
}

/// A character as it stands in a JSON string.
pub open spec fn json_char(c: char) -> Seq<char> {
    if c == '"' {
        seq!['\\', '"']
    } else if c == '\\' {
        seq!['\\', '\\']
    } else if c == '\u{8}' {
        seq!['\\', 'b']
    } else if c == '\t' {
        seq!['\\', 't']
    } else if c == '\n' {
        seq!['\\', 'n']
    } else if c == '\u{c}' {
        seq!['\\', 'f']
    } else if c == '\r' {
        seq!['\\', 'r']
    } else if (c as int) < 32 {
        seq!['\\', 'u', '0', '0', hex_digit(c as int / 16), hex_digit(c as int % 16)]
    } else {
        seq![c]
    }
}

/// A text as a JSON string.
pub open spec fn json_string(chars: Seq<char>) -> Seq<char> {
    seq!['"'] + chars.map_values(|c: char| json_char(c)).flatten() + seq!['"']
}

/// Texts with a comma between each two of them.
pub open spec fn comma_separated(parts: Seq<Seq<char>>) -> Seq<char>
    decreases parts.len(),
{
    if parts.len() == 0 {
        seq![]
    } else if parts.len() == 1 {
        parts[0]
    } else {
        comma_separated(parts.drop_last()) + seq![','] + parts.last()
    }
}

/// A value as JSON text.
pub open spec fn json_value(value: JsonView) -> Seq<char> {
    match value {
        JsonView::Text(chars) => json_string(chars),
        JsonView::Flag(flag) => if flag {
            "true"@
        } else {
            "false"@
        },
        JsonView::Whole(n) => text::decimal(n as int),
        JsonView::List(items) => seq!['['] + comma_separated(
            items.map_values(|item: Seq<char>| json_string(item)),
        ) + seq![']'],
    }
}

/// A JSON object with the members in their order, without white space.
pub open spec fn json_object(members: Seq<(Seq<char>, JsonView)>) -> Seq<char> {
    seq!['{'] + comma_separated(
        members.map_values(
            |member: (Seq<char>, JsonView)|
                json_string(member.0) + seq![':'] + json_value(member.1),
        ),
    ) + seq!['}']
}

/// Whether each name stands before the next one, so that no name occurs twice.
pub open spec fn ascending_names(members: Seq<(Seq<char>, JsonView)>) -> bool {
    forall|i: int, j: int|
        0 <= i < j < members.len() ==> !ordering::text_precedes(
            (#[trigger] members[j]).0,
            (#[trigger] members[i]).0,
        )
}

/// The members of an object by their contents.
pub open spec fn member_views(members: Seq<(String, JsonValue)>) -> Seq<(Seq<char>, JsonView)> {
    members.map_values(|member: (String, JsonValue)| (member.0@, member.1@))
}

/// `serde_json::Value` writes an object without white space and with the members
/// sorted by name; the contract gives the text for members that already are.
#[verifier::external_body]
pub(crate) fn object_text(members: &Vec<(String, JsonValue)>) -> (result: String)
    requires
        ascending_names(member_views(members@)),
    ensures
        result@ == json_object(member_views(members@)),
{
    let mut object = serde_json::Map::new();
    for (name, value) in members {
        let value = match value {
            JsonValue::Text(value) => serde_json::Value::from(value.as_str()),
            JsonValue::Flag(value) => serde_json::Value::from(*value),
            JsonValue::Whole(value) => serde_json::Value::from(*value),
            JsonValue::List(items) => serde_json::Value::from(items.as_slice()),
        };
        object.insert(name.clone(), value);
    }
    serde_json::Value::Object(object).to_string()
}

} // verus!
