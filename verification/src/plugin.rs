//! Blocks of text that external programs show in a widget.

use vstd::prelude::*;

use crate::rules::text_view;

verus! {

/// What a program shows: the program, and a label with a text.
#[derive(Debug, Clone, PartialEq, Eq)]
pub struct PluginWidgetBlock {
    pub source: String,
    pub label: String,
    pub text: String,
}

/// A member of a JSON object: a text, a number as it is written, a truth value, or anything else.
#[derive(Debug, Clone, PartialEq, Eq)]
pub enum JsonMember {
    Text(String),
    Number(String),
    Flag(bool),
    Other,
}

/// A member of a JSON object as a value.
pub ghost enum JsonMemberView {
    Text(Seq<char>),
    Number(Seq<char>),
    Flag(bool),
    Other,
}

/// A member as a value, if there is one.
pub open spec fn member_view(member: Option<JsonMember>) -> Option<JsonMemberView> {
    match member {
        None => None,
        Some(JsonMember::Text(text)) => Some(JsonMemberView::Text(text@)),
        Some(JsonMember::Number(text)) => Some(JsonMemberView::Number(text@)),
        Some(JsonMember::Flag(flag)) => Some(JsonMemberView::Flag(flag)),
        Some(JsonMember::Other) => Some(JsonMemberView::Other),
    }
}

/// What `serde_json::Value::get` finds under a name in the value that a text is read as.
pub uninterp spec fn json_member(input: Seq<char>, field: Seq<char>) -> Option<JsonMemberView>;

/// What the value that a text is read as by `serde_json` is written as.
pub uninterp spec fn json_text(input: Seq<char>) -> Option<Seq<char>>;

/// Reads a text with `serde_json::from_str` and looks a member up with `serde_json::Value::get`; there is
/// none if the text is not JSON, the value is no object, or it has no such member. What is found is
/// named, not described.
#[verifier::external_body]
fn read_json_member(input: &str, field: &str) -> (r: Option<JsonMember>)
    ensures
        member_view(r) == json_member(input@, field@),
{
    let value: serde_json::Value = serde_json::from_str(input).ok()?;
    match value.get(field)? {
        serde_json::Value::String(text) => Some(JsonMember::Text(text.clone())),
        serde_json::Value::Number(number) => Some(JsonMember::Number(number.to_string())),
        serde_json::Value::Bool(flag) => Some(JsonMember::Flag(*flag)),
        serde_json::Value::Null => Some(JsonMember::Other),
        serde_json::Value::Array(_) => Some(JsonMember::Other),
        serde_json::Value::Object(_) => Some(JsonMember::Other),
    }
}

/// Reads a text with `serde_json::from_str` and writes the value with its `Display`; there is none if the
/// text is not JSON. What is written is named, not described.
#[verifier::external_body]
fn read_json_text(input: &str) -> (r: Option<String>)
    ensures
        text_view(r) == json_text(input@),
{
    let value: serde_json::Value = serde_json::from_str(input).ok()?;
    Some(value.to_string())
}

/// A member as the text that is shown: numbers and truth values as they are written, nothing else but
/// texts.
pub open spec fn shown_member(member: Option<JsonMemberView>) -> Option<Seq<char>> {
    match member {
        Some(JsonMemberView::Text(text)) => Some(text),
        Some(JsonMemberView::Number(text)) => Some(text),
        Some(JsonMemberView::Flag(flag)) => Some(
            if flag {
                "true"@
            } else {
                "false"@
            },
        ),
        _ => None,
    }
}

/// A member as the text that is shown.
pub fn member_text(member: Option<JsonMember>) -> (r: Option<String>)
    ensures
        text_view(r) == shown_member(member_view(member)),
{
    match member {
        Some(JsonMember::Text(text)) => Some(text),
        Some(JsonMember::Number(text)) => Some(text),
        Some(JsonMember::Flag(flag)) => if flag {
            Some("true".to_owned())
        } else {
            Some("false".to_owned())
        },
        Some(JsonMember::Other) => None,
        None => None,
    }
}

/// What of the object that a program printed can be shown.
pub struct PluginFields {
    pub label: Option<String>,
    pub name: Option<String>,
    pub text: Option<String>,
    pub value: Option<String>,
    pub status: Option<String>,
}

/// The first of two texts that there is.
pub open spec fn first_text(first: Option<Seq<char>>, second: Option<Seq<char>>) -> Option<Seq<char>> {
    if first is Some {
        first
    } else {
        second
    }
}

/// A text, or another one if there is none.
pub open spec fn text_or(text: Option<Seq<char>>, other: Seq<char>) -> Seq<char> {
    match text {
        Some(text) => text,
        None => other,
    }
}

/// The block that fields make: the label is the label or the name, or else the program; the text is the
/// text, the value or the status, or else all that was printed.
pub fn plugin_block(source: &str, fields: PluginFields, whole: String) -> (r: PluginWidgetBlock)
    ensures
        r.source@ == source@,
        r.label@ == text_or(
            first_text(text_view(fields.label), text_view(fields.name)),
            source@,
        ),
        r.text@ == text_or(
            first_text(
                text_view(fields.text),
                first_text(text_view(fields.value), text_view(fields.status)),
            ),
            whole@,
        ),
{
    let label: String = match fields.label {
        Some(label) => label,
        None => match fields.name {
            Some(name) => name,
            None => source.to_owned(),
        },
    };
    let text: String = match fields.text {
        Some(text) => text,
        None => match fields.value {
            Some(value) => value,
            None => match fields.status {
                Some(status) => status,
                None => whole,
            },
        },
    };
    PluginWidgetBlock { source: source.to_owned(), label, text }
}

fn read_field(input: &str, field: &str) -> (r: Option<String>)
    ensures
        text_view(r) == shown_member(json_member(input@, field@)),
{
    member_text(read_json_member(input, field))
}

/// Reads what a program printed; nothing if it printed nothing or no JSON.
pub fn parse_plugin_block(source: &str, input: &str) -> (r: Option<PluginWidgetBlock>)
    ensures
        match r {
            None => input@.len() == 0 || json_text(input@) is None,
            Some(block) => {
                &&& input@.len() > 0
                &&& json_text(input@) is Some
                &&& block.source@ == source@
                &&& block.label@ == text_or(
                    first_text(
                        shown_member(json_member(input@, "label"@)),
                        shown_member(json_member(input@, "name"@)),
                    ),
                    source@,
                )
                &&& block.text@ == text_or(
                    first_text(
                        shown_member(json_member(input@, "text"@)),
                        first_text(
                            shown_member(json_member(input@, "value"@)),
                            shown_member(json_member(input@, "status"@)),
                        ),
                    ),
                    json_text(input@).unwrap(),
                )
            },
        },
{
    if input.unicode_len() == 0 {
        return None;
    }
    let whole: String = match read_json_text(input) {
        Some(whole) => whole,
        None => {
            return None;
        },
    };
    let fields: PluginFields = PluginFields {
        label: read_field(input, "label"),
        name: read_field(input, "name"),
        text: read_field(input, "text"),
        value: read_field(input, "value"),
        status: read_field(input, "status"),
    };
    Some(plugin_block(source, fields, whole))
}

} // verus!
