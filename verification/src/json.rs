//! Texts and objects in JSON.

use vstd::prelude::*;

use crate::config;
use crate::digest;
use crate::text;


verus! {

/// A value of an object's member.
#[derive(Debug)]
pub enum Content {
    Text(String),
    Flag(bool),
    Json(serde_json::Value),
}

/// A member of an object.
#[derive(Debug)]
pub struct Field {
    pub key: String,
    pub content: Content,
}

/// The view of a member's value.
pub enum FieldValue {
    Text(Seq<char>),
    Flag(bool),
    Json(config::Meaning),
}

/// The name and the value of a member.
pub open spec fn view(field: Field) -> (Seq<char>, FieldValue) {
    (
        field.key@,
        match field.content {
            Content::Text(text) => FieldValue::Text(text@),
            Content::Flag(flag) => FieldValue::Flag(flag),
            Content::Json(value) => FieldValue::Json(config::content_of(value)),
        },
    )
}

/// The names and values of members.
pub open spec fn views(fields: Seq<Field>) -> Seq<(Seq<char>, FieldValue)> {
    Seq::new(fields.len(), |i: int| view(fields[i]))
}

/// A character as it stands in a JSON text: quotes, backslashes and control characters are written
/// with a backslash, any other as it is.
pub open spec fn escaped_char(c: char) -> Seq<char> {
    if c == '"' || c == '\\' {
        seq!['\\', c]
    } else if c == '\u{8}' {
        seq!['\\', 'b']
    } else if c == '\t' {
        seq!['\\', 't']
    } else if c == '\n' {
        seq!['\\', 'n']
    } else if c == '\u{c}' {
        seq!['\\', 'f']
    } else if c == '\r' {
        seq!['\\', 'r']
    } else if 32 > c as int {
        let code = c as int;
        seq!['\\', 'u', '0', '0', digest::hex_char(code / 16), digest::hex_char(code % 16)]
    } else {
        seq![c]
    }
}

/// The characters of a text as they stand in JSON.
pub open spec fn escaped(text: Seq<char>) -> Seq<char>
    decreases text.len(),
{
    if text.len() == 0 {
        Seq::empty()
    } else {
        escaped(text.drop_last()) + escaped_char(text.last())
    }
}

/// A text in JSON.
pub open spec fn string_text(text: Seq<char>) -> Seq<char> {
    seq!['"'] + escaped(text) + seq!['"']
}

/// A text without a dollar sign has none in JSON either.
pub proof fn lemma_string_text_without_dollar(text: Seq<char>)
    requires
        !text.contains('$'),
    ensures
        !string_text(text).contains('$'),
{
    lemma_escaped_without_dollar(text);
    assert forall|i: int| 0 <= i < string_text(text).len() implies #[trigger] string_text(text)[i]
        != '$' by {
        if 0 < i && i <= escaped(text).len() {
            assert(string_text(text)[i] == escaped(text)[i - 1]);
        }
    }
}

proof fn lemma_escaped_char_without_dollar(c: char)
    requires
        c != '$',
    ensures
        forall|i: int| 0 <= i < escaped_char(c).len() ==> #[trigger] escaped_char(c)[i] != '$',
{
    let code = c as int;
    if 32 > code {
        assert(0 <= code / 16 < 2 && 0 <= code % 16 < 16);
        assert(digest::hex_char(code / 16) != '$');
        assert(digest::hex_char(code % 16) != '$');
    }
    let e = escaped_char(c);
    if e.len() == 6 {
        assert(e[0] != '$' && e[1] != '$' && e[2] != '$' && e[3] != '$' && e[4] != '$' && e[5]
            != '$');
    } else if e.len() == 2 {
        assert(e[0] != '$' && e[1] != '$');
    } else {
        assert(e =~= seq![c]);
    }
}

proof fn lemma_escaped_without_dollar(text: Seq<char>)
    requires
        !text.contains('$'),
    ensures
        forall|i: int| 0 <= i < escaped(text).len() ==> #[trigger] escaped(text)[i] != '$',
    decreases text.len(),
{
    if text.len() > 0 {
        assert(text[text.len() - 1] != '$');
        assert forall|i: int| 0 <= i < text.drop_last().len() implies #[trigger] text.drop_last()[i]
            != '$' by {
            assert(text.drop_last()[i] == text[i]);
        }
        lemma_escaped_without_dollar(text.drop_last());
        let before = escaped(text.drop_last());
        let last = escaped_char(text.last());
        lemma_escaped_char_without_dollar(text.last());
        assert forall|i: int| 0 <= i < escaped(text).len() implies #[trigger] escaped(text)[i]
            != '$' by {
            if i < before.len() {
                assert(escaped(text)[i] == before[i]);
            } else {
                assert(escaped(text)[i] == last[i - before.len()]);
            }
        }
    }
}

/// How `serde_json::to_string` writes an object that these members were put into one by one.
pub uninterp spec fn object_text(members: Seq<(Seq<char>, FieldValue)>) -> Seq<char>;

/// `serde_json::to_string` of a text: the text between double quotes, with those characters escaped
/// that JSON asks to be.
#[verifier::external_body]
pub(crate) fn string(text: &str) -> (r: String)
    ensures
        r@ == string_text(text@),
{
    serde_json::to_string(text).unwrap()
}

/// A member that holds a text or a truth value, as it stands in JSON.
pub open spec fn member_text(member: (Seq<char>, FieldValue)) -> Option<Seq<char>> {
    match member.1 {
        FieldValue::Text(text) => Some(string_text(member.0) + ":"@ + string_text(text)),
        FieldValue::Flag(flag) => Some(string_text(member.0) + ":"@ + if flag {
            "true"@
        } else {
            "false"@
        }),
        FieldValue::Json(_) => None,
    }
}

/// No later member has the name of the member `i`.
pub open spec fn is_last(members: Seq<(Seq<char>, FieldValue)>, i: int) -> bool {
    0 <= i < members.len() && forall|j: int|
        i < j < members.len() ==> (#[trigger] members[j]).0 != members[i].0
}

/// No two members have the same name.
pub open spec fn names_differ(members: Seq<(Seq<char>, FieldValue)>) -> bool {
    forall|i: int, j: int|
        0 <= i < j < members.len() ==> (#[trigger] members[i]).0 != (#[trigger] members[j]).0
}

/// `s` holds each of the members that holds a text or a truth value and whose name no later one has.
pub open spec fn holds_members(s: Seq<char>, members: Seq<(Seq<char>, FieldValue)>) -> bool {
    forall|i: int| #[trigger]
        is_last(members, i) ==> (member_text(members[i]) matches Some(t) ==> text::contains(s, t))
}

/// `s` holds each of the members that holds a text or a truth value.
pub open spec fn holds_all(s: Seq<char>, members: Seq<(Seq<char>, FieldValue)>) -> bool {
    forall|i: int|
        0 <= i < members.len() ==> (member_text(#[trigger] members[i]) matches Some(t)
            ==> text::contains(s, t))
}

/// Where no two members have the same name, a text holds all that a part of it holds of them.
pub proof fn lemma_holds_all_within(
    before: Seq<char>,
    s: Seq<char>,
    after: Seq<char>,
    members: Seq<(Seq<char>, FieldValue)>,
)
    requires
        names_differ(members),
        holds_members(s, members),
    ensures
        holds_all(before + s + after, members),
{
    assert forall|i: int| 0 <= i < members.len() implies (member_text(#[trigger] members[i]) matches Some(
        t,
    ) ==> text::contains(before + s + after, t)) by {
        assert(is_last(members, i));
        if let Some(t) = member_text(members[i]) {
            text::lemma_contains_within(before, s, after, t);
        }
    }
}

/// `serde_json::to_string` of a `serde_json::Map` into which the members were put in order. In
/// whatever order it writes them, each is its name, a colon and its value, and of members with the
/// same name the last one stays.
#[verifier::external_body]
pub(crate) fn object(fields: &Vec<Field>) -> (r: String)
    ensures
        r@ == object_text(views(fields@)),
        holds_members(r@, views(fields@)),
{
    let mut map: serde_json::Map<String, serde_json::Value> = serde_json::Map::new();
    for field in fields {
        let value = match &field.content {
            Content::Text(text) => serde_json::Value::String(text.clone()),
            Content::Flag(flag) => serde_json::Value::Bool(*flag),
            Content::Json(value) => value.clone(),
        };
        map.insert(field.key.clone(), value);
    }
    serde_json::to_string(&map).unwrap()
}

/// A member that holds a text.
pub fn text_field(key: &str, text: &str) -> (r: Field)
    ensures
        view(r) == (key@, FieldValue::Text(text@)),
{
    Field { key: key.to_owned(), content: Content::Text(text.to_owned()) }
}

/// A member that holds a truth value.
pub fn flag_field(key: &str, flag: bool) -> (r: Field)
    ensures
        view(r) == (key@, FieldValue::Flag(flag)),
{
    Field { key: key.to_owned(), content: Content::Flag(flag) }
}

/// A member that holds a JSON value.
pub fn json_field(key: &str, value: serde_json::Value) -> (r: Field)
    ensures
        view(r) == (key@, FieldValue::Json(config::content_of(value))),
{
    Field { key: key.to_owned(), content: Content::Json(value) }
}

} // verus!
