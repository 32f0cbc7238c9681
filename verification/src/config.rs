//! The deploy configuration as the launcher reads it.

use vstd::prelude::*;

use crate::strings;
use crate::text;

verus! {

/// A value of the deploy configuration. A number, a list and a table also hold their own JSON text,
/// by which they stand where a text is wanted.
#[derive(Debug)]
pub enum ConfigValue {
    Null,
    Flag(bool),
    Number { json: String, unsigned: Option<u64> },
    Text(String),
    List { json: String, items: Vec<ConfigValue> },
    Table { json: String, members: Vec<ConfigMember> },
}

/// A named value of a table.
#[derive(Debug)]
pub struct ConfigMember {
    pub key: String,
    pub value: ConfigValue,
}

/// What a value of the deploy configuration says.
pub enum Meaning {
    Null,
    Flag(bool),
    Number { json: Seq<char>, unsigned: Option<u64> },
    Text(Seq<char>),
    List { json: Seq<char>, items: Seq<Meaning> },
    Table { json: Seq<char>, members: Seq<(Seq<char>, Meaning)> },
}

/// What a value says.
pub open spec fn meaning(value: ConfigValue) -> Meaning
    decreases value, 0int,
{
    match value {
        ConfigValue::Null => Meaning::Null,
        ConfigValue::Flag(flag) => Meaning::Flag(flag),
        ConfigValue::Number { json, unsigned } => Meaning::Number { json: json@, unsigned },
        ConfigValue::Text(text) => Meaning::Text(text@),
        ConfigValue::List { json, items } => Meaning::List {
            json: json@,
            items: item_meanings(items@, items@.len() as int),
        },
        ConfigValue::Table { json, members } => Meaning::Table {
            json: json@,
            members: member_meanings(members@, members@.len() as int),
        },
    }
}

/// What the first `n` items of a list say.
pub open spec fn item_meanings(items: Seq<ConfigValue>, n: int) -> Seq<Meaning>
    decreases items, n,
{
    if n <= 0 || n > items.len() {
        Seq::empty()
    } else {
        item_meanings(items, n - 1).push(meaning(items[n - 1]))
    }
}

/// What the first `n` members of a table say.
pub open spec fn member_meanings(members: Seq<ConfigMember>, n: int) -> Seq<(Seq<char>, Meaning)>
    decreases members, n,
{
    if n <= 0 || n > members.len() {
        Seq::empty()
    } else {
        member_meanings(members, n - 1).push((members[n - 1].key@, meaning(members[n - 1].value)))
    }
}

/// A value as serde_json holds it.
#[verifier::external_type_specification]
#[verifier::external_body]
pub struct ExJsonValue(serde_json::Value);

/// What a `serde_json::Value` holds.
pub uninterp spec fn content_of(value: serde_json::Value) -> Meaning;

/// What `serde_yaml::from_str` reads a text as.
pub uninterp spec fn yaml_content(text: Seq<char>) -> Option<Meaning>;

/// `serde_yaml::from_str` into a `serde_json::Value`: what the text says, if it is YAML that JSON
/// can hold.
#[verifier::external_body]
fn parse_yaml(text: &str) -> (r: Option<serde_json::Value>)
    ensures
        match r {
            Some(value) => yaml_content(text@) == Some(content_of(value)),
            None => yaml_content(text@) is None,
        },
{
    serde_yaml::from_str(text).ok()
}

/// A `serde_json::Value`, variant by variant, as a value of the configuration. `as_u64` gives the
/// number that an unsigned integer is, and `to_string` the JSON text.
#[verifier::external_body]
fn converted(value: &serde_json::Value) -> (r: ConfigValue)
    ensures
        meaning(r) == content_of(*value),
{
    match value {
        serde_json::Value::Null => ConfigValue::Null,
        serde_json::Value::Bool(b) => ConfigValue::Flag(*b),
        serde_json::Value::Number(n) => ConfigValue::Number { json: n.to_string(), unsigned: n.as_u64() },
        serde_json::Value::String(s) => ConfigValue::Text(s.clone()),
        serde_json::Value::Array(a) => ConfigValue::List {
            json: value.to_string(),
            items: a.iter().map(converted).collect(),
        },
        serde_json::Value::Object(o) => ConfigValue::Table {
            json: value.to_string(),
            members: o.iter().map(|(k, v)| ConfigMember { key: k.clone(), value: converted(v) }).collect(),
        },
    }
}

/// A value as serde_json holds it, as a value that the launcher reads.
pub fn value_of(value: &serde_json::Value) -> (r: ConfigValue)
    ensures
        meaning(r) == content_of(*value),
{
    converted(value)
}

/// The deploy configuration that a file holds, where the file can be read and is understood.
pub fn get_deploy_config(config_content: Option<&str>) -> (r: Option<ConfigValue>)
    ensures
        match config_content {
            None => r is None,
            Some(content) => match yaml_content(content@) {
                None => r is None,
                Some(what) => r matches Some(config) && meaning(config) == what,
            },
        },
{
    match config_content {
        None => None,
        Some(content) => match parse_yaml(content) {
            None => None,
            Some(value) => Some(converted(&value)),
        },
    }
}

/// The first of `members` with the name `key`, from index `i` on.
pub open spec fn member_from(members: Seq<ConfigMember>, key: Seq<char>, i: int) -> Option<
    ConfigValue,
>
    decreases members.len() - i,
{
    if i < 0 || i >= members.len() {
        None
    } else if members[i].key@ == key {
        Some(members[i].value)
    } else {
        member_from(members, key, i + 1)
    }
}

/// The value that a table has under the name `key`.
pub open spec fn member(value: Option<ConfigValue>, key: Seq<char>) -> Option<ConfigValue> {
    match value {
        Some(ConfigValue::Table { members, .. }) => member_from(members@, key, 0),
        _ => None,
    }
}

proof fn lemma_member_from(members: Seq<ConfigMember>, key: Seq<char>, from: int, i: int)
    requires
        0 <= from <= i < members.len(),
        members[i].key@ == key,
        forall|j: int| from <= j < i ==> (#[trigger] members[j]).key@ != key,
    ensures
        member_from(members, key, from) == Some(members[i].value),
    decreases i - from,
{
    if from < i {
        lemma_member_from(members, key, from + 1, i);
    }
}

proof fn lemma_no_member_from(members: Seq<ConfigMember>, key: Seq<char>, from: int)
    requires
        0 <= from,
        forall|j: int| from <= j < members.len() ==> (#[trigger] members[j]).key@ != key,
    ensures
        member_from(members, key, from) is None,
    decreases members.len() - from,
{
    if from < members.len() {
        lemma_no_member_from(members, key, from + 1);
    }
}

/// What a table has under a name is the value of the member of that name, the first if there are
/// more, wherever it stands among the others.
pub proof fn a_table_holds_its_members(json: String, members: Vec<ConfigMember>, i: int)
    requires
        0 <= i < members@.len(),
        forall|j: int| 0 <= j < i ==> (#[trigger] members@[j]).key@ != members@[i].key@,
    ensures
        member(Some(ConfigValue::Table { json, members }), members@[i].key@) == Some(
            members@[i].value,
        ),
{
    lemma_member_from(members@, members@[i].key@, 0, i);
}

/// A table has nothing under a name that none of its members has, and what is no table has nothing
/// under any name.
pub proof fn only_a_member_is_found(value: ConfigValue, key: Seq<char>)
    ensures
        value !is Table ==> member(Some(value), key) is None,
        (value matches ConfigValue::Table { json, members } && forall|j: int|
            0 <= j < members@.len() ==> (#[trigger] members@[j]).key@ != key) ==> member(
            Some(value),
            key,
        ) is None,
        member(None, key) is None,
{
    if let ConfigValue::Table { json, members } = value {
        if forall|j: int| 0 <= j < members@.len() ==> (#[trigger] members@[j]).key@ != key {
            lemma_no_member_from(members@, key, 0);
        }
    }
}

/// The value under `Deploy`, then `section`, then `key`.
pub open spec fn deploy_value(
    config: Option<ConfigValue>,
    section: Seq<char>,
    key: Seq<char>,
) -> Option<ConfigValue> {
    member(member(member(config, "Deploy"@), section), key)
}

/// The value behind a reference that may be missing.
pub open spec fn target(value: Option<&ConfigValue>) -> Option<ConfigValue> {
    match value {
        Some(v) => Some(*v),
        None => None,
    }
}

/// The value that a table has under the name `key`.
pub fn find_member<'a>(value: Option<&'a ConfigValue>, key: &str) -> (r: Option<&'a ConfigValue>)
    ensures
        target(r) == member(target(value), key@),
{
    match value {
        Some(ConfigValue::Table { json: _, members }) => {
            let mut i: usize = 0;
            while i < members.len()
                invariant
                    i <= members@.len(),
                    member(target(value), key@) == member_from(members@, key@, 0),
                    member_from(members@, key@, 0) == member_from(members@, key@, i as int),
                decreases members@.len() - i,
            {
                if strings::same_text(members[i].key.as_str(), key) {
                    return Some(&members[i].value);
                }
                i = i + 1;
            }
            None
        },
        _ => None,
    }
}

/// The value under `Deploy`, then `section`, then `key`.
pub fn find_deploy_value<'a>(
    config: Option<&'a ConfigValue>,
    section: &str,
    key: &str,
) -> (r: Option<&'a ConfigValue>)
    ensures
        target(r) == deploy_value(target(config), section@, key@),
{
    find_member(find_member(find_member(config, "Deploy"), section), key)
}

/// The text of a value: its own, where it is one, else its JSON text. An empty value has none.
pub open spec fn text_of(value: ConfigValue) -> Option<Seq<char>> {
    match value {
        ConfigValue::Null => None,
        ConfigValue::Flag(flag) => if flag {
            Some("true"@)
        } else {
            Some("false"@)
        },
        ConfigValue::Number { json, .. } => Some(json@),
        ConfigValue::Text(text) => Some(text@),
        ConfigValue::List { json, .. } => Some(json@),
        ConfigValue::Table { json, .. } => Some(json@),
    }
}

/// The port number that a value stands for.
pub open spec fn u16_of(value: ConfigValue) -> Option<nat> {
    match value {
        ConfigValue::Number { unsigned: Some(n), .. } => if n <= 65535 {
            Some(n as nat)
        } else {
            None
        },
        ConfigValue::Text(text) => text::parse_unsigned(text@, 65535),
        _ => None,
    }
}

/// The switch that a value stands for.
pub open spec fn bool_of(value: ConfigValue) -> Option<bool> {
    match value {
        ConfigValue::Flag(flag) => Some(flag),
        ConfigValue::Text(text) => {
            let word = text::ascii_lower(text@);
            if word == "true"@ || word == "1"@ || word == "yes"@ || word == "on"@ {
                Some(true)
            } else if word == "false"@ || word == "0"@ || word == "no"@ || word == "off"@ {
                Some(false)
            } else {
                None
            }
        },
        _ => None,
    }
}

/// The text, unless it is blank.
pub open spec fn unless_blank(text: Option<Seq<char>>) -> Option<Seq<char>> {
    match text {
        Some(t) => if text::is_blank(t) {
            None
        } else {
            Some(t)
        },
        None => None,
    }
}

/// The texts of `items` that are not blank, in order.
pub open spec fn texts_of(items: Seq<ConfigValue>) -> Seq<Seq<char>>
    decreases items.len(),
{
    if items.len() == 0 {
        Seq::empty()
    } else {
        let front = texts_of(items.drop_last());
        match unless_blank(text_of(items.last())) {
            Some(text) => front.push(text),
            None => front,
        }
    }
}

/// The texts that a value stands for: those of its items, where it is a list, else its own.
pub open spec fn string_list_of(value: ConfigValue) -> Seq<Seq<char>> {
    match value {
        ConfigValue::List { items, .. } => texts_of(items@),
        _ => match unless_blank(text_of(value)) {
            Some(text) => seq![text],
            None => Seq::empty(),
        },
    }
}

/// The text of a value.
pub fn value_as_string(value: &ConfigValue) -> (r: Option<String>)
    ensures
        text::view_of(r) == text_of(*value),
{
    match value {
        ConfigValue::Null => None,
        ConfigValue::Flag(flag) => if *flag {
            Some("true".to_owned())
        } else {
            Some("false".to_owned())
        },
        ConfigValue::Number { json, unsigned: _ } => Some(json.clone()),
        ConfigValue::Text(text) => Some(text.clone()),
        ConfigValue::List { json, items: _ } => Some(json.clone()),
        ConfigValue::Table { json, members: _ } => Some(json.clone()),
    }
}

/// The port number that a value stands for: a number, or a text that writes one.
pub fn value_as_u16(value: &ConfigValue) -> (r: Option<u16>)
    ensures
        match r {
            Some(n) => u16_of(*value) == Some(n as nat),
            None => u16_of(*value) is None,
        },
{
    match value {
        ConfigValue::Number { json: _, unsigned: Some(n) } => if *n <= 65535 {
            Some(*n as u16)
        } else {
            None
        },
        ConfigValue::Text(text) => match strings::parsed_unsigned(
            &strings::chars_of(text.as_str()),
            65535,
        ) {
            Some(n) => Some(n as u16),
            None => None,
        },
        _ => None,
    }
}

/// The switch that a value stands for.
pub fn value_as_bool(value: &ConfigValue) -> (r: Option<bool>)
    ensures
        r == bool_of(*value),
{
    match value {
        ConfigValue::Flag(flag) => Some(*flag),
        ConfigValue::Text(text) => {
            let word = strings::lowered_string(text.as_str());
            let w = word.as_str();
            if strings::same_text(w, "true") || strings::same_text(w, "1") || strings::same_text(
                w,
                "yes",
            ) || strings::same_text(w, "on") {
                Some(true)
            } else if strings::same_text(w, "false") || strings::same_text(w, "0")
                || strings::same_text(w, "no") || strings::same_text(w, "off") {
                Some(false)
            } else {
                None
            }
        },
        _ => None,
    }
}

/// The text, unless it is blank.
pub fn without_blank(text: Option<String>) -> (r: Option<String>)
    ensures
        text::view_of(r) == unless_blank(text::view_of(text)),
{
    match text {
        Some(t) => if strings::blank(t.as_str()) {
            None
        } else {
            Some(t)
        },
        None => None,
    }
}

/// The texts that a value stands for.
pub fn value_as_string_list(value: &ConfigValue) -> (r: Vec<String>)
    ensures
        text::views(r@) == string_list_of(*value),
{
    let mut out: Vec<String> = Vec::new();
    match value {
        ConfigValue::List { json: _, items } => {
            assert(items@.take(0) =~= Seq::<ConfigValue>::empty());
            assert(text::views(out@) =~= Seq::<Seq<char>>::empty());
            for i in 0..items.len()
                invariant
                    text::views(out@) == texts_of(items@.take(i as int)),
            {
                assert(items@.take(i + 1).drop_last() =~= items@.take(i as int));
                assert(items@.take(i + 1).last() == items@[i as int]);
                if let Some(text) = without_blank(value_as_string(&items[i])) {
                    assert(text::views(out@.push(text)) =~= text::views(out@).push(text@));
                    out.push(text);
                }
            }
            assert(items@.take(items@.len() as int) =~= items@);
        },
        _ => {
            if let Some(text) = without_blank(value_as_string(value)) {
                out.push(text);
            }
            assert(text::views(out@) =~= string_list_of(*value));
        },
    }
    out
}

/// The requirements file that the configuration names, else the one beside the launcher.
pub open spec fn requirements_file(config: Option<ConfigValue>) -> Seq<char> {
    match deploy_value(config, "Python"@, "RequirementsFile"@) {
        Some(ConfigValue::Text(path)) => if text::is_blank(path@) {
            "./requirements.txt"@
        } else {
            path@
        },
        _ => "./requirements.txt"@,
    }
}

/// The requirements file that the configuration names.
pub fn get_requirements_file_path(config: Option<&ConfigValue>) -> (r: String)
    ensures
        r@ == requirements_file(target(config)),
{
    match find_deploy_value(config, "Python", "RequirementsFile") {
        Some(ConfigValue::Text(path)) => if strings::blank(path.as_str()) {
            "./requirements.txt".to_owned()
        } else {
            path.clone()
        },
        _ => "./requirements.txt".to_owned(),
    }
}

/// The package index that the configuration names in place of the public one.
pub open spec fn mirror(config: Option<ConfigValue>) -> Option<Seq<char>> {
    match deploy_value(config, "Python"@, "PypiMirror"@) {
        Some(ConfigValue::Text(url)) => if url@.len() == 0 || url@ == "null"@ {
            None
        } else {
            Some(url@)
        },
        _ => None,
    }
}

/// The package index that the configuration names.
pub fn pypi_mirror(config: Option<&ConfigValue>) -> (r: Option<String>)
    ensures
        text::view_of(r) == mirror(target(config)),
{
    match find_deploy_value(config, "Python", "PypiMirror") {
        Some(ConfigValue::Text(url)) => if url.as_str().is_empty() || strings::same_text(
            url.as_str(),
            "null",
        ) {
            None
        } else {
            Some(url.clone())
        },
        _ => None,
    }
}

/// A setting is found under its section and its name wherever the tables on the way to it and the
/// setting itself stand among their neighbours, and is not taken from another section or name.
pub proof fn a_setting_is_found_by_its_path(
    config: ConfigValue,
    section: Seq<char>,
    key: Seq<char>,
    deploy: ConfigValue,
    table: ConfigValue,
)
    requires
        member(Some(config), "Deploy"@) == Some(deploy),
        member(Some(deploy), section) == Some(table),
    ensures
        deploy_value(Some(config), section, key) == member(Some(table), key),
{
}

/// A port is read as the same number whether it is given as a number or as a text that writes it,
/// and a number that is no port is not read at all.
pub proof fn a_port_is_read_as_written(n: u64, text: String, json: String)
    requires
        text@ == text::decimal(n as nat),
    ensures
        u16_of(ConfigValue::Number { json, unsigned: Some(n) }) == u16_of(ConfigValue::Text(text)),
        u16_of(ConfigValue::Text(text)) == if n < 65536 {
            Some(n as nat)
        } else {
            None
        },
{
    text::lemma_decimal(n as nat);
    assert(text::is_digit(text@[0]));
}

/// A switch is read from a truth value and from its text alike, and from the other words for it in
/// whatever case their letters are; any other word says nothing.
pub proof fn a_switch_is_read_from_its_words(flag: bool, text: String, other: String)
    ensures
        bool_of(ConfigValue::Flag(flag)) == Some(flag),
        Some(text@) == text_of(ConfigValue::Flag(flag)) ==> bool_of(ConfigValue::Text(text))
            == Some(flag),
        text::ascii_lower(text@) == text::ascii_lower(other@) ==> bool_of(ConfigValue::Text(text))
            == bool_of(ConfigValue::Text(other)),
        text@ == "1"@ || text@ == "yes"@ || text@ == "on"@ ==> bool_of(ConfigValue::Text(text))
            == Some(true),
        text@ == "0"@ || text@ == "no"@ || text@ == "off"@ ==> bool_of(ConfigValue::Text(text))
            == Some(false),
        bool_of(ConfigValue::Text(text)) == Some(true) && bool_of(ConfigValue::Text(other)) == Some(
            false,
        ) ==> text@ != other@,
{
    reveal_strlit("true");
    reveal_strlit("1");
    reveal_strlit("yes");
    reveal_strlit("on");
    reveal_strlit("false");
    reveal_strlit("0");
    reveal_strlit("no");
    reveal_strlit("off");
    text::lemma_lower_fixed("true"@);
    text::lemma_lower_fixed("1"@);
    text::lemma_lower_fixed("yes"@);
    text::lemma_lower_fixed("on"@);
    text::lemma_lower_fixed("false"@);
    text::lemma_lower_fixed("0"@);
    text::lemma_lower_fixed("no"@);
    text::lemma_lower_fixed("off"@);
    assert("true"@[0] == 't' && "1"@[0] == '1' && "yes"@[0] == 'y' && "on"@[0] == 'o' && "on"@[1]
        == 'n');
    assert("false"@[0] == 'f' && "0"@[0] == '0' && "no"@[0] == 'n' && "off"@[0] == 'o' && "off"@[1]
        == 'f');
}

/// The texts of a list are those of its items that have one that is not blank, in the order of the
/// items: what two lists give together is what they give one after the other, and a list of one
/// item gives what the item gives by itself.
pub proof fn a_list_gives_the_texts_of_its_items(
    first: Seq<ConfigValue>,
    second: Seq<ConfigValue>,
    item: ConfigValue,
)
    ensures
        texts_of(first + second) == texts_of(first) + texts_of(second),
        texts_of(seq![item]) == match text_of(item) {
            Some(text) => if text::trim(text).len() > 0 {
                seq![text]
            } else {
                Seq::empty()
            },
            None => Seq::empty(),
        },
        item !is List ==> string_list_of(item) == texts_of(seq![item]),
    decreases second.len(),
{
    reveal_with_fuel(texts_of, 2);
    assert(seq![item].drop_last() =~= Seq::<ConfigValue>::empty());
    assert(seq![item].last() == item);
    if let Some(text) = unless_blank(text_of(item)) {
        assert(Seq::<Seq<char>>::empty().push(text) =~= seq![text]);
    }
    if second.len() == 0 {
        assert(first + second =~= first);
        assert(texts_of(first) + texts_of(second) =~= texts_of(first));
    } else {
        a_list_gives_the_texts_of_its_items(first, second.drop_last(), item);
        assert((first + second).drop_last() =~= first + second.drop_last());
        assert((first + second).last() == second.last());
        assert(texts_of(first + second) =~= texts_of(first) + texts_of(second));
    }
}

/// The text of a value is kept just as it is, white space around it included, unless there is
/// nothing else in it.
pub proof fn a_text_is_kept_as_it_is(text: Seq<char>, i: int)
    ensures
        unless_blank(Some(text)) matches Some(kept) ==> kept == text,
        0 <= i < text.len() && !text::is_white_space(text[i]) ==> unless_blank(Some(text)) == Some(
            text,
        ),
        (forall|j: int| 0 <= j < text.len() ==> text::is_white_space(#[trigger] text[j]))
            ==> unless_blank(Some(text)) is None,
        unless_blank(None) is None,
{
    text::lemma_trim_start(text);
    text::lemma_trim_end(text::trim_start(text));
    let start = text::trim_start(text);
    if 0 <= i < text.len() && !text::is_white_space(text[i]) && text::is_blank(text) {
        let n = text.len() - start.len();
        assert(i >= n);
        assert(start[i - n] == text[i]);
        assert(text::is_white_space(start[i - n]));
    }
    if forall|j: int| 0 <= j < text.len() ==> text::is_white_space(#[trigger] text[j]) {
        text::lemma_trim_start_is(text, text.len() as int);
        assert(text.skip(text.len() as int) =~= Seq::empty());
    }
}

/// The requirements file and the package index that the configuration names are taken as they
/// stand there; where it names none, the file beside the launcher and the public index are used.
pub proof fn python_settings_are_taken_as_they_stand(config: Option<ConfigValue>, text: String)
    ensures
        deploy_value(config, "Python"@, "RequirementsFile"@) == Some(ConfigValue::Text(text))
            && text::trim(text@).len() > 0 ==> requirements_file(config) == text@,
        deploy_value(config, "Python"@, "RequirementsFile"@) is None ==> requirements_file(config)
            == "./requirements.txt"@,
        requirements_file(config).len() > 0,
        deploy_value(config, "Python"@, "PypiMirror"@) == Some(ConfigValue::Text(text))
            && text@.len() > 0 && text@ != "null"@ ==> mirror(config) == Some(text@),
        mirror(config) matches Some(url) ==> url.len() > 0 && url != "null"@,
        deploy_value(config, "Python"@, "PypiMirror"@) is None ==> mirror(config) is None,
        deploy_value(config, "Python"@, "PypiMirror"@) == Some(ConfigValue::Null) ==> mirror(
            config,
        ) is None,
{
    reveal_strlit("./requirements.txt");
    if let Some(ConfigValue::Text(path)) = deploy_value(config, "Python"@, "RequirementsFile"@) {
        text::lemma_trim_start(path@);
        text::lemma_trim_end(text::trim_start(path@));
    }
}

/// A value stands for its text: a text for itself, whatever it holds, a truth value for the word,
/// and a number, a list or a table for its JSON; only the empty value has none.
pub proof fn a_value_stands_for_its_text(
    text: String,
    json: String,
    unsigned: Option<u64>,
    items: Vec<ConfigValue>,
    members: Vec<ConfigMember>,
    value: ConfigValue,
)
    ensures
        text_of(ConfigValue::Text(text)) == Some(text@),
        text_of(ConfigValue::Flag(true)) == Some("true"@),
        text_of(ConfigValue::Flag(false)) == Some("false"@),
        text_of(ConfigValue::Number { json, unsigned }) == Some(json@),
        text_of(ConfigValue::List { json, items }) == Some(json@),
        text_of(ConfigValue::Table { json, members }) == Some(json@),
        text_of(value) is None <==> value is Null,
{
}

} // verus!
