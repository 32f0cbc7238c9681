//! A test version's end: the date after which the launcher no longer starts, and where it is
//! configured.

use vstd::prelude::*;

use crate::strings;
use crate::text;

verus! {

/// The settings of this launcher.
pub const TIME_BOMB_CONFIG_SOURCE: &'static str = "[package]
name = \"alas-launcher\"

[package.metadata.alas-launcher.time-bomb]
enabled = false # true in test versions
expires-at = \"2026-01-01T00:00:00+08:00\"
network-time-url = \"http://www.gstatic.com/generate_204\"
message = \"测试已结束，请安装正式版\"
";

/// The section with the settings of the end.
pub const TIME_BOMB_SECTION: &'static str = "package.metadata.alas-launcher.time-bomb";

/// The address whose answers give the time where no other is set.
pub const DEFAULT_NETWORK_TIME_URL: &'static str = "http://www.gstatic.com/generate_204";

/// What stands in `source` behind the header of the section `name`, up to the next line that
/// starts with a bracket.
pub open spec fn section_of(source: Seq<char>, name: Seq<char>) -> Option<Seq<char>> {
    match text::split_once(source, "["@ + name + "]"@) {
        Some((_, rest)) => Some(text::before(rest, "\n["@)),
        None => None,
    }
}

/// `s` without the quotes around it, where it has both.
pub open spec fn unquoted(s: Seq<char>) -> Seq<char> {
    if s.len() >= 2 && s[0] == '"' && s.last() == '"' {
        s.subrange(1, s.len() - 1)
    } else {
        s
    }
}

/// The value that a line gives to `key`.
pub open spec fn line_value(line: Seq<char>, key: Seq<char>) -> Option<Seq<char>> {
    match text::split_once(text::trim(text::before(line, "#"@)), "="@) {
        Some((left, right)) => if text::trim(left) == key {
            Some(unquoted(text::trim(right)))
        } else {
            None
        },
        None => None,
    }
}

/// The value that the first of the lines, from `from` on, that has one gives to `key`.
pub open spec fn value_from(lines: Seq<Seq<char>>, key: Seq<char>, from: int) -> Option<Seq<char>>
    decreases lines.len() - from,
{
    if from < 0 || from >= lines.len() {
        None
    } else {
        match line_value(lines[from], key) {
            Some(value) => Some(value),
            None => value_from(lines, key, from + 1),
        }
    }
}

/// The value of `key` in a section.
pub open spec fn section_value(section: Seq<char>, key: Seq<char>) -> Option<Seq<char>> {
    value_from(text::lines(section), key, 0)
}

/// The section `name` of `source`.
pub fn manifest_section(source: &str, name: &str) -> (r: Option<String>)
    ensures
        text::view_of(r) == section_of(source@, name@),
{
    let mut header: String = "[".to_owned();
    header.append(name);
    header.append("]");
    match strings::cut_once(&strings::chars_of(source), header.as_str()) {
        Some((_, rest)) => Some(strings::string_of(&strings::cut_before(&rest, "\n["))),
        None => None,
    }
}

/// The section `section_name` of the launcher's settings.
pub fn cargo_toml_section(section_name: &str) -> (r: Option<String>)
    ensures
        text::view_of(r) == section_of(TIME_BOMB_CONFIG_SOURCE@, section_name@),
{
    manifest_section(TIME_BOMB_CONFIG_SOURCE, section_name)
}

fn without_quotes(chars: &Vec<char>) -> (r: Vec<char>)
    ensures
        r@ == unquoted(chars@),
{
    let n: usize = chars.len();
    if n >= 2 && chars[0] == '"' && chars[n - 1] == '"' {
        strings::range_of(chars, 1, n - 1)
    } else {
        let all = strings::range_of(chars, 0, n);
        assert(all@ =~= chars@);
        all
    }
}

fn value_in_line(line: &Vec<char>, key: &Vec<char>) -> (r: Option<Vec<char>>)
    ensures
        match r {
            Some(value) => line_value(line@, key@) == Some(value@),
            None => line_value(line@, key@) is None,
        },
{
    match strings::cut_once(&strings::trimmed(&strings::cut_before(line, "#")), "=") {
        Some((left, right)) => if strings::same_chars(&strings::trimmed(&left), key) {
            Some(without_quotes(&strings::trimmed(&right)))
        } else {
            None
        },
        None => None,
    }
}

/// The value of `key` in a section.
pub fn cargo_toml_value(section: &str, key: &str) -> (r: Option<String>)
    ensures
        text::view_of(r) == section_value(section@, key@),
{
    let lines = strings::lines_of(&strings::chars_of(section));
    let key_chars = strings::chars_of(key);
    let ghost all = text::lines(section@);
    let total: usize = lines.len();
    let mut i: usize = 0;
    while i < total
        invariant
            total == lines@.len(),
            all == strings::char_views(lines@),
            all.len() == total,
            key_chars@ == key@,
            i <= total,
            section_value(section@, key@) == value_from(all, key@, i as int),
        decreases total - i,
    {
        assert(all[i as int] == lines@[i as int]@);
        if let Some(value) = value_in_line(&lines[i], &key_chars) {
            return Some(strings::string_of(&value));
        }
        i = i + 1;
    }
    None
}

/// A point in time: the seconds since 1970 in UTC, and the nanoseconds in the second.
#[derive(Clone, Copy, Debug, PartialEq, Eq, Structural)]
pub struct Moment {
    pub seconds: i64,
    pub nanos: u32,
}

/// `a` comes before `b`.
pub open spec fn earlier(a: Moment, b: Moment) -> bool {
    a.seconds < b.seconds || (a.seconds == b.seconds && a.nanos < b.nanos)
}

/// The error of chrono's parsers.
#[verifier::external_type_specification]
#[verifier::external_body]
pub struct ExParseError(chrono::ParseError);

/// The moment that `chrono::DateTime::parse_from_rfc3339` reads a text as.
pub uninterp spec fn rfc3339_moment(text: Seq<char>) -> Option<Moment>;

/// The moment that `chrono::DateTime::parse_from_rfc2822` reads a text as.
pub uninterp spec fn rfc2822_moment(text: Seq<char>) -> Option<Moment>;

/// `chrono::DateTime::parse_from_rfc3339`: the moment that the text writes, whatever its offset.
#[verifier::external_body]
fn parse_rfc3339(text: &str) -> (r: Result<Moment, chrono::ParseError>)
    ensures
        match r {
            Ok(moment) => rfc3339_moment(text@) == Some(moment),
            Err(_) => rfc3339_moment(text@) is None,
        },
{
    chrono::DateTime::parse_from_rfc3339(text).map(|time| Moment {
        seconds: time.timestamp(),
        nanos: time.timestamp_subsec_nanos(),
    })
}

/// `chrono::DateTime::parse_from_rfc2822`: the moment that the text writes, whatever its offset.
#[verifier::external_body]
fn parse_rfc2822(text: &str) -> (r: Result<Moment, chrono::ParseError>)
    ensures
        match r {
            Ok(moment) => rfc2822_moment(text@) == Some(moment),
            Err(_) => rfc2822_moment(text@) is None,
        },
{
    chrono::DateTime::parse_from_rfc2822(text).map(|time| Moment {
        seconds: time.timestamp(),
        nanos: time.timestamp_subsec_nanos(),
    })
}

/// When a test version ends, where the time is asked for, and what is said then.
#[derive(Clone, Debug)]
pub struct TimeBombConfig {
    pub expires_at: Moment,
    pub network_time_url: String,
    pub message: String,
}

/// Why the end of a test version cannot be told.
#[derive(Debug)]
pub enum TimeBombError {
    NotConfigured,
    Format { cause: chrono::ParseError },
}

/// The section is that of a test version.
pub open spec fn is_enabled(section: Seq<char>) -> bool {
    section_value(section, "enabled"@) == Some("true"@)
}

/// The settings are those of a section, for a version that ends at `expires_at`.
pub open spec fn settings_of(
    config: TimeBombConfig,
    section: Seq<char>,
    expires_at: Moment,
    expired_text: Seq<char>,
) -> bool {
    &&& config.expires_at == expires_at
    &&& config.network_time_url@ == match section_value(section, "network-time-url"@) {
        Some(url) => url,
        None => DEFAULT_NETWORK_TIME_URL@,
    }
    &&& config.message@ == match section_value(section, "message"@) {
        Some(message) => message,
        None => expired_text,
    }
}

/// The settings of a section, for a version that ends at `expires_at`. Where it sets no message,
/// that is `expired_text`.
pub fn time_bomb_settings(section: &str, expires_at: Moment, expired_text: &str) -> (r:
    TimeBombConfig)
    ensures
        settings_of(r, section@, expires_at, expired_text@),
{
    let network_time_url = match cargo_toml_value(section, "network-time-url") {
        Some(url) => url,
        None => DEFAULT_NETWORK_TIME_URL.to_owned(),
    };
    let message = match cargo_toml_value(section, "message") {
        Some(message) => message,
        None => expired_text.to_owned(),
    };
    TimeBombConfig { expires_at, network_time_url, message }
}

/// The result is what the settings in `source` say of the end of the version.
pub open spec fn time_bomb_of(
    source: Seq<char>,
    expired_text: Seq<char>,
    result: Result<Option<TimeBombConfig>, TimeBombError>,
) -> bool {
    match section_of(source, TIME_BOMB_SECTION@) {
        None => result matches Ok(None),
        Some(section) => if !is_enabled(section) {
            result matches Ok(None)
        } else {
            match section_value(section, "expires-at"@) {
                None => result matches Err(TimeBombError::NotConfigured),
                Some(text) => match rfc3339_moment(text) {
                    None => result matches Err(TimeBombError::Format { cause: _ }),
                    Some(expires_at) => result matches Ok(Some(config)) && settings_of(
                        config,
                        section,
                        expires_at,
                        expired_text,
                    ),
                },
            }
        },
    }
}

/// What the settings in `source` say of the end of the version: none where it has none.
pub fn time_bomb_in(source: &str, expired_text: &str) -> (r: Result<
    Option<TimeBombConfig>,
    TimeBombError,
>)
    ensures
        time_bomb_of(source@, expired_text@, r),
{
    let section = match manifest_section(source, TIME_BOMB_SECTION) {
        Some(section) => section,
        None => {
            return Ok(None);
        },
    };
    let enabled = match cargo_toml_value(section.as_str(), "enabled") {
        Some(value) => strings::same_text(value.as_str(), "true"),
        None => false,
    };
    if !enabled {
        return Ok(None);
    }
    match cargo_toml_value(section.as_str(), "expires-at") {
        None => Err(TimeBombError::NotConfigured),
        Some(text) => match parse_rfc3339(text.as_str()) {
            Err(cause) => Err(TimeBombError::Format { cause }),
            Ok(expires_at) => Ok(
                Some(time_bomb_settings(section.as_str(), expires_at, expired_text)),
            ),
        },
    }
}

/// What the launcher's settings say of its end. Where they set no message, it is `expired_text`.
pub fn time_bomb_config(expired_text: &str) -> (r: Result<Option<TimeBombConfig>, TimeBombError>)
    ensures
        time_bomb_of(TIME_BOMB_CONFIG_SOURCE@, expired_text@, r),
{
    time_bomb_in(TIME_BOMB_CONFIG_SOURCE, expired_text)
}

/// Why the time on the network cannot be told.
#[derive(Debug)]
pub enum NetworkTimeError {
    Missing,
    Format { cause: chrono::ParseError },
}

/// The time on the network, as the date header of an answer gives it.
pub fn fetch_network_time(date_header: Option<&str>) -> (r: Result<Moment, NetworkTimeError>)
    ensures
        match date_header {
            None => r matches Err(NetworkTimeError::Missing),
            Some(date) => match rfc2822_moment(date@) {
                Some(moment) => r == Ok::<Moment, NetworkTimeError>(moment),
                None => r matches Err(NetworkTimeError::Format { cause: _ }),
            },
        },
{
    match date_header {
        None => Err(NetworkTimeError::Missing),
        Some(date) => match parse_rfc2822(date) {
            Ok(moment) => Ok(moment),
            Err(cause) => Err(NetworkTimeError::Format { cause }),
        },
    }
}

/// What is said at the time `network_time`: the message, from the end of the version on.
pub open spec fn expiration_message(config: TimeBombConfig, network_time: Moment) -> Option<
    Seq<char>,
> {
    if earlier(network_time, config.expires_at) {
        None
    } else {
        Some(config.message@)
    }
}

/// What is said at the time `network_time`.
pub fn time_bomb_expiration_message(config: &TimeBombConfig, network_time: Moment) -> (r: Option<
    String,
>)
    ensures
        text::view_of(r) == expiration_message(*config, network_time),
{
    let expires_at = config.expires_at;
    if network_time.seconds < expires_at.seconds || (network_time.seconds == expires_at.seconds
        && network_time.nanos < expires_at.nanos) {
        None
    } else {
        Some(config.message.clone())
    }
}

/// A version that has ended has ended for good, and it has at the moment of its end.
pub proof fn an_ended_version_stays_ended(config: TimeBombConfig, now: Moment, later: Moment)
    requires
        expiration_message(config, now) is Some,
        !earlier(later, now),
    ensures
        expiration_message(config, later) == Some(config.message@),
        expiration_message(config, config.expires_at) == Some(config.message@),
{
}

/// Nothing is said before the end of a version, down to the nanosecond, and the message is said from
/// that moment on.
pub proof fn the_message_comes_at_the_end(config: TimeBombConfig, now: Moment)
    ensures
        now.seconds < config.expires_at.seconds ==> expiration_message(config, now) is None,
        now.seconds > config.expires_at.seconds ==> expiration_message(config, now) == Some(
            config.message@,
        ),
        now.seconds == config.expires_at.seconds && now.nanos < config.expires_at.nanos
            ==> expiration_message(config, now) is None,
        now.seconds == config.expires_at.seconds && now.nanos >= config.expires_at.nanos
            ==> expiration_message(config, now) == Some(config.message@),
{
}

/// A line that gives a value to a key gives it whatever white space stands around the key, the
/// equals sign and the value, and whatever comment stands behind; it gives nothing to another key.
pub proof fn a_line_gives_its_value(
    indent: Seq<char>,
    key: Seq<char>,
    gap: Seq<char>,
    value: Seq<char>,
    end: Seq<char>,
    comment: Seq<char>,
    other: Seq<char>,
)
    requires
        forall|i: int| 0 <= i < indent.len() ==> text::is_white_space(#[trigger] indent[i]),
        forall|i: int| 0 <= i < gap.len() ==> text::is_white_space(#[trigger] gap[i]),
        forall|i: int| 0 <= i < end.len() ==> text::is_white_space(#[trigger] end[i]),
        key.len() > 0,
        text::trim(key) == key,
        !key.contains('=') && !key.contains('#'),
        value.len() > 0,
        text::trim(value) == value,
        !value.contains('#'),
    ensures
        line_value(
            indent + key + gap + seq!['='] + gap + value + end + seq!['#'] + comment,
            key,
        ) == Some(unquoted(value)),
        other != key ==> line_value(
            indent + key + gap + seq!['='] + gap + value + end + seq!['#'] + comment,
            other,
        ) is None,
{
    reveal_strlit("#");
    reveal_strlit("=");
    assert("#"@ =~= seq!['#']);
    assert("="@ =~= seq!['=']);
    text::lemma_trim_ends(key);
    text::lemma_trim_ends(value);
    let entry = key + gap + seq!['='] + gap + value;
    let front = indent + entry + end;
    let line = indent + key + gap + seq!['='] + gap + value + end + seq!['#'] + comment;
    assert(line =~= front + seq!['#'] + comment);
    assert forall|i: int| 0 <= i < front.len() implies front[i] != '#' by {
        let j = i - indent.len();
        if j < 0 {
            assert(text::is_white_space(indent[i]));
        } else if j < entry.len() {
            assert(front[i] == entry[j]);
            if j < key.len() {
                assert(key.contains(key[j]));
            } else if j < key.len() + gap.len() {
                assert(text::is_white_space(gap[j - key.len()]));
            } else if j == key.len() + gap.len() {
                assert(entry[j] == '=');
            } else if j < key.len() + 2 * gap.len() + 1 {
                assert(text::is_white_space(gap[j - key.len() - gap.len() - 1]));
            } else {
                assert(value.contains(value[j - key.len() - 2 * gap.len() - 1]));
            }
        } else {
            assert(text::is_white_space(end[j - entry.len()]));
        }
    }
    assert(!front.contains('#'));
    text::lemma_split_once_char(front, '#', comment);
    assert(text::before(line, "#"@) == front);
    assert(entry[0] == key[0]);
    assert(entry.last() == value.last());
    text::lemma_trim_around(indent, entry, end);
    let left = key + gap;
    let right = gap + value;
    assert(entry =~= left + seq!['='] + right);
    assert forall|i: int| 0 <= i < left.len() implies left[i] != '=' by {
        if i < key.len() {
            assert(key.contains(key[i]));
        } else {
            assert(text::is_white_space(gap[i - key.len()]));
        }
    }
    assert(!left.contains('='));
    text::lemma_split_once_char(left, '=', right);
    text::lemma_trim_around(Seq::empty(), key, gap);
    assert(Seq::<char>::empty() + key + gap =~= left);
    text::lemma_trim_around(gap, value, Seq::empty());
    assert(gap + value + Seq::empty() =~= right);
}

/// A value between quotes is taken without them, and any other as it is.
pub proof fn a_quoted_value_loses_its_quotes(value: Seq<char>)
    ensures
        unquoted(seq!['"'] + value + seq!['"']) == value,
        value.len() > 0 && value[0] != '"' ==> unquoted(value) == value,
        value.len() > 0 && value.last() != '"' ==> unquoted(value) == value,
{
    let s = seq!['"'] + value + seq!['"'];
    assert(s.subrange(1, s.len() - 1) =~= value);
}

/// The first line that gives a key a value decides, whatever lines stand before that give it none
/// and whatever lines come behind.
pub proof fn the_first_line_with_a_value_decides(
    lines: Seq<Seq<char>>,
    key: Seq<char>,
    from: int,
    i: int,
)
    requires
        0 <= from <= i < lines.len(),
        line_value(lines[i], key) is Some,
        forall|j: int| from <= j < i ==> line_value(#[trigger] lines[j], key) is None,
    ensures
        value_from(lines, key, from) == line_value(lines[i], key),
    decreases i - from,
{
    if from < i {
        assert(line_value(lines[from], key) is None);
        the_first_line_with_a_value_decides(lines, key, from + 1, i);
    }
}

/// A version has an end only where the section says that it is enabled with the word `true`; it is
/// then the moment that the section names, and without one the launcher does not start.
pub proof fn only_an_enabled_section_ends_a_version(
    source: Seq<char>,
    expired_text: Seq<char>,
    result: Result<Option<TimeBombConfig>, TimeBombError>,
    section: Seq<char>,
)
    requires
        time_bomb_of(source, expired_text, result),
        section_of(source, TIME_BOMB_SECTION@) == Some(section),
    ensures
        section_value(section, "enabled"@) != Some("true"@) ==> (result matches Ok(config)
            && config is None),
        section_value(section, "enabled"@) == Some("true"@) && section_value(
            section,
            "expires-at"@,
        ) is None ==> result matches Err(TimeBombError::NotConfigured),
        result matches Ok(config) ==> (config is Some ==> section_value(section, "enabled"@) == Some(
            "true"@,
        ) && section_value(section, "expires-at"@) is Some && rfc3339_moment(
            section_value(section, "expires-at"@)->0,
        ) == Some(config->0.expires_at)),
        result matches Ok(config) ==> (config is Some ==> {
            &&& section_value(section, "message"@) is Some ==> Some(config->0.message@)
                == section_value(section, "message"@)
            &&& section_value(section, "message"@) is None ==> config->0.message@ == expired_text
            &&& section_value(section, "network-time-url"@) is Some ==> Some(
                config->0.network_time_url@,
            ) == section_value(section, "network-time-url"@)
        }),
{
}

/// A section is what stands between its header and the next line that starts with a bracket, and it
/// is found wherever it stands.
pub proof fn a_section_ends_before_the_next(
    before: Seq<char>,
    name: Seq<char>,
    section: Seq<char>,
    rest: Seq<char>,
)
    requires
        !before.contains('['),
        !section.contains('['),
    ensures
        section_of(before + ("["@ + name + "]"@) + section, name) == Some(section),
        section_of(before + ("["@ + name + "]"@) + section + "\n["@ + rest, name) == Some(section),
{
    reveal_strlit("[");
    reveal_strlit("]");
    reveal_strlit("\n[");
    let header = "["@ + name + "]"@;
    lemma_header_found(before, header, section);
    lemma_header_found(before, header, section + "\n["@ + rest);
    assert(before + header + section + "\n["@ + rest =~= before + header + (section + "\n["@
        + rest));
    let end = "\n["@;
    assert forall|j: int| 0 <= j implies !#[trigger] text::occurs_at(section, end, j) by {
        if text::occurs_at(section, end, j) {
            assert(section.subrange(j, j + 2)[1] == '[');
            assert(section.contains(section[j + 1]));
        }
    }
    text::lemma_find_none(section, end, 0);
    let whole = section + end + rest;
    let n = section.len() as int;
    assert(whole.subrange(n, n + 2) =~= end);
    assert(text::occurs_at(whole, end, n));
    assert forall|j: int| 0 <= j < n implies !#[trigger] text::occurs_at(whole, end, j) by {
        if text::occurs_at(whole, end, j) {
            assert(whole.subrange(j, j + 2)[1] == '[');
            if j + 1 < n {
                assert(section.contains(section[j + 1]));
                assert(whole[j + 1] == section[j + 1]);
            } else {
                assert(whole[j + 1] == '\n');
            }
        }
    }
    text::lemma_find_is(whole, end, 0, n);
    assert(whole.take(n) =~= section);
}

proof fn lemma_header_found(before: Seq<char>, header: Seq<char>, rest: Seq<char>)
    requires
        !before.contains('['),
        header.len() > 0,
        header[0] == '[',
    ensures
        text::split_once(before + header + rest, header) == Some((before, rest)),
{
    let s = before + header + rest;
    let n = before.len() as int;
    assert(s.subrange(n, n + header.len()) =~= header);
    assert(text::occurs_at(s, header, n));
    assert forall|j: int| 0 <= j < n implies !#[trigger] text::occurs_at(s, header, j) by {
        if text::occurs_at(s, header, j) {
            assert(s.subrange(j, j + header.len())[0] == '[');
            assert(before.contains(before[j]));
            assert(s[j] == before[j]);
        }
    }
    text::lemma_find_is(s, header, 0, n);
    assert(s.take(n) =~= before);
    assert(s.skip(n + header.len()) =~= rest);
}

} // verus!
