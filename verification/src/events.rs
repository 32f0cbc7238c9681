//! The streams of events that the backend sends, and what the launcher does with them.

use vstd::prelude::*;

use crate::backend;
use crate::config;
use crate::config::ConfigValue;
use crate::download;
use crate::json;
use crate::strings;
use crate::text;

verus! {

/// The mark of a line that carries data.
pub const DATA_MARK: &'static str = "data:";

/// The character ends a line.
pub open spec fn is_line_end(c: char) -> bool {
    c == '\r' || c == '\n'
}

/// `line` without the line ends behind it.
pub open spec fn without_line_end(line: Seq<char>) -> Seq<char>
    decreases line.len(),
{
    if line.len() > 0 && is_line_end(line.last()) {
        without_line_end(line.drop_last())
    } else {
        line
    }
}

/// The data of an event from its lines, if it has any.
pub open spec fn event_of(lines: Seq<Seq<char>>) -> Option<Seq<char>> {
    if lines.len() == 0 {
        None
    } else {
        Some(text::join(lines, "\n"@))
    }
}

/// The data lines of an event that is being read after one more line of the stream, and the data
/// of the event that the line has ended: an empty line ends an event, a line with the mark adds to
/// it, and any other changes nothing.
pub open spec fn after_line(lines: Seq<Seq<char>>, line: Seq<char>) -> (
    Seq<Seq<char>>,
    Option<Seq<char>>,
) {
    let line = without_line_end(line);
    if line.len() == 0 {
        (Seq::empty(), event_of(lines))
    } else {
        match text::strip_prefix(line, DATA_MARK@) {
            Some(data) => (lines.push(text::trim_start(data)), None),
            None => (lines, None),
        }
    }
}

fn line_end_cut(chars: &Vec<char>) -> (r: Vec<char>)
    ensures
        r@ == without_line_end(chars@),
{
    let mut n: usize = chars.len();
    let ghost all = chars@;
    assert(all.take(all.len() as int) =~= all);
    while n > 0 && (chars[n - 1] == '\r' || chars[n - 1] == '\n')
        invariant
            all == chars@,
            n <= all.len(),
            without_line_end(all) == without_line_end(all.take(n as int)),
        decreases n,
    {
        assert(all.take(n as int).last() == all[n - 1]);
        assert(all.take(n as int).drop_last() =~= all.take(n - 1));
        n = n - 1;
    }
    if n > 0 {
        assert(all.take(n as int).last() == all[n - 1]);
    }
    assert(all.subrange(0, n as int) =~= all.take(n as int));
    strings::range_of(chars, 0, n)
}

/// What has been read of an event.
#[derive(Debug)]
pub struct EventReader {
    pub data_lines: Vec<String>,
}

impl View for EventReader {
    type V = Seq<Seq<char>>;

    open spec fn view(&self) -> Seq<Seq<char>> {
        text::views(self.data_lines@)
    }
}

impl EventReader {
    /// A reader at the beginning of a stream.
    pub fn new() -> (r: Self)
        ensures
            r@ == Seq::<Seq<char>>::empty(),
    {
        let reader = EventReader { data_lines: Vec::new() };
        assert(reader@ =~= Seq::<Seq<char>>::empty());
        reader
    }

    /// Ends the event that is being read and gives its data, if it has any.
    pub fn dispatch_sse_data(&mut self) -> (r: Option<String>)
        ensures
            final(self)@ == Seq::<Seq<char>>::empty(),
            text::view_of(r) == event_of(old(self)@),
    {
        assert(self@.len() == self.data_lines@.len());
        let data = if self.data_lines.len() == 0 {
            None
        } else {
            Some(strings::joined(&self.data_lines, "\n"))
        };
        self.data_lines = Vec::new();
        assert(self@ =~= Seq::<Seq<char>>::empty());
        data
    }

    /// Takes account of a line of the stream and gives the data of the event that it ends, if it
    /// ends one.
    pub fn on_line(&mut self, line: &str) -> (r: Option<String>)
        ensures
            (final(self)@, text::view_of(r)) == after_line(old(self)@, line@),
    {
        let line = line_end_cut(&strings::chars_of(line));
        if line.len() == 0 {
            return self.dispatch_sse_data();
        }
        if let Some(data) = strings::without_prefix(&line, DATA_MARK) {
            let trimmed = strings::trimmed_start(&data);
            let ghost before = self@;
            self.data_lines.push(strings::string_of(&trimmed));
            assert(self@ =~= before.push(trimmed@));
        }
        None
    }
}

/// The data lines left and the data of the events ended after the lines of a stream up to the one
/// `n`.
pub open spec fn after_lines(lines: Seq<Seq<char>>, stream: Seq<Seq<char>>, n: int) -> (
    Seq<Seq<char>>,
    Seq<Seq<char>>,
)
    decreases n,
{
    if n <= 0 {
        (lines, Seq::empty())
    } else {
        let (so_far, events) = after_lines(lines, stream, n - 1);
        let (rest, event) = after_line(so_far, stream[n - 1]);
        (
            rest,
            match event {
                Some(data) => events.push(data),
                None => events,
            },
        )
    }
}

/// The lines of a stream that send an event with these data lines.
pub open spec fn sent(data: Seq<Seq<char>>) -> Seq<Seq<char>> {
    Seq::new(data.len(), |i: int| DATA_MARK@ + data[i] + "\n"@).push("\n"@)
}

/// The text can be sent as one line of data: no white space stands before it and no line end behind
/// it.
pub open spec fn can_be_sent(data: Seq<char>) -> bool {
    text::trim_start(data) == data && without_line_end(data) == data
}

proof fn lemma_line_sent(lines: Seq<Seq<char>>, data: Seq<char>)
    requires
        can_be_sent(data),
    ensures
        after_line(lines, DATA_MARK@ + data + "\n"@) == (lines.push(data), None::<Seq<char>>),
{
    reveal_strlit("data:");
    reveal_strlit("\n");
    let line = DATA_MARK@ + data + "\n"@;
    let content = DATA_MARK@ + data;
    assert(line.last() == '\n');
    assert(line.drop_last() =~= content);
    if data.len() > 0 {
        assert(content.last() == data.last());
        if is_line_end(data.last()) {
            lemma_line_end_shrinks(data.drop_last());
            assert(without_line_end(data).len() < data.len());
        }
    } else {
        assert(content =~= DATA_MARK@);
        assert(content.last() == ':');
    }
    assert(without_line_end(content) == content);
    assert(without_line_end(line) == content);
    assert(content.take(5) =~= DATA_MARK@);
    assert(content.skip(5) =~= data);
}

proof fn lemma_line_end_shrinks(line: Seq<char>)
    ensures
        without_line_end(line).len() <= line.len(),
    decreases line.len(),
{
    if line.len() > 0 && is_line_end(line.last()) {
        lemma_line_end_shrinks(line.drop_last());
    }
}

/// An event that is sent line by line is read as its lines, with line feeds between them, and
/// nothing is left of it.
pub proof fn an_event_sent_is_read_back(data: Seq<Seq<char>>)
    requires
        data.len() > 0,
        forall|i: int| 0 <= i < data.len() ==> can_be_sent(#[trigger] data[i]),
    ensures
        after_lines(Seq::empty(), sent(data), sent(data).len() as int) == (
            Seq::<Seq<char>>::empty(),
            seq![text::join(data, "\n"@)],
        ),
{
    let n = data.len() as int;
    lemma_lines_sent(data, n);
    assert(data.take(n) =~= data);
    assert(sent(data)[n] == "\n"@);
    reveal_strlit("\n");
    assert("\n"@.last() == '\n');
    assert("\n"@.drop_last() =~= Seq::<char>::empty());
    assert(without_line_end("\n"@) =~= Seq::<char>::empty()) by {
        reveal_with_fuel(without_line_end, 2);
    }
    assert(Seq::<Seq<char>>::empty().push(text::join(data, "\n"@)) =~= seq![
        text::join(data, "\n"@),
    ]);
}

proof fn lemma_lines_sent(data: Seq<Seq<char>>, n: int)
    requires
        0 <= n <= data.len(),
        forall|i: int| 0 <= i < data.len() ==> can_be_sent(#[trigger] data[i]),
    ensures
        after_lines(Seq::empty(), sent(data), n) == (data.take(n), Seq::<Seq<char>>::empty()),
    decreases n,
{
    if n == 0 {
        assert(data.take(0) =~= Seq::<Seq<char>>::empty());
    } else {
        lemma_lines_sent(data, n - 1);
        assert(can_be_sent(data[n - 1]));
        lemma_line_sent(data.take(n - 1), data[n - 1]);
        assert(sent(data)[n - 1] == DATA_MARK@ + data[n - 1] + "\n"@);
        assert(data.take(n - 1).push(data[n - 1]) =~= data.take(n));
    }
}

/// A stream of the backend on `port`.
pub open spec fn stream_url(port: u16, path: Seq<char>) -> Seq<char> {
    "http://127.0.0.1:"@ + text::decimal(port as nat) + path
}

fn backend_path(port: u16, path: &str) -> (r: String)
    ensures
        r@ == stream_url(port, path@),
{
    let mut url: String = "http://127.0.0.1:".to_owned();
    url.append(strings::decimal_string(port as u64).as_str());
    url.append(path);
    url
}

/// The stream of notifications.
pub fn notify_stream_url(port: u16) -> (r: String)
    ensures
        r@ == stream_url(port, "/api/notify_stream"@),
{
    backend_path(port, "/api/notify_stream")
}

/// The stream of commands to the launcher.
pub fn control_stream_url(port: u16) -> (r: String)
    ensures
        r@ == stream_url(port, "/api/launcher/stream"@),
{
    backend_path(port, "/api/launcher/stream")
}

/// Where the launcher reports on commands.
pub fn control_report_url(port: u16) -> (r: String)
    ensures
        r@ == stream_url(port, "/api/launcher/report"@),
{
    backend_path(port, "/api/launcher/report")
}

/// Checks the status of the answer that is to be a stream.
pub fn check_stream_status(status: u16, status_text: &str) -> (r: Result<(), String>)
    ensures
        r is Ok <==> download::is_success(status),
        r matches Err(e) ==> e@ == "server returned "@ + status_text@,
{
    if 200 <= status && status < 300 {
        return Ok(());
    }
    let mut message: String = "server returned ".to_owned();
    message.append(status_text);
    Err(message)
}

/// A text without white space around it, unless nothing is left of it.
pub open spec fn cleaned(value: Option<Seq<char>>) -> Option<Seq<char>> {
    match value {
        Some(value) => if text::trim(value).len() > 0 {
            Some(text::trim(value))
        } else {
            None
        },
        None => None,
    }
}

/// A text without white space around it, unless nothing is left of it.
pub fn clean_text(value: Option<String>) -> (r: Option<String>)
    ensures
        text::view_of(r) == cleaned(text::view_of(value)),
{
    match value {
        Some(value) => {
            let trimmed = strings::trimmed(&strings::chars_of(value.as_str()));
            if trimmed.len() > 0 {
                Some(strings::string_of(&trimmed))
            } else {
                None
            }
        },
        None => None,
    }
}

/// A notification as the backend sends it.
#[derive(Debug)]
pub struct NotifyPayload {
    pub instance: Option<String>,
    pub title: Option<String>,
    pub content: Option<String>,
}

/// A notification as it is shown.
#[derive(Debug)]
pub struct Notification {
    pub title: String,
    pub body: String,
}

/// The title of a notification.
pub open spec fn notification_title(payload: NotifyPayload) -> Seq<char> {
    match cleaned(text::view_of(payload.title)) {
        Some(title) => title,
        None => "Alas"@,
    }
}

/// The body of a notification: its content, or else the instance that it comes from.
pub open spec fn notification_body(payload: NotifyPayload) -> Seq<char> {
    match cleaned(text::view_of(payload.content)) {
        Some(content) => content,
        None => match cleaned(text::view_of(payload.instance)) {
            Some(instance) => "Instance: "@ + instance,
            None => "New notification"@,
        },
    }
}

/// A notification as it is shown.
pub fn show_notification(payload: NotifyPayload) -> (r: Notification)
    ensures
        r.title@ == notification_title(payload),
        r.body@ == notification_body(payload),
{
    let title = match clean_text(payload.title) {
        Some(title) => title,
        None => "Alas".to_owned(),
    };
    let body = match clean_text(payload.content) {
        Some(content) => content,
        None => match clean_text(payload.instance) {
            Some(instance) => {
                let mut body: String = "Instance: ".to_owned();
                body.append(instance.as_str());
                body
            },
            None => "New notification".to_owned(),
        },
    };
    Notification { title, body }
}

/// A notification is never shown with an empty title or body.
pub proof fn a_notification_is_never_empty(payload: NotifyPayload)
    ensures
        notification_title(payload).len() > 0,
        notification_body(payload).len() > 0,
{
    reveal_strlit("Alas");
    reveal_strlit("Instance: ");
    reveal_strlit("New notification");
}

/// What a command asks of the launcher.
#[derive(Debug)]
pub enum CommandAction {
    /// Report whether the launcher starts with the system.
    QueryAutostart,
    /// Switch that on or off, and report it.
    SetAutostart { enabled: bool },
    Refuse { error: String },
}

/// The truth value under the name `enabled` in the payload of a command.
pub open spec fn enabled_in(payload: Option<ConfigValue>) -> Option<bool> {
    match config::member(payload, "enabled"@) {
        Some(ConfigValue::Flag(flag)) => Some(flag),
        _ => None,
    }
}

/// The action is what a command of this type, with this payload, asks for.
pub open spec fn is_asked(
    command_type: Seq<char>,
    payload: Option<ConfigValue>,
    action: CommandAction,
) -> bool {
    if command_type == "startup.query"@ {
        action is QueryAutostart
    } else if command_type == "startup.set"@ {
        match enabled_in(payload) {
            Some(flag) => action == (CommandAction::SetAutostart { enabled: flag }),
            None => action matches CommandAction::Refuse { error } && error@
                == "missing enabled"@,
        }
    } else {
        action matches CommandAction::Refuse { error } && error@ == "unknown command: "@
            + command_type
    }
}

/// A command to switch the start with the system asks for just the truth value that its payload
/// names, on for true and off for false, so that the two payloads ask for different things; and a
/// payload that names none is refused, whatever else it says.
pub proof fn a_start_with_the_system_is_switched_as_asked(
    payload: Option<ConfigValue>,
    action: CommandAction,
)
    requires
        is_asked("startup.set"@, payload, action),
    ensures
        forall|flag: bool|
            config::member(payload, "enabled"@) == Some(ConfigValue::Flag(flag)) ==> action == (
            CommandAction::SetAutostart { enabled: flag }),
        action matches CommandAction::SetAutostart { enabled } ==> config::member(
            payload,
            "enabled"@,
        ) == Some(ConfigValue::Flag(enabled)),
        action !is QueryAutostart,
        action is Refuse <==> !(config::member(payload, "enabled"@) matches Some(
            ConfigValue::Flag(_),
        )),
{
    lemma_command_names();
}

proof fn lemma_command_names()
    ensures
        "startup.query"@ != "startup.set"@,
{
    reveal_strlit("startup.query");
    reveal_strlit("startup.set");
    assert("startup.query"@.len() != "startup.set"@.len());
}

/// The start with the system is only ever changed by the command that sets it: the command that
/// asks for it changes nothing whatever its payload is, and any other is refused by its name.
pub proof fn only_the_set_command_changes_anything(
    command_type: Seq<char>,
    payload: Option<ConfigValue>,
    action: CommandAction,
)
    requires
        is_asked(command_type, payload, action),
    ensures
        action is SetAutostart ==> command_type == "startup.set"@,
        command_type == "startup.query"@ <==> action is QueryAutostart,
        command_type != "startup.query"@ && command_type != "startup.set"@ ==> (
        action matches CommandAction::Refuse { error } && text::contains(error@, command_type)),
{
    lemma_command_names();
    if command_type != "startup.query"@ && command_type != "startup.set"@ {
        text::lemma_contains_itself(command_type);
        text::lemma_contains_within(
            "unknown command: "@,
            command_type,
            Seq::empty(),
            command_type,
        );
        assert("unknown command: "@ + command_type + Seq::empty() =~= "unknown command: "@
            + command_type);
    }
}

/// What a command asks for.
pub fn handle_command(command_type: &str, payload: Option<&ConfigValue>) -> (r: CommandAction)
    ensures
        is_asked(command_type@, config::target(payload), r),
{
    if strings::same_text(command_type, "startup.query") {
        return CommandAction::QueryAutostart;
    }
    if strings::same_text(command_type, "startup.set") {
        return match config::find_member(payload, "enabled") {
            Some(ConfigValue::Flag(flag)) => CommandAction::SetAutostart { enabled: *flag },
            _ => CommandAction::Refuse { error: "missing enabled".to_owned() },
        };
    }
    let mut error: String = "unknown command: ".to_owned();
    error.append(command_type);
    CommandAction::Refuse { error }
}

/// The members of the report on a command that was carried out.
pub open spec fn success_members(id: Seq<char>, data: config::Meaning) -> Seq<
    (Seq<char>, json::FieldValue),
> {
    seq![
        ("id"@, json::FieldValue::Text(id)),
        ("success"@, json::FieldValue::Flag(true)),
        ("data"@, json::FieldValue::Json(data)),
    ]
}

/// The report on a command that was carried out, with what came of it.
pub fn success_report(id: &str, data: serde_json::Value) -> (r: String)
    ensures
        r@ == json::object_text(success_members(id@, config::content_of(data))),
        json::holds_all(r@, success_members(id@, config::content_of(data))),
{
    let mut fields: Vec<json::Field> = Vec::new();
    fields.push(json::text_field("id", id));
    fields.push(json::flag_field("success", true));
    fields.push(json::json_field("data", data));
    let ghost members = success_members(id@, config::content_of(data));
    assert(json::views(fields@) =~= members);
    let report = json::object(&fields);
    proof {
        reveal_strlit("id");
        reveal_strlit("success");
        reveal_strlit("data");
        assert forall|i: int, j: int| 0 <= i < j < members.len() implies (#[trigger] members[i]).0
            != (#[trigger] members[j]).0 by {
            assert(members[i].0.len() != members[j].0.len());
        }
        json::lemma_holds_all_within(Seq::empty(), report@, Seq::empty(), members);
        assert(Seq::empty() + report@ + Seq::empty() =~= report@);
    }
    report
}

/// The members of the report on a command that failed.
pub open spec fn error_members(id: Seq<char>, error: Seq<char>) -> Seq<(Seq<char>, json::FieldValue)> {
    seq![
        ("id"@, json::FieldValue::Text(id)),
        ("success"@, json::FieldValue::Flag(false)),
        ("error"@, json::FieldValue::Text(error)),
    ]
}

/// The report on a command that failed.
pub fn error_report(id: &str, error: &str) -> (r: String)
    ensures
        r@ == json::object_text(error_members(id@, error@)),
        json::holds_all(r@, error_members(id@, error@)),
{
    let mut fields: Vec<json::Field> = Vec::new();
    fields.push(json::text_field("id", id));
    fields.push(json::flag_field("success", false));
    fields.push(json::text_field("error", error));
    let ghost members = error_members(id@, error@);
    assert(json::views(fields@) =~= members);
    let report = json::object(&fields);
    proof {
        reveal_strlit("id");
        reveal_strlit("success");
        reveal_strlit("error");
        assert forall|i: int, j: int| 0 <= i < j < members.len() implies (#[trigger] members[i]).0
            != (#[trigger] members[j]).0 by {
            assert(members[i].0.len() != members[j].0.len());
        }
        json::lemma_holds_all_within(Seq::empty(), report@, Seq::empty(), members);
        assert(Seq::empty() + report@ + Seq::empty() =~= report@);
    }
    report
}

/// A text loses the white space around it and nothing else; one of nothing but white space counts as
/// missing.
pub proof fn a_text_loses_the_white_space_around_it(
    before: Seq<char>,
    content: Seq<char>,
    after: Seq<char>,
)
    requires
        forall|i: int| 0 <= i < before.len() ==> text::is_white_space(#[trigger] before[i]),
        forall|i: int| 0 <= i < after.len() ==> text::is_white_space(#[trigger] after[i]),
        content.len() > 0 ==> !text::is_white_space(content[0]) && !text::is_white_space(
            content.last(),
        ),
    ensures
        content.len() > 0 ==> cleaned(Some(before + content + after)) == Some(content),
        cleaned(Some(before)) is None,
        cleaned(None) is None,
{
    if content.len() > 0 {
        text::lemma_trim_around(before, content, after);
    }
    text::lemma_trim_start_is(before, before.len() as int);
    assert(before.skip(before.len() as int) =~= Seq::empty());
}

/// A notification shows its own title and its own content, where it has them; the instance that it
/// comes from is shown only in place of a missing content, and never in that of a title.
pub proof fn a_notification_shows_what_it_says(payload: NotifyPayload)
    ensures
        cleaned(text::view_of(payload.title)) matches Some(title) ==> notification_title(payload)
            == title,
        cleaned(text::view_of(payload.content)) matches Some(content) ==> notification_body(payload)
            == content,
        cleaned(text::view_of(payload.content)) is None ==> (cleaned(
            text::view_of(payload.instance),
        ) matches Some(instance) ==> notification_body(payload) == "Instance: "@ + instance),
        forall|other: NotifyPayload|
            other.title == payload.title ==> #[trigger] notification_title(other)
                == notification_title(payload),
        forall|other: NotifyPayload|
            other.content == payload.content && other.instance == payload.instance
                ==> #[trigger] notification_body(other) == notification_body(payload),
{
}

/// The streams are those of the backend whose page is shown: each address is that of its page with
/// the path behind it.
pub proof fn streams_belong_to_the_backend(port: u16, path: Seq<char>)
    ensures
        stream_url(port, "/"@ + path) == backend::url_text(port) + path,
        stream_url(port, "/"@) == backend::url_text(port),
{
    assert(stream_url(port, "/"@ + path) =~= backend::url_text(port) + path);
}

/// What an empty line ends is the event of the lines before it, one behind the other with line feeds
/// between them, and nothing of it is left for the next event. A line without the mark, such as a
/// comment, changes nothing.
pub proof fn an_empty_line_ends_an_event(lines: Seq<Seq<char>>, line: Seq<char>)
    ensures
        line.len() > 0 && without_line_end(line).len() == 0 ==> after_line(lines, line).0.len() == 0,
        lines.len() > 0 ==> after_line(lines, Seq::empty()) == (
            Seq::<Seq<char>>::empty(),
            Some(text::join(lines, "\n"@)),
        ),
        lines.len() == 0 ==> after_line(lines, Seq::empty()).1 is None,
        line.len() > 0 && line[0] == ':' ==> after_line(lines, line) == (lines, None::<Seq<char>>),
{
    reveal_strlit("data:");
    if line.len() > 0 && line[0] == ':' {
        lemma_line_end_keeps_start(line);
        let cut = without_line_end(line);
        if text::starts_with(cut, DATA_MARK@) {
            assert(cut.take(5)[0] == 'd');
        }
    }
}

proof fn lemma_line_end_keeps_start(line: Seq<char>)
    requires
        line.len() > 0,
        !is_line_end(line[0]),
    ensures
        without_line_end(line).len() > 0,
        without_line_end(line)[0] == line[0],
    decreases line.len(),
{
    if is_line_end(line.last()) {
        lemma_line_end_keeps_start(line.drop_last());
    }
}

/// White space between the mark and the data is not part of the data, and neither are the line ends
/// behind it.
pub proof fn data_starts_behind_the_white_space(
    lines: Seq<Seq<char>>,
    space: Seq<char>,
    data: Seq<char>,
)
    requires
        forall|i: int| 0 <= i < space.len() ==> text::is_white_space(#[trigger] space[i]),
        data.len() > 0,
        !text::is_white_space(data[0]),
        !is_line_end(data.last()),
    ensures
        after_line(lines, DATA_MARK@ + space + data) == (lines.push(data), None::<Seq<char>>),
        after_line(lines, DATA_MARK@ + space + data + seq!['\r', '\n']) == (
            lines.push(data),
            None::<Seq<char>>,
        ),
{
    reveal_strlit("data:");
    let content = DATA_MARK@ + space + data;
    assert(content.last() == data.last());
    assert(without_line_end(content) == content);
    let line = content + seq!['\r', '\n'];
    assert(line.drop_last() =~= content.push('\r'));
    assert(content.push('\r').drop_last() =~= content);
    reveal_with_fuel(without_line_end, 3);
    assert(content.take(5) =~= DATA_MARK@);
    let rest = content.skip(5);
    assert(rest =~= space + data);
    let n = space.len() as int;
    assert forall|i: int| 0 <= i < n implies text::is_white_space(#[trigger] rest[i]) by {
        assert(rest[i] == space[i]);
    }
    assert(rest[n] == data[0]);
    text::lemma_trim_start_is(rest, n);
    assert(rest.skip(n) =~= data);
}

/// A report names its command, and says of it that it succeeded or that it failed, with what came of
/// it or with the error.
pub proof fn a_report_says_how_its_command_ended(
    id: Seq<char>,
    data: config::Meaning,
    error: Seq<char>,
)
    ensures
        success_members(id, data).contains(("id"@, json::FieldValue::Text(id))),
        success_members(id, data).contains(("success"@, json::FieldValue::Flag(true))),
        success_members(id, data).contains(("data"@, json::FieldValue::Json(data))),
        error_members(id, error).contains(("id"@, json::FieldValue::Text(id))),
        error_members(id, error).contains(("success"@, json::FieldValue::Flag(false))),
        error_members(id, error).contains(("error"@, json::FieldValue::Text(error))),
        success_members(id, data).len() == 3,
        error_members(id, error).len() == 3,
{
    let (a, b) = (success_members(id, data), error_members(id, error));
    assert(a[0] == ("id"@, json::FieldValue::Text(id)));
    assert(a[1] == ("success"@, json::FieldValue::Flag(true)));
    assert(a[2] == ("data"@, json::FieldValue::Json(data)));
    assert(b[0] == ("id"@, json::FieldValue::Text(id)));
    assert(b[1] == ("success"@, json::FieldValue::Flag(false)));
    assert(b[2] == ("error"@, json::FieldValue::Text(error)));
}

} // verus!
