//! How the installation is made ready: the steps, the paths, the dependency setting and the
//! commands.

use vstd::prelude::*;

use crate::splash;
use crate::splash::{Shown, SplashUpdate};
use crate::strings;
use crate::text;

verus! {

/// The step of the setup that is to be done now.
#[derive(Clone, Copy, Debug, PartialEq, Eq, Structural)]
pub enum SetupStep {
    Start,
    /// Remove what a write that was cut short has left behind.
    CleanUp,
    /// Switch the installation of dependencies on in the configuration.
    EnableDependencies,
    UpdateRepository,
    InstallDependencies,
    Finished,
    /// The step before failed, and its error is the setup's.
    Failed,
}

/// The step that follows a step, once that has succeeded.
pub open spec fn step_after(step: SetupStep) -> SetupStep {
    match step {
        SetupStep::Start => SetupStep::CleanUp,
        SetupStep::CleanUp => SetupStep::EnableDependencies,
        SetupStep::EnableDependencies => SetupStep::UpdateRepository,
        SetupStep::UpdateRepository => SetupStep::InstallDependencies,
        SetupStep::InstallDependencies => SetupStep::Finished,
        SetupStep::Finished => SetupStep::Finished,
        SetupStep::Failed => SetupStep::Failed,
    }
}

/// The step that follows a step.
pub open spec fn next_step(step: SetupStep, success: bool) -> SetupStep {
    if success || step is Start || step is Finished {
        step_after(step)
    } else {
        SetupStep::Failed
    }
}

/// What the splash window shows when a step is entered.
pub open spec fn step_shown(step: SetupStep, tip: Seq<char>) -> Option<Shown> {
    match step {
        SetupStep::CleanUp => Some(
            Shown {
                subtitle: splash::with_tip("检查本地环境中..."@, "："@, tip),
                ..splash::loading("准备工作区"@, "正在清理缓存并检查本地环境。"@, 8)
            },
        ),
        SetupStep::UpdateRepository => Some(
            Shown {
                subtitle: splash::with_tip("同步中..."@, "："@, tip),
                ..splash::loading("正在更新"@, "正在获取最新补丁包"@, 18)
            },
        ),
        SetupStep::InstallDependencies => Some(
            Shown {
                subtitle: splash::with_tip("同步依赖包中..."@, "："@, tip),
                ..splash::loading(
                    "安装依赖库"@,
                    "正在验证 AzurPilot 运行所需的 Python 依赖包。"@,
                    64,
                )
            },
        ),
        SetupStep::Finished => Some(
            Shown {
                subtitle: splash::with_tip("启动服务中..."@, "："@, tip),
                ..splash::loading("完成启动"@, "本地界面已准备就绪，即将打开主窗口。"@, 94)
            },
        ),
        _ => None,
    }
}

/// The step of the setup that follows `step`, and what the splash window shows then, with the tip
/// `tip`.
pub fn setup_step_with_tip(step: SetupStep, success: bool, tip: &str) -> (r: (
    SetupStep,
    Option<SplashUpdate>,
))
    ensures
        r.0 == next_step(step, success),
        splash::shown(r.1) == if r.0 == step {
            None
        } else {
            step_shown(r.0, tip@)
        },
{
    match step {
        SetupStep::Start => (
            SetupStep::CleanUp,
            Some(
                SplashUpdate::loading(
                    "准备工作区",
                    "正在清理缓存并检查本地环境。",
                    8,
                ).with_subtitle(
                    splash::subtitle_with_tip("检查本地环境中...", "：", tip).as_str(),
                ),
            ),
        ),
        SetupStep::Finished => (SetupStep::Finished, None),
        SetupStep::Failed => (SetupStep::Failed, None),
        _ => if !success {
            (SetupStep::Failed, None)
        } else {
            match step {
                SetupStep::CleanUp => (SetupStep::EnableDependencies, None),
                SetupStep::EnableDependencies => (
                    SetupStep::UpdateRepository,
                    Some(
                        SplashUpdate::loading("正在更新", "正在获取最新补丁包", 18).with_subtitle(
                            splash::subtitle_with_tip("同步中...", "：", tip).as_str(),
                        ),
                    ),
                ),
                SetupStep::UpdateRepository => (
                    SetupStep::InstallDependencies,
                    Some(
                        SplashUpdate::loading(
                            "安装依赖库",
                            "正在验证 AzurPilot 运行所需的 Python 依赖包。",
                            64,
                        ).with_subtitle(
                            splash::subtitle_with_tip("同步依赖包中...", "：", tip).as_str(),
                        ),
                    ),
                ),
                _ => (
                    SetupStep::Finished,
                    Some(
                        SplashUpdate::loading(
                            "完成启动",
                            "本地界面已准备就绪，即将打开主窗口。",
                            94,
                        ).with_subtitle(
                            splash::subtitle_with_tip("启动服务中...", "：", tip).as_str(),
                        ),
                    ),
                ),
            }
        },
    }
}

/// The step of the setup that follows `step`, and what the splash window shows then, with the tip
/// of the present second.
pub fn setup_alas_repo(step: SetupStep, success: bool) -> (r: (SetupStep, Option<SplashUpdate>))
    ensures
        r.0 == next_step(step, success),
        exists|second: i64|
            splash::shown(r.1) == if r.0 == step {
                None
            } else {
                step_shown(r.0, #[trigger] splash::tip_at(second))
            },
{
    let tip: String = splash::get_tip();
    setup_step_with_tip(step, success, tip.as_str())
}

/// The step reached from the start when the steps end as `results` says.
pub open spec fn reached(results: Seq<bool>) -> SetupStep
    decreases results.len(),
{
    if results.len() == 0 {
        step_after(SetupStep::Start)
    } else {
        next_step(reached(results.drop_last()), results.last())
    }
}

/// The setup does its four steps in order, each only after those before it have succeeded, and
/// finishes just when all of them have.
pub proof fn setup_finishes_when_every_step_succeeds(results: Seq<bool>)
    ensures
        reached(results) is Finished <==> results.len() >= 4 && results[0] && results[1]
            && results[2] && results[3],
        reached(results) is Failed <==> exists|i: int|
            0 <= i < 4 && i < results.len() && !#[trigger] results[i],
        forall|i: int|
            0 <= i < results.len() && i < 4 && !(reached(results) is Failed)
                ==> #[trigger] results[i],
        results.len() == 0 ==> reached(results) is CleanUp,
        results.len() == 1 && !(reached(results) is Failed) ==> reached(results)
            is EnableDependencies,
        results.len() == 2 && !(reached(results) is Failed) ==> reached(results)
            is UpdateRepository,
        results.len() == 3 && !(reached(results) is Failed) ==> reached(results)
            is InstallDependencies,
    decreases results.len(),
{
    if results.len() > 0 {
        let front = results.drop_last();
        setup_finishes_when_every_step_succeeds(front);
        assert forall|i: int| 0 <= i < front.len() implies front[i] == results[i] by {}
        if reached(front) is Failed {
            let i = choose|i: int| 0 <= i < 4 && i < front.len() && !#[trigger] front[i];
            assert(!results[i]);
        } else if results.len() <= 4 && !results.last() {
            assert(!results[results.len() - 1]);
        }
    }
}

/// The line of the deploy configuration that switches the installation of dependencies on.
pub open spec fn wanted_setting() -> Seq<char> {
    "InstallDependencies: true"@
}

/// The line sets whether dependencies are installed.
pub open spec fn is_setting(line: Seq<char>) -> bool {
    text::starts_with(text::trim_start(line), "InstallDependencies:"@)
}

/// The line sets it otherwise than it is wanted.
pub open spec fn is_off(line: Seq<char>) -> bool {
    is_setting(line) && text::trim(line) != wanted_setting()
}

/// The line as it is wanted: a setting that is off becomes the wanted one behind the same
/// indentation, and every other line stays.
pub open spec fn switched_on(line: Seq<char>) -> Seq<char> {
    if is_off(line) {
        line.take(line.len() - text::trim_start(line).len()) + wanted_setting()
    } else {
        line
    }
}

/// The lines, each with a line feed behind it.
pub open spec fn with_line_feeds(lines: Seq<Seq<char>>) -> Seq<char>
    decreases lines.len(),
{
    if lines.len() == 0 {
        Seq::empty()
    } else {
        with_line_feeds(lines.drop_last()) + lines.last().push('\n')
    }
}

/// The deploy configuration with the installation of dependencies switched on.
pub open spec fn enabled(content: Seq<char>) -> Seq<char> {
    with_line_feeds(text::lines(content).map_values(|line: Seq<char>| switched_on(line)))
}

/// Some line of the configuration is a setting that is off.
pub open spec fn needs_change(content: Seq<char>) -> bool {
    exists|i: int| 0 <= i < text::lines(content).len() && is_off(#[trigger] text::lines(content)[i])
}

/// Some line of the configuration is a setting.
pub open spec fn has_setting(content: Seq<char>) -> bool {
    exists|i: int|
        0 <= i < text::lines(content).len() && is_setting(#[trigger] text::lines(content)[i])
}

/// What becomes of the deploy configuration.
#[derive(Clone, Debug)]
pub struct DependencyConfig {
    /// What is to be written, if anything.
    pub output: Option<String>,
    /// The configuration has the setting.
    pub found: bool,
}

/// Switches the installation of dependencies on in the deploy configuration `content`. It is
/// written again only if that changes it.
pub fn ensure_python_dependency_config(content: &str) -> (r: DependencyConfig)
    ensures
        r.found == has_setting(content@),
        r.output is Some <==> needs_change(content@),
        r.output matches Some(output) ==> output@ == enabled(content@),
{
    let lines = strings::lines_of(&strings::chars_of(content));
    let ghost all = text::lines(content@);
    let ghost wanted = all.map_values(|line: Seq<char>| switched_on(line));
    let setting = strings::chars_of("InstallDependencies: true");
    let mut output: Vec<char> = Vec::new();
    let mut changed: bool = false;
    let mut found: bool = false;
    for i in 0..lines.len()
        invariant
            all == strings::char_views(lines@),
            wanted == all.map_values(|line: Seq<char>| switched_on(line)),
            setting@ == wanted_setting(),
            output@ == with_line_feeds(wanted.take(i as int)),
            changed == exists|j: int| 0 <= j < i && is_off(#[trigger] all[j]),
            found == exists|j: int| 0 <= j < i && is_setting(#[trigger] all[j]),
    {
        let line: &Vec<char> = &lines[i];
        let ghost before = output@;
        assert(all[i as int] == line@);
        assert(wanted.take(i + 1).drop_last() =~= wanted.take(i as int));
        assert(wanted.take(i + 1).last() == switched_on(line@));
        let start = strings::trimmed_start(line);
        proof {
            text::lemma_trim_start(line@);
        }
        let mut off: bool = false;
        if strings::begins(&start, "InstallDependencies:") {
            found = true;
            assert(is_setting(all[i as int]));
            if !strings::same_chars(&strings::trimmed(line), &setting) {
                off = true;
                assert(is_off(all[i as int]));
            }
        }
        if off {
            changed = true;
            let indent = strings::range_of(line, 0, line.len() - start.len());
            assert(indent@ =~= line@.take(line@.len() - text::trim_start(line@).len()));
            strings::append_chars(&mut output, &indent);
            strings::append_chars(&mut output, &setting);
        } else {
            strings::append_chars(&mut output, line);
        }
        output.push('\n');
        assert(output@ =~= before + switched_on(line@).push('\n'));
    }
    assert(wanted.take(wanted.len() as int) =~= wanted);
    if changed {
        DependencyConfig { output: Some(strings::string_of(&output)), found }
    } else {
        DependencyConfig { output: None, found }
    }
}

/// No line of a text holds a line feed.
proof fn lemma_lines_hold_no_line_feed(s: Seq<char>)
    ensures
        forall|i: int|
            0 <= i < text::lines(s).len() ==> !(#[trigger] text::lines(s)[i]).contains('\n'),
    decreases s.len(),
{
    text::lemma_find_from(s, seq!['\n'], 0);
    if s.len() > 0 {
        match text::find(s, seq!['\n']) {
            Some(k) => {
                text::lemma_occurs_char(s, '\n', k);
                let first = text::strip_carriage_return(s.take(k));
                lemma_lines_hold_no_line_feed(s.skip(k + 1));
                assert forall|i: int| 0 <= i < text::lines(s).len() implies !(
                #[trigger] text::lines(s)[i]).contains('\n') by {
                    if i == 0 {
                        assert forall|j: int| 0 <= j < first.len() implies first[j] != '\n' by {
                            text::lemma_occurs_char(s, '\n', j);
                            assert(!text::occurs_at(s, seq!['\n'], j));
                        }
                    } else {
                        assert(text::lines(s)[i] == text::lines(s.skip(k + 1))[i - 1]);
                    }
                }
            },
            None => {
                assert forall|j: int| 0 <= j < s.len() implies s[j] != '\n' by {
                    text::lemma_occurs_char(s, '\n', j);
                    assert(!text::occurs_at(s, seq!['\n'], j));
                }
            },
        }
    }
}

/// Lines with line feeds behind them read back, but for a carriage return at their end.
proof fn lemma_lines_read_back(lines: Seq<Seq<char>>)
    requires
        forall|i: int| 0 <= i < lines.len() ==> !(#[trigger] lines[i]).contains('\n'),
    ensures
        text::lines(with_line_feeds(lines)) == lines.map_values(
            |line: Seq<char>| text::strip_carriage_return(line),
        ),
    decreases lines.len(),
{
    let strip = |line: Seq<char>| text::strip_carriage_return(line);
    if lines.len() == 0 {
        assert(text::lines(with_line_feeds(lines)) =~= lines.map_values(strip));
    } else {
        let first = lines[0];
        let rest = lines.skip(1);
        assert forall|i: int| 0 <= i < rest.len() implies !(#[trigger] rest[i]).contains('\n') by {
            assert(rest[i] == lines[i + 1]);
        }
        lemma_lines_read_back(rest);
        lemma_line_feeds_first(lines);
        let s = with_line_feeds(lines);
        let k = first.len() as int;
        assert(s[k] == '\n');
        text::lemma_occurs_char(s, '\n', k);
        assert forall|j: int| 0 <= j < k implies !#[trigger] text::occurs_at(s, seq!['\n'], j) by {
            text::lemma_occurs_char(s, '\n', j);
            assert(s[j] == first[j]);
            assert(first.contains(first[j]));
        }
        text::lemma_find_is(s, seq!['\n'], 0, k);
        assert(s.take(k) =~= first);
        assert(s.skip(k + 1) =~= with_line_feeds(rest));
        assert(seq![strip(first)] + rest.map_values(strip) =~= lines.map_values(strip));
    }
}

/// Lines with line feeds behind them start with the first line.
proof fn lemma_line_feeds_first(lines: Seq<Seq<char>>)
    requires
        lines.len() > 0,
    ensures
        with_line_feeds(lines) == lines[0].push('\n') + with_line_feeds(lines.skip(1)),
    decreases lines.len(),
{
    if lines.len() == 1 {
        reveal_with_fuel(with_line_feeds, 2);
        assert(lines.drop_last() =~= Seq::<Seq<char>>::empty());
        assert(lines.skip(1) =~= Seq::<Seq<char>>::empty());
        assert(with_line_feeds(lines) =~= lines[0].push('\n'));
        assert(with_line_feeds(lines) =~= lines[0].push('\n') + with_line_feeds(lines.skip(1)));
    } else {
        lemma_line_feeds_first(lines.drop_last());
        assert(lines.drop_last().skip(1) =~= lines.skip(1).drop_last());
        assert(lines.skip(1).last() == lines.last());
        assert(with_line_feeds(lines) =~= lines[0].push('\n') + with_line_feeds(lines.skip(1)));
    }
}

/// A carriage return at the end of a line changes nothing of what the line sets.
proof fn lemma_carriage_return(line: Seq<char>)
    ensures
        text::trim(text::strip_carriage_return(line)) == text::trim(line),
        is_setting(text::strip_carriage_return(line)) == is_setting(line),
{
    reveal_strlit("InstallDependencies:");
    if line.len() > 0 && line.last() == '\r' {
        let short = line.drop_last();
        text::lemma_trim_start(line);
        let start = text::trim_start(line);
        if start.len() == 0 {
            assert forall|i: int| 0 <= i < short.len() implies text::is_white_space(
                #[trigger] short[i],
            ) by {
                assert(text::is_white_space(line[i]));
            }
            text::lemma_trim_start_is(short, short.len() as int);
            assert(short.skip(short.len() as int) =~= start);
        } else {
            let n = line.len() - start.len();
            assert(start[0] == line[n]);
            assert(n < short.len());
            assert forall|i: int| 0 <= i < n implies text::is_white_space(#[trigger] short[i]) by {
                assert(text::is_white_space(line[i]));
            }
            text::lemma_trim_start_is(short, n);
            assert(short.skip(n) =~= start.drop_last());
            assert(start.last() == '\r');
            let word = "InstallDependencies:"@;
            if text::starts_with(start, word) {
                if start.len() == 20 {
                    assert(start.take(20)[19] == start.last());
                }
                assert(start.drop_last().take(20) =~= start.take(20));
            }
            if text::starts_with(start.drop_last(), word) {
                assert(start.drop_last().take(20) =~= start.take(20));
            }
        }
    }
}

/// A line that has been switched on is a setting just if it was one, and is not off.
proof fn lemma_switched_on(line: Seq<char>)
    ensures
        !is_off(switched_on(line)),
        is_setting(switched_on(line)) == is_setting(line),
        !line.contains('\n') ==> !switched_on(line).contains('\n'),
{
    reveal_strlit("InstallDependencies: true");
    reveal_strlit("InstallDependencies:");
    if is_off(line) {
        text::lemma_trim_start(line);
        let n = line.len() - text::trim_start(line).len();
        let wanted = wanted_setting();
        let new = line.take(n) + wanted;
        assert forall|i: int| 0 <= i < n implies text::is_white_space(#[trigger] new[i]) by {
            assert(text::is_white_space(line[i]));
        }
        assert(new[n] == wanted[0]);
        text::lemma_trim_start_is(new, n);
        assert(new.skip(n) =~= wanted);
        text::lemma_trim_end_is(wanted, wanted.len() as int);
        assert(wanted.take(wanted.len() as int) =~= wanted);
        assert(wanted.take(20) =~= "InstallDependencies:"@);
        if !line.contains('\n') {
            assert forall|i: int| 0 <= i < new.len() implies new[i] != '\n' by {
                if i < n {
                    assert(line.contains(line[i]));
                } else {
                    assert(new[i] == wanted[i - n]);
                }
            }
        }
    }
}

/// Whatever the configuration holds, once it has been written with the installation of
/// dependencies switched on it needs no further change, and has the setting just if it had it.
pub proof fn switching_on_twice_changes_nothing(content: Seq<char>)
    ensures
        !needs_change(enabled(content)),
        has_setting(enabled(content)) == has_setting(content),
{
    let lines = text::lines(content);
    let wanted = lines.map_values(|line: Seq<char>| switched_on(line));
    lemma_lines_hold_no_line_feed(content);
    assert forall|i: int| 0 <= i < wanted.len() implies !(#[trigger] wanted[i]).contains('\n') by {
        lemma_switched_on(lines[i]);
        assert(wanted[i] == switched_on(lines[i]));
    }
    lemma_lines_read_back(wanted);
    let again = text::lines(enabled(content));
    assert(again.len() == lines.len());
    assert forall|i: int| 0 <= i < again.len() implies !is_off(#[trigger] again[i]) && is_setting(
        again[i],
    ) == is_setting(lines[i]) by {
        lemma_switched_on(lines[i]);
        assert(wanted[i] == switched_on(lines[i]));
        lemma_carriage_return(wanted[i]);
        assert(again[i] == text::strip_carriage_return(wanted[i]));
    }
    if has_setting(content) {
        let i = choose|i: int| 0 <= i < lines.len() && is_setting(#[trigger] lines[i]);
        assert(is_setting(again[i]));
    }
    if has_setting(enabled(content)) {
        let i = choose|i: int| 0 <= i < again.len() && is_setting(#[trigger] again[i]);
        assert(is_setting(lines[i]));
    }
}

/// Nothing but white space.
pub open spec fn is_indent(s: Seq<char>) -> bool {
    forall|i: int| 0 <= i < s.len() ==> text::is_white_space(#[trigger] s[i])
}

proof fn lemma_enabled_lines(content: Seq<char>)
    ensures
        text::lines(enabled(content)).len() == text::lines(content).len(),
        forall|i: int|
            0 <= i < text::lines(content).len() ==> #[trigger] text::lines(enabled(content))[i]
                == text::strip_carriage_return(switched_on(text::lines(content)[i])),
{
    let lines = text::lines(content);
    let wanted = lines.map_values(|line: Seq<char>| switched_on(line));
    lemma_lines_hold_no_line_feed(content);
    assert forall|i: int| 0 <= i < wanted.len() implies !(#[trigger] wanted[i]).contains('\n') by {
        lemma_switched_on(lines[i]);
        assert(wanted[i] == switched_on(lines[i]));
    }
    lemma_lines_read_back(wanted);
    assert forall|i: int| 0 <= i < lines.len() implies #[trigger] text::lines(enabled(content))[i]
        == text::strip_carriage_return(switched_on(lines[i])) by {
        assert(wanted[i] == switched_on(lines[i]));
    }
}

proof fn lemma_setting_line(indent: Seq<char>, value: Seq<char>)
    requires
        is_indent(indent),
    ensures
        is_setting(indent + "InstallDependencies:"@ + value),
        text::trim_start(indent + "InstallDependencies:"@ + value) == "InstallDependencies:"@ + value,
{
    reveal_strlit("InstallDependencies:");
    let word = "InstallDependencies:"@;
    let line = indent + word + value;
    let n = indent.len() as int;
    assert forall|i: int| 0 <= i < n implies text::is_white_space(#[trigger] line[i]) by {
        assert(line[i] == indent[i]);
    }
    assert(line[n] == word[0]);
    text::lemma_trim_start_is(line, n);
    assert(line.skip(n) =~= word + value);
    assert((word + value).take(word.len() as int) =~= word);
}

/// A line that sets whether dependencies are installed, behind any indentation, keeps that
/// indentation and is set to true; the file then has to be written. One that says so already stays
/// as it is.
pub proof fn a_setting_keeps_its_indentation(
    content: Seq<char>,
    i: int,
    indent: Seq<char>,
    value: Seq<char>,
)
    requires
        0 <= i < text::lines(content).len(),
        is_indent(indent),
        text::lines(content)[i] == indent + "InstallDependencies:"@ + value,
    ensures
        has_setting(content),
        text::trim_end(value) != " true"@ ==> needs_change(content) && text::lines(
            enabled(content),
        )[i] == indent + "InstallDependencies: true"@,
        text::trim_end(value) == " true"@ ==> text::starts_with(
            text::lines(content)[i],
            text::lines(enabled(content))[i],
        ) && text::starts_with(
            text::lines(enabled(content))[i],
            indent + "InstallDependencies: true"@,
        ),
{
    reveal_strlit("InstallDependencies:");
    reveal_strlit("InstallDependencies: true");
    reveal_strlit(" true");
    let word = "InstallDependencies:"@;
    let line = text::lines(content)[i];
    lemma_enabled_lines(content);
    lemma_setting_line(indent, value);
    assert(is_setting(text::lines(content)[i]));
    let start = text::trim_start(line);
    assert(start == word + value);
    text::lemma_trim_start(line);
    assert(line.take(line.len() - start.len()) =~= indent);
    let new = indent + wanted_setting();
    assert(new.last() == 'e');
    text::lemma_trim_end(value);
    text::lemma_trim_end(start);
    let kept = text::trim_end(value);
    let k = kept.len() as int;
    let w = word.len() as int;
    assert forall|j: int| w + k <= j < start.len() implies text::is_white_space(
        #[trigger] start[j],
    ) by {
        assert(start[j] == value[j - w]);
    }
    if k > 0 {
        assert(start[w + k - 1] == value[k - 1]);
        assert(kept.last() == value[k - 1]);
    } else {
        assert(start[w - 1] == ':');
    }
    text::lemma_trim_end_is(start, w + k);
    assert(start.take(w + k) =~= word + kept);
    assert(word + " true"@ =~= wanted_setting());
    if kept == " true"@ {
        assert(text::trim(line) == wanted_setting());
        assert(line.take(new.len() as int) =~= new);
        let after = text::strip_carriage_return(line);
        assert(line.take(after.len() as int) =~= after);
        if after.len() < line.len() {
            assert(line[line.len() - 1] == '\r');
        }
        assert(after.take(new.len() as int) =~= new);
    } else {
        if word + kept == wanted_setting() {
            assert(kept =~= (word + kept).skip(w));
            assert(" true"@ =~= wanted_setting().skip(w));
        }
        assert(is_off(text::lines(content)[i]));
        assert(switched_on(line) == new);
    }
}

/// Switching the installation on keeps the number of lines, and changes no line but those that set
/// it: each of them keeps its text, whatever it is.
pub proof fn no_other_line_is_changed(content: Seq<char>, i: int)
    requires
        0 <= i < text::lines(content).len(),
        !text::starts_with(
            text::trim_start(text::lines(content)[i]),
            "InstallDependencies:"@,
        ),
    ensures
        text::lines(enabled(content)).len() == text::lines(content).len(),
        !text::lines(content)[i].contains('\r') ==> text::lines(enabled(content))[i]
            == text::lines(content)[i],
        text::trim(text::lines(enabled(content))[i]) == text::trim(text::lines(content)[i]),
        text::starts_with(text::lines(content)[i], text::lines(enabled(content))[i]),
{
    lemma_enabled_lines(content);
    let line = text::lines(content)[i];
    assert(switched_on(line) == line);
    lemma_carriage_return(line);
    let new = text::lines(enabled(content))[i];
    if line.len() > 0 && line.last() == '\r' {
        assert(line.contains(line.last()));
    }
    assert(line.take(new.len() as int) =~= new);
}

/// The file is written again only where a line of it is changed, and is left alone where no line
/// sets anything.
pub proof fn a_file_without_the_setting_is_left_alone(content: Seq<char>)
    requires
        forall|i: int|
            0 <= i < text::lines(content).len() ==> !text::starts_with(
                text::trim_start(#[trigger] text::lines(content)[i]),
                "InstallDependencies:"@,
            ),
    ensures
        !needs_change(content),
        !has_setting(content),
{
}

/// The line of a requirements file asks for a package of a fixed version.
pub open spec fn is_pinned(line: Seq<char>) -> bool {
    let entry = text::trim(line);
    entry.len() > 0 && entry[0] != '#' && text::contains(entry, "=="@)
}

/// The number of packages of a fixed version that the lines ask for.
pub open spec fn pinned_in(lines: Seq<Seq<char>>) -> nat {
    lines.filter(|line: Seq<char>| is_pinned(line)).len()
}

/// The number of packages of a fixed version that the requirements file asks for; none where it
/// cannot be read.
pub fn count_required_packages(content: Option<&str>) -> (r: usize)
    ensures
        r as nat == match content {
            Some(c) => pinned_in(text::lines(c@)),
            None => 0,
        },
{
    match content {
        Some(c) => {
            let lines = strings::lines_of(&strings::chars_of(c));
            let ghost all = text::lines(c@);
            let ghost pred = |line: Seq<char>| is_pinned(line);
            let mut count: usize = 0;
            assert(all.take(0).filter(pred).len() == 0) by {
                reveal(Seq::filter);
            }
            for i in 0..lines.len()
                invariant
                    all == strings::char_views(lines@),
                    pred == (|line: Seq<char>| is_pinned(line)),
                    count == all.take(i as int).filter(pred).len(),
                    count <= i,
            {
                proof {
                    reveal(Seq::filter);
                    assert(all.take(i + 1).drop_last() =~= all.take(i as int));
                    assert(all.take(i + 1).last() == lines@[i as int]@);
                }
                let entry = strings::trimmed(&lines[i]);
                if entry.len() > 0 && entry[0] != '#' && strings::has(&entry, "==") {
                    count = count + 1;
                }
            }
            assert(all.take(all.len() as int) =~= all);
            count
        },
        None => 0,
    }
}

/// The arguments of the Python interpreter that install the dependencies.
pub open spec fn install_arguments(requirements: Seq<char>, mirror: Option<Seq<char>>) -> Seq<
    Seq<char>,
> {
    seq![
        "-m"@,
        "uv"@,
        "pip"@,
        "install"@,
        "--break-system-packages"@,
        "-r"@,
        requirements,
    ] + match mirror {
        Some(url) => seq!["--index-url"@, url],
        None => Seq::empty(),
    }
}

/// The arguments of the Python interpreter that install the dependencies.
pub fn uv_pip_install(requirements: &str, mirror: Option<&str>) -> (r: Vec<String>)
    ensures
        text::views(r@) == install_arguments(
            requirements@,
            match mirror {
                Some(url) => Some(url@),
                None => None,
            },
        ),
{
    let mut args: Vec<String> = Vec::new();
    args.push("-m".to_owned());
    args.push("uv".to_owned());
    args.push("pip".to_owned());
    args.push("install".to_owned());
    args.push("--break-system-packages".to_owned());
    args.push("-r".to_owned());
    args.push(requirements.to_owned());
    if let Some(url) = mirror {
        args.push("--index-url".to_owned());
        args.push(url.to_owned());
    }
    assert(text::views(args@) =~= install_arguments(
        requirements@,
        match mirror {
            Some(url) => Some(url@),
            None => None,
        },
    ));
    args
}

/// The variables that the installation of the dependencies runs with.
pub const UV_ENVIRONMENT: [(&'static str, &'static str); 2] = [
    ("UV_SYSTEM_PYTHON", "1"),
    ("UV_NO_PROGRESS", "1"),
];

/// The Python program that updates the repository: it asks git for the progress of a fetch.
pub const GIT_UPDATE_SCRIPT: &'static str = "
import deploy.git
def decorate_execute(fn):
    def new_fn(*args, **kwargs):
        if len(args) >= 1 and ' fetch ' in args[0] and '--progress' not in args[0]:
            args = (args[0].replace(' fetch ', ' fetch --progress '),) + args[1:]
        return fn(*args, **kwargs)
    return new_fn
gm = deploy.git.GitManager()
gm.execute = decorate_execute(gm.execute)
gm.git_install()
";

/// The Python program that removes what a write that was cut short has left behind.
pub const CLEANUP_SCRIPT: &'static str =
    "import sys; from deploy.atomic import atomic_failure_cleanup; atomic_failure_cleanup(sys.argv[1])";

/// A directory below the installation that is put in front of a search path.
#[derive(Clone, Debug)]
pub struct SearchPath {
    pub variable: &'static str,
    /// The directory's path below the installation, name by name.
    pub below: Vec<&'static str>,
}

/// The variable and the path of a directory.
pub open spec fn search_path_views(paths: Seq<SearchPath>) -> Seq<(Seq<char>, Seq<Seq<char>>)> {
    paths.map_values(
        |p: SearchPath| (p.variable@, p.below@.map_values(|name: &'static str| name@)),
    )
}

fn search_path(variable: &'static str, a: &'static str, b: &'static str, c: &'static str) -> (r:
    SearchPath)
    ensures
        r.variable@ == variable@,
        r.below@ == if c@.len() > 0 {
            seq![a, b, c]
        } else if b@.len() > 0 {
            seq![a, b]
        } else {
            seq![a]
        },
{
    let mut below: Vec<&'static str> = Vec::new();
    below.push(a);
    if !c.is_empty() {
        below.push(b);
        below.push(c);
    } else if !b.is_empty() {
        below.push(b);
    }
    SearchPath { variable, below }
}

/// The directories that are put in front of the search paths, one after the other: the last one
/// for a variable ends up in front.
pub fn setup_environment(windows: bool) -> (r: Vec<SearchPath>)
    ensures
        search_path_views(r@) == if windows {
            seq![
                ("PATH"@, seq!["toolkit"@, "git"@, "cmd"@]),
                ("PATH"@, seq!["toolkit"@, "Scripts"@]),
                ("PATH"@, seq!["toolkit"@]),
            ]
        } else {
            seq![
                ("PATH"@, seq!["toolkit"@, "libexec"@, "git-core"@]),
                ("PATH"@, seq!["toolkit"@, "bin"@]),
                ("LD_LIBRARY_PATH"@, seq!["toolkit"@, "lib"@]),
            ]
        },
{
    let mut out: Vec<SearchPath> = Vec::new();
    proof {
        reveal_strlit("cmd");
        reveal_strlit("git-core");
        reveal_strlit("Scripts");
        reveal_strlit("bin");
        reveal_strlit("lib");
        reveal_strlit("");
    }
    if windows {
        out.push(search_path("PATH", "toolkit", "git", "cmd"));
        out.push(search_path("PATH", "toolkit", "Scripts", ""));
        out.push(search_path("PATH", "toolkit", "", ""));
        let ghost views = search_path_views(out@);
        assert(views[0].1 =~= seq!["toolkit"@, "git"@, "cmd"@]);
        assert(views[1].1 =~= seq!["toolkit"@, "Scripts"@]);
        assert(views[2].1 =~= seq!["toolkit"@]);
        assert(views =~= seq![
            ("PATH"@, seq!["toolkit"@, "git"@, "cmd"@]),
            ("PATH"@, seq!["toolkit"@, "Scripts"@]),
            ("PATH"@, seq!["toolkit"@]),
        ]);
    } else {
        out.push(search_path("PATH", "toolkit", "libexec", "git-core"));
        out.push(search_path("PATH", "toolkit", "bin", ""));
        out.push(search_path("LD_LIBRARY_PATH", "toolkit", "lib", ""));
        let ghost views = search_path_views(out@);
        assert(views[0].1 =~= seq!["toolkit"@, "libexec"@, "git-core"@]);
        assert(views[1].1 =~= seq!["toolkit"@, "bin"@]);
        assert(views[2].1 =~= seq!["toolkit"@, "lib"@]);
        assert(views =~= seq![
            ("PATH"@, seq!["toolkit"@, "libexec"@, "git-core"@]),
            ("PATH"@, seq!["toolkit"@, "bin"@]),
            ("LD_LIBRARY_PATH"@, seq!["toolkit"@, "lib"@]),
        ]);
    }
    out
}

/// Where the installation is.
#[derive(Clone, Copy, Debug, PartialEq, Eq, Structural)]
pub enum RepoDir {
    /// In the folder of the launcher.
    LauncherFolder,
    /// In `AzurLaneAutoScript` beside the folder of the launcher.
    BesideLauncherFolder,
    NotFound,
}

/// Where the installation is, where the launcher's folder has this name.
pub open spec fn repo_dir(
    installer_here: bool,
    macos: bool,
    folder_name: Option<Seq<char>>,
    repo_beside: bool,
) -> RepoDir {
    if installer_here {
        RepoDir::LauncherFolder
    } else if macos && repo_beside && folder_name == Some("MacOS"@) {
        RepoDir::BesideLauncherFolder
    } else {
        RepoDir::NotFound
    }
}

/// An installer in the launcher's folder always decides. The place beside it is taken only inside an
/// application of macOS, where the installation is there; elsewhere there is no other place.
pub proof fn the_launcher_folder_comes_first(
    installer_here: bool,
    macos: bool,
    folder_name: Option<Seq<char>>,
    repo_beside: bool,
)
    ensures
        installer_here <==> repo_dir(installer_here, macos, folder_name, repo_beside)
            is LauncherFolder,
        repo_dir(installer_here, macos, folder_name, repo_beside) is BesideLauncherFolder ==> macos
            && repo_beside && folder_name == Some("MacOS"@),
        !installer_here && macos && repo_beside && folder_name == Some("MacOS"@) ==> repo_dir(
            installer_here,
            macos,
            folder_name,
            repo_beside,
        ) is BesideLauncherFolder,
        !installer_here && !macos ==> repo_dir(installer_here, macos, folder_name, repo_beside)
            is NotFound,
{
}

/// Where the installation is: in the launcher's folder, if the installer is there; on macOS also
/// beside a folder `MacOS`, if it is there.
pub fn alas_repo_dir(
    installer_here: bool,
    macos: bool,
    folder_name: Option<&str>,
    repo_beside: bool,
) -> (r: RepoDir)
    ensures
        r == repo_dir(
            installer_here,
            macos,
            match folder_name {
                Some(name) => Some(name@),
                None => None,
            },
            repo_beside,
        ),
{
    if installer_here {
        return RepoDir::LauncherFolder;
    }
    match folder_name {
        Some(name) => if macos && repo_beside && strings::same_text(name, "MacOS") {
            RepoDir::BesideLauncherFolder
        } else {
            RepoDir::NotFound
        },
        None => RepoDir::NotFound,
    }
}

/// The file that is written ends with a line feed, where it has a line at all.
pub proof fn a_file_written_ends_with_a_line_feed(content: Seq<char>)
    requires
        text::lines(content).len() > 0,
    ensures
        enabled(content).len() > 0,
        enabled(content).last() == '\n',
{
}

/// Lines are counted each by itself: what two files ask for together is the sum of what each asks
/// for.
pub proof fn packages_add_up(first: Seq<Seq<char>>, second: Seq<Seq<char>>)
    ensures
        pinned_in(first + second) == pinned_in(first) + pinned_in(second),
{
    let pred = |line: Seq<char>| is_pinned(line);
    Seq::filter_distributes_over_add(first, second, pred);
}

/// A line counts, once, where behind any white space stands a name, two equals signs and a version;
/// a comment does not, whatever it says, and neither does a line without two equals signs.
pub proof fn a_line_with_a_version_counts(indent: Seq<char>, name: Seq<char>, version: Seq<char>)
    requires
        is_indent(indent),
        name.len() > 0,
        !text::is_white_space(name[0]),
        version.len() > 0,
        !text::is_white_space(version.last()),
    ensures
        name[0] != '#' ==> pinned_in(seq![indent + name + "=="@ + version]) == 1,
        name[0] == '#' ==> pinned_in(seq![indent + name + "=="@ + version]) == 0,
        !text::contains(indent + name, "=="@) ==> pinned_in(seq![indent + name]) == 0,
{
    reveal_strlit("==");
    let entry = name + "=="@ + version;
    let line = indent + name + "=="@ + version;
    assert(line =~= indent + entry + Seq::empty());
    assert(entry[0] == name[0]);
    assert(entry.last() == version.last());
    text::lemma_trim_around(indent, entry, Seq::empty());
    text::lemma_contains_itself("=="@);
    text::lemma_contains_within(name, "=="@, version, "=="@);
    lemma_one_line(line);
    lemma_one_line(indent + name);
    if text::contains(text::trim(indent + name), "=="@) {
        let s = indent + name;
        text::lemma_trim_start(s);
        let start = text::trim_start(s);
        text::lemma_trim_end(start);
        let kept = text::trim_end(start);
        let n = s.len() - start.len();
        assert(s =~= s.take(n) + kept + start.skip(kept.len() as int));
        text::lemma_contains_within(s.take(n), kept, start.skip(kept.len() as int), "=="@);
    }
}

proof fn lemma_one_line(line: Seq<char>)
    ensures
        pinned_in(seq![line]) == if is_pinned(line) {
            1nat
        } else {
            0nat
        },
{
    let pred = |line: Seq<char>| is_pinned(line);
    reveal_with_fuel(Seq::filter, 2);
    assert(seq![line].drop_last() =~= Seq::<Seq<char>>::empty());
    assert(seq![line].last() == line);
}

/// The installer is given the requirements file behind its switch, and the package index behind
/// its own switch just where there is one.
pub proof fn the_installer_is_told_what_to_install(
    requirements: Seq<char>,
    mirror: Option<Seq<char>>,
)
    ensures
        ({
            let args = install_arguments(requirements, mirror);
            &&& args.take(4) == seq!["-m"@, "uv"@, "pip"@, "install"@]
            &&& exists|i: int|
                4 <= i < args.len() - 1 && #[trigger] args[i] == "-r"@ && args[i + 1]
                    == requirements
            &&& mirror matches Some(url) ==> args.len() == 9 && args[7] == "--index-url"@ && args[8]
                == url
            &&& mirror is None ==> args.len() == 7 && args.last() == requirements
        }),
{
    let args = install_arguments(requirements, mirror);
    assert(args.take(4) =~= seq!["-m"@, "uv"@, "pip"@, "install"@]);
    assert(args[5] == "-r"@ && args[6] == requirements);
}

/// Each step that the splash window shows moves its bar on, and none of them is shown as an error.
pub proof fn the_bar_moves_on_with_the_steps(tip: Seq<char>)
    ensures
        step_shown(SetupStep::CleanUp, tip) is Some,
        step_shown(SetupStep::UpdateRepository, tip) is Some,
        step_shown(SetupStep::InstallDependencies, tip) is Some,
        step_shown(SetupStep::Finished, tip) is Some,
        0 < step_shown(SetupStep::CleanUp, tip)->0.progress < step_shown(
            SetupStep::UpdateRepository,
            tip,
        )->0.progress < step_shown(SetupStep::InstallDependencies, tip)->0.progress < step_shown(
            SetupStep::Finished,
            tip,
        )->0.progress < 100,
        forall|step: SetupStep|
            (#[trigger] step_shown(step, tip)) is Some ==> !step_shown(step, tip)->0.is_error
                && tip.is_suffix_of(step_shown(step, tip)->0.subtitle),
        step_shown(SetupStep::Failed, tip) is None,
{
    assert forall|step: SetupStep| (#[trigger] step_shown(step, tip)) is Some implies !step_shown(
        step,
        tip,
    )->0.is_error && tip.is_suffix_of(step_shown(step, tip)->0.subtitle) by {
        let shown = step_shown(step, tip)->0;
        assert(shown.subtitle.skip(shown.subtitle.len() - tip.len()) =~= tip);
    }
}

} // verus!
