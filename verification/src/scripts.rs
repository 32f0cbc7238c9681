//! The two update scripts: what the splash window shows while they run, what is kept of their
//! output, and how often they are tried.

use vstd::prelude::*;

use crate::percentage;
use crate::splash;
use crate::splash::{Shown, SplashUpdate};
use crate::strings;
use crate::text;

verus! {

/// The script that runs.
#[derive(Clone, Copy, Debug, PartialEq, Eq, Structural)]
pub enum ScriptPhase {
    Git,
    Dependencies { total_packages: usize },
}

/// How often a script that failed is run again.
pub const MAX_UPDATE_RETRIES: usize = 20;

/// How long the launcher waits before it runs a script again, in milliseconds.
pub const RETRY_DELAY_MS: u64 = 1000;

/// The packages whose download has been seen: a set of names.
#[derive(Debug)]
pub struct SeenPackages {
    pub names: Vec<String>,
}

impl SeenPackages {
    /// No name occurs twice.
    pub open spec fn well_formed(self) -> bool {
        text::views(self.names@).no_duplicates()
    }

    /// No package seen yet.
    pub fn new() -> (r: SeenPackages)
        ensures
            r.well_formed(),
            r@ == Set::<Seq<char>>::empty(),
    {
        let r = SeenPackages { names: Vec::new() };
        assert(r@ =~= Set::<Seq<char>>::empty());
        r
    }

    /// Adds a name.
    pub fn insert(&mut self, name: String)
        requires
            old(self).well_formed(),
        ensures
            final(self).well_formed(),
            final(self)@ == old(self)@.insert(name@),
    {
        let ghost before = text::views(self.names@);
        for i in 0..self.names.len()
            invariant
                before == text::views(self.names@),
                before == text::views(old(self).names@),
                before.no_duplicates(),
                forall|j: int| 0 <= j < i ==> #[trigger] before[j] != name@,
        {
            if self.names[i] == name {
                proof {
                    assert(before[i as int] == name@);
                    assert(before.to_set().insert(name@) =~= before.to_set());
                }
                return;
            }
            assert(before[i as int] != name@);
        }
        self.names.push(name);
        proof {
            let after = text::views(self.names@);
            assert(after =~= before.push(name@));
            assert(after.to_set() =~= before.to_set().insert(name@)) by {
                assert forall|x: Seq<char>| before.to_set().insert(name@).contains(x) implies
                    after.to_set().contains(x) by {
                    if x == name@ {
                        assert(after[before.len() as int] == x);
                    } else {
                        let k = choose|k: int| 0 <= k < before.len() && before[k] == x;
                        assert(after[k] == x);
                    }
                }
            }
        }
    }

    /// The number of packages seen.
    pub fn len(&self) -> (r: usize)
        requires
            self.well_formed(),
        ensures
            r == self@.len(),
    {
        proof {
            text::views(self.names@).unique_seq_to_set();
        }
        self.names.len()
    }
}

impl View for SeenPackages {
    type V = Set<Seq<char>>;

    open spec fn view(&self) -> Set<Seq<char>> {
        text::views(self.names@).to_set()
    }
}

/// The progress while packages are downloaded: from 72 to 82 with the share of the `total` packages
/// that have been seen, and 77 where their number is not known.
pub open spec fn download_progress(downloaded: int, total: int) -> int {
    if total == 0 {
        77
    } else if downloaded < total {
        72 + downloaded * 10 / total
    } else {
        82
    }
}

/// The bar stays between 72 and 82 while packages are downloaded. It never moves back as more of
/// them are seen, and stands at 82 once all have been.
pub proof fn download_progress_stays_in_its_range(fewer: int, more: int, total: int)
    requires
        0 <= fewer <= more,
        0 <= total,
    ensures
        72 <= download_progress(fewer, total) <= download_progress(more, total) <= 82,
        0 < total <= more ==> download_progress(more, total) == 82,
{
    if fewer < total {
        lemma_tenths(fewer, total);
    }
    if more < total {
        lemma_tenths(more, total);
        assert(fewer * 10 / total <= more * 10 / total) by (nonlinear_arith)
            requires
                0 <= fewer <= more,
                0 < total,
        ;
    }
}

proof fn lemma_tenths(seen: int, total: int)
    requires
        0 <= seen < total,
    ensures
        0 <= seen * 10 / total < 10,
{
    assert(0 <= seen * 10 / total < 10) by (nonlinear_arith)
        requires
            0 <= seen < total,
    ;
}

/// The progress while packages are downloaded.
pub fn uv_download_progress(downloaded: usize, total: usize) -> (r: u8)
    ensures
        r == download_progress(downloaded as int, total as int),
        72 <= r <= 82,
{
    if total == 0 {
        return 77;
    }
    if downloaded >= total {
        return 82;
    }
    proof {
        lemma_tenths(downloaded as int, total as int);
    }
    let tenths: u128 = (downloaded as u128) * 10 / (total as u128);
    72 + tenths as u8
}

/// The package that a `Downloading` line of uv names: what stands before `==`, ` @ ` or ` (`,
/// whichever of these the line has, taken in this order.
pub open spec fn uv_package_name(line: Seq<char>) -> Option<Seq<char>> {
    match text::strip_prefix(line, "Downloading "@) {
        Some(rest) => {
            let name = if text::contains(rest, "=="@) {
                text::before(rest, "=="@)
            } else if text::contains(rest, " @ "@) {
                text::before(rest, " @ "@)
            } else {
                text::before(rest, " ("@)
            };
            let tidy = text::ascii_lower(text::trim(name));
            if tidy.len() == 0 {
                None
            } else {
                Some(tidy)
            }
        },
        None => None,
    }
}

/// The package that a `Downloading` line of uv names.
pub fn extract_uv_package_name(line: &str) -> (r: Option<String>)
    ensures
        text::view_of(r) == uv_package_name(line@),
{
    let chars = strings::chars_of(line);
    match strings::without_prefix(&chars, "Downloading ") {
        Some(rest) => {
            let name: Vec<char> = if strings::has(&rest, "==") {
                strings::cut_before(&rest, "==")
            } else if strings::has(&rest, " @ ") {
                strings::cut_before(&rest, " @ ")
            } else {
                strings::cut_before(&rest, " (")
            };
            let tidy = strings::lowered(&strings::trimmed(&name));
            if tidy.len() == 0 {
                None
            } else {
                Some(strings::string_of(&tidy))
            }
        },
        None => None,
    }
}

/// A line that uv writes to its error output although nothing is wrong.
pub open spec fn is_progress_line(line: Seq<char>) -> bool {
    ||| text::starts_with(line, "Resolved "@)
    ||| text::starts_with(line, "Downloading "@)
    ||| text::starts_with(line, "Downloaded "@)
    ||| text::starts_with(line, "Prepared "@)
    ||| text::starts_with(line, "Installed "@)
    ||| text::starts_with(line, "Audited "@)
    ||| text::starts_with(line, "warning: "@)
    ||| text::starts_with(line, "hint: "@)
    ||| text::starts_with(line, "note: "@)
}

/// Whether uv writes the line to its error output although nothing is wrong.
pub fn is_uv_progress_line(line: &str) -> (r: bool)
    ensures
        r == is_progress_line(line@),
{
    let chars = strings::chars_of(line);
    strings::begins(&chars, "Resolved ") || strings::begins(&chars, "Downloading ")
        || strings::begins(&chars, "Downloaded ") || strings::begins(&chars, "Prepared ")
        || strings::begins(&chars, "Installed ") || strings::begins(&chars, "Audited ")
        || strings::begins(&chars, "warning: ") || strings::begins(&chars, "hint: ")
        || strings::begins(&chars, "note: ")
}

/// The subtitle while the repository is brought up to date.
pub open spec fn git_subtitle(tip: Seq<char>) -> Seq<char> {
    splash::with_tip("同步仓库中..."@, "："@, tip)
}

/// The subtitle while the dependencies are brought up to date.
pub open spec fn dependency_subtitle(tip: Seq<char>) -> Seq<char> {
    splash::with_tip("同步依赖包中..."@, "："@, tip)
}

/// An update of the git phase.
pub open spec fn git_shown(detail: Seq<char>, progress: int, tip: Seq<char>) -> Shown {
    Shown {
        subtitle: git_subtitle(tip),
        ..splash::loading("正在更新 AzurPilot"@, detail, progress)
    }
}

/// An update of the dependency phase.
pub open spec fn dependency_shown(detail: Seq<char>, progress: int, tip: Seq<char>) -> Shown {
    Shown {
        subtitle: dependency_subtitle(tip),
        ..splash::loading("安装依赖库"@, detail, progress)
    }
}

/// What a line of git output shows: a heading without its rules, or the progress of a transfer
/// between 18 and 60 for the percentage in it.
pub open spec fn git_update(line: Seq<char>, tip: Seq<char>) -> Option<Shown> {
    if text::contains(line, "====="@) {
        Some(git_shown(text::trim(text::replace(line, "="@, " "@)), 24, tip))
    } else if text::contains(line, "objects:"@) || text::contains(line, "deltas:"@)
        || text::contains(line, "files:"@) {
        let percentage = match percentage::percentage_in(line) {
            Some(p) => p as int,
            None => 0,
        };
        Some(git_shown(line, 18 + (percentage * 42) / 100, tip))
    } else {
        None
    }
}

fn git_splash(detail: &str, progress: u8, tip: &str) -> (r: SplashUpdate)
    ensures
        r@ == git_shown(detail@, progress as int, tip@),
{
    SplashUpdate::loading("正在更新 AzurPilot", detail, progress).with_subtitle(
        splash::subtitle_with_tip("同步仓库中...", "：", tip).as_str(),
    )
}

fn dependency_splash(detail: &str, progress: u8, tip: &str) -> (r: SplashUpdate)
    ensures
        r@ == dependency_shown(detail@, progress as int, tip@),
{
    SplashUpdate::loading("安装依赖库", detail, progress).with_subtitle(
        splash::subtitle_with_tip("同步依赖包中...", "：", tip).as_str(),
    )
}

/// What the splash window shows of a line of git output.
pub fn splash_update_for_git_output(line: &str, tip: &str) -> (r: Option<SplashUpdate>)
    ensures
        splash::shown(r) == git_update(line@, tip@),
{
    let chars = strings::chars_of(line);
    if strings::has(&chars, "=====") {
        proof {
            reveal_strlit("=");
        }
        let detail: String = strings::string_of(
            &strings::trimmed(&strings::replaced(&chars, "=", " ")),
        );
        return Some(git_splash(detail.as_str(), 24, tip));
    }
    if strings::has(&chars, "objects:") || strings::has(&chars, "deltas:") || strings::has(
        &chars,
        "files:",
    ) {
        let percentage: u8 = match percentage::find_percentage(line) {
            Some(p) => p,
            None => 0,
        };
        let progress: u8 = 18 + (((percentage as u16) * 42) / 100) as u8;
        return Some(git_splash(line, progress, tip));
    }
    None
}

/// The packages seen once the line has come.
pub open spec fn seen_after(line: Seq<char>, seen: Set<Seq<char>>) -> Set<Seq<char>> {
    match uv_package_name(line) {
        Some(name) => if text::starts_with(line, "Resolved "@) {
            seen
        } else {
            seen.insert(name)
        },
        None => seen,
    }
}

/// What a line of uv output shows.
pub open spec fn dependency_update(
    line: Seq<char>,
    total_packages: int,
    seen: Set<Seq<char>>,
    tip: Seq<char>,
) -> Option<Shown> {
    if text::starts_with(line, "Resolved "@) {
        Some(dependency_shown(line, 70, tip))
    } else if text::starts_with(line, "Downloading "@) {
        Some(
            dependency_shown(
                line,
                download_progress(seen_after(line, seen).len() as int, total_packages),
                tip,
            ),
        )
    } else if text::starts_with(line, "Prepared "@) {
        Some(dependency_shown(line, 84, tip))
    } else if text::starts_with(line, "Installed "@) {
        Some(dependency_shown(line, 88, tip))
    } else if text::starts_with(line, "+ "@) || text::starts_with(line, "Audited "@) {
        Some(dependency_shown(line, 90, tip))
    } else {
        None
    }
}

/// What the splash window shows of a line of uv output. A package whose download the line tells of
/// has been seen from then on.
pub fn splash_update_for_dependency_output(
    line: &str,
    total_packages: usize,
    seen_packages: &mut SeenPackages,
    tip: &str,
) -> (r: Option<SplashUpdate>)
    requires
        old(seen_packages).well_formed(),
    ensures
        final(seen_packages).well_formed(),
        final(seen_packages)@ == seen_after(line@, old(seen_packages)@),
        splash::shown(r) == dependency_update(
            line@,
            total_packages as int,
            old(seen_packages)@,
            tip@,
        ),
{
    let chars = strings::chars_of(line);
    if strings::begins(&chars, "Resolved ") {
        return Some(dependency_splash(line, 70, tip));
    }
    if strings::begins(&chars, "Downloading ") {
        if let Some(name) = extract_uv_package_name(line) {
            seen_packages.insert(name);
        }
        let progress: u8 = uv_download_progress(seen_packages.len(), total_packages);
        return Some(dependency_splash(line, progress, tip));
    }
    if strings::begins(&chars, "Prepared ") {
        return Some(dependency_splash(line, 84, tip));
    }
    if strings::begins(&chars, "Installed ") {
        return Some(dependency_splash(line, 88, tip));
    }
    if strings::begins(&chars, "+ ") || strings::begins(&chars, "Audited ") {
        return Some(dependency_splash(line, 90, tip));
    }
    None
}

/// What a line of output shows in the phase `phase`.
pub open spec fn output_update(
    line: Seq<char>,
    phase: ScriptPhase,
    seen: Set<Seq<char>>,
    tip: Seq<char>,
) -> Option<Shown> {
    if text::is_blank(line) {
        None
    } else {
        match phase {
            ScriptPhase::Git => git_update(text::trim(line), tip),
            ScriptPhase::Dependencies { total_packages } => dependency_update(
                text::trim(line),
                total_packages as int,
                seen,
                tip,
            ),
        }
    }
}

/// The packages seen once a line of output has come in the phase `phase`.
pub open spec fn output_seen(
    line: Seq<char>,
    phase: ScriptPhase,
    seen: Set<Seq<char>>,
) -> Set<Seq<char>> {
    match phase {
        ScriptPhase::Git => seen,
        ScriptPhase::Dependencies { .. } => if text::is_blank(line) {
            seen
        } else {
            seen_after(text::trim(line), seen)
        },
    }
}

/// What the splash window shows of a line of output, with the tip `tip`.
pub fn splash_update_with_tip(
    line: &str,
    phase: ScriptPhase,
    seen_packages: &mut SeenPackages,
    tip: &str,
) -> (r: Option<SplashUpdate>)
    requires
        old(seen_packages).well_formed(),
    ensures
        final(seen_packages).well_formed(),
        final(seen_packages)@ == output_seen(line@, phase, old(seen_packages)@),
        splash::shown(r) == output_update(line@, phase, old(seen_packages)@, tip@),
{
    let sanitized = strings::trimmed(&strings::chars_of(line));
    if sanitized.len() == 0 {
        return None;
    }
    let line: String = strings::string_of(&sanitized);
    match phase {
        ScriptPhase::Git => splash_update_for_git_output(line.as_str(), tip),
        ScriptPhase::Dependencies { total_packages } => splash_update_for_dependency_output(
            line.as_str(),
            total_packages,
            seen_packages,
            tip,
        ),
    }
}

/// What the splash window shows of a line of output, with the tip of the present second.
pub fn splash_update_for_output(
    line: &str,
    phase: ScriptPhase,
    seen_packages: &mut SeenPackages,
) -> (r: Option<SplashUpdate>)
    requires
        old(seen_packages).well_formed(),
    ensures
        final(seen_packages).well_formed(),
        final(seen_packages)@ == output_seen(line@, phase, old(seen_packages)@),
        exists|second: i64|
            splash::shown(r) == output_update(
                line@,
                phase,
                old(seen_packages)@,
                #[trigger] splash::tip_at(second),
            ),
{
    let tip: String = splash::get_tip();
    splash_update_with_tip(line, phase, seen_packages, tip.as_str())
}

/// What the phase is called in the log.
pub fn phase_display_name(phase: ScriptPhase) -> (r: &'static str)
    ensures
        r@ == match phase {
            ScriptPhase::Git => "代码更新"@,
            ScriptPhase::Dependencies { .. } => "依赖更新"@,
        },
{
    match phase {
        ScriptPhase::Git => "代码更新",
        ScriptPhase::Dependencies { total_packages: _ } => "依赖更新",
    }
}

/// What the splash window says of a script that failed and is run again.
pub open spec fn retry_detail(retry_count: nat, error_text: Seq<char>) -> Seq<char> {
    "重试失败 ("@ + text::decimal(retry_count) + "/"@ + text::decimal(MAX_UPDATE_RETRIES as nat)
        + ")，1秒后再次尝试："@ + error_text
}

/// What the splash window shows before a script is run again.
pub open spec fn retry_update(
    phase: ScriptPhase,
    retry_count: nat,
    error_text: Seq<char>,
    tip: Seq<char>,
) -> Shown {
    match phase {
        ScriptPhase::Git => git_shown(retry_detail(retry_count, error_text), 18, tip),
        ScriptPhase::Dependencies { .. } => dependency_shown(
            retry_detail(retry_count, error_text),
            64,
            tip,
        ),
    }
}

/// What the splash window shows before a script is run again, with the tip `tip`.
pub fn splash_retry_update_with_tip(
    phase: ScriptPhase,
    retry_count: usize,
    error_text: &str,
    tip: &str,
) -> (r: SplashUpdate)
    ensures
        r@ == retry_update(phase, retry_count as nat, error_text@, tip@),
{
    let mut detail: String = "重试失败 (".to_owned();
    detail.append(strings::decimal_string(retry_count as u64).as_str());
    detail.append("/");
    detail.append(strings::decimal_string(MAX_UPDATE_RETRIES as u64).as_str());
    detail.append(")，1秒后再次尝试：");
    detail.append(error_text);
    match phase {
        ScriptPhase::Git => git_splash(detail.as_str(), 18, tip),
        ScriptPhase::Dependencies { total_packages: _ } => dependency_splash(
            detail.as_str(),
            64,
            tip,
        ),
    }
}

/// What the splash window shows before a script is run again, with the tip of the present second.
pub fn splash_retry_update(
    phase: ScriptPhase,
    retry_count: usize,
    error_text: &str,
) -> (r: SplashUpdate)
    ensures
        exists|second: i64|
            r@ == retry_update(
                phase,
                retry_count as nat,
                error_text@,
                #[trigger] splash::tip_at(second),
            ),
{
    let tip: String = splash::get_tip();
    splash_retry_update_with_tip(phase, retry_count, error_text, tip.as_str())
}

/// The line counts as an error: it came from the error output, and is no progress line of uv.
pub open spec fn is_error_line(phase: ScriptPhase, is_err: bool, line: Seq<char>) -> bool {
    is_err && !(phase is Dependencies && is_progress_line(line))
}

/// The last of the lines that counts as an error; empty where none does.
pub open spec fn last_error(phase: ScriptPhase, lines: Seq<(bool, Seq<char>)>) -> Seq<char>
    decreases lines.len(),
{
    if lines.len() == 0 {
        Seq::empty()
    } else if is_error_line(phase, lines.last().0, lines.last().1) {
        lines.last().1
    } else {
        last_error(phase, lines.drop_last())
    }
}

/// The error of a script that failed: its last error line, or a general one.
pub open spec fn failure_text(phase: ScriptPhase, last_err: Seq<char>) -> Seq<char> {
    if last_err.len() > 0 {
        last_err
    } else {
        match phase {
            ScriptPhase::Git => "更新 AzurPilot 失败"@,
            ScriptPhase::Dependencies { .. } => "更新依赖库失败"@,
        }
    }
}

/// A run of an update script.
#[derive(Debug)]
pub struct ScriptRun {
    pub phase: ScriptPhase,
    pub seen_packages: SeenPackages,
    pub last_err: String,
}

/// What the launcher does with a line of output.
#[derive(Debug)]
pub struct LineOutcome {
    pub update: Option<SplashUpdate>,
    /// The line is logged as a warning.
    pub is_warning: bool,
}

impl ScriptRun {
    /// The run has come as far as a run of the phase `phase` does with the output `lines`.
    pub open spec fn has_read(self, phase: ScriptPhase, lines: Seq<(bool, Seq<char>)>) -> bool {
        &&& self.phase == phase
        &&& self.seen_packages.well_formed()
        &&& self.seen_packages@ == seen_in(phase, lines)
        &&& self.last_err@ == last_error(phase, lines)
    }

    /// A run that has written nothing yet.
    pub fn new(phase: ScriptPhase) -> (r: ScriptRun)
        ensures
            r.has_read(phase, Seq::empty()),
    {
        ScriptRun { phase, seen_packages: SeenPackages::new(), last_err: String::new() }
    }

    /// Takes the next line of output: shows what it tells, and keeps it if it counts as an error.
    pub fn on_line(&mut self, is_err: bool, line: String) -> (r: LineOutcome)
        requires
            old(self).seen_packages.well_formed(),
        ensures
            final(self).phase == old(self).phase,
            final(self).seen_packages.well_formed(),
            final(self).seen_packages@ == output_seen(
                line@,
                old(self).phase,
                old(self).seen_packages@,
            ),
            final(self).last_err@ == if is_error_line(old(self).phase, is_err, line@) {
                line@
            } else {
                old(self).last_err@
            },
            r.is_warning == is_error_line(old(self).phase, is_err, line@),
            exists|second: i64|
                splash::shown(r.update) == output_update(
                    line@,
                    old(self).phase,
                    old(self).seen_packages@,
                    #[trigger] splash::tip_at(second),
                ),
    {
        let update = splash_update_for_output(line.as_str(), self.phase, &mut self.seen_packages);
        let is_deps = match self.phase {
            ScriptPhase::Git => false,
            ScriptPhase::Dependencies { total_packages: _ } => true,
        };
        let is_warning = is_err && !(is_deps && is_uv_progress_line(line.as_str()));
        if is_warning {
            self.last_err = line;
        }
        LineOutcome { update, is_warning }
    }

    /// The end of the run: an error unless the script ended well.
    pub fn finish(self, success: bool) -> (r: Result<(), String>)
        ensures
            r is Ok <==> success,
            r matches Err(error) ==> error@ == failure_text(self.phase, self.last_err@),
    {
        if success {
            return Ok(());
        }
        if !self.last_err.as_str().is_empty() {
            return Err(self.last_err);
        }
        match self.phase {
            ScriptPhase::Git => Err("更新 AzurPilot 失败".to_owned()),
            ScriptPhase::Dependencies { total_packages: _ } => Err("更新依赖库失败".to_owned()),
        }
    }
}

/// The packages seen in a row of lines.
pub open spec fn seen_in(phase: ScriptPhase, lines: Seq<(bool, Seq<char>)>) -> Set<Seq<char>>
    decreases lines.len(),
{
    if lines.len() == 0 {
        Set::empty()
    } else {
        output_seen(lines.last().1, phase, seen_in(phase, lines.drop_last()))
    }
}

/// A run that takes one more line has read one more line.
pub proof fn a_run_reads_line_by_line(
    before: ScriptRun,
    after: ScriptRun,
    phase: ScriptPhase,
    lines: Seq<(bool, Seq<char>)>,
    is_err: bool,
    line: Seq<char>,
)
    requires
        before.has_read(phase, lines),
        after.phase == before.phase,
        after.seen_packages.well_formed(),
        after.seen_packages@ == output_seen(line, before.phase, before.seen_packages@),
        after.last_err@ == if is_error_line(before.phase, is_err, line) {
            line
        } else {
            before.last_err@
        },
    ensures
        after.has_read(phase, lines.push((is_err, line))),
{
    assert(lines.push((is_err, line)).drop_last() =~= lines);
}

/// The error that is kept is the last line that counts as one.
pub proof fn the_last_error_line_is_kept(
    phase: ScriptPhase,
    lines: Seq<(bool, Seq<char>)>,
    i: int,
)
    requires
        0 <= i < lines.len(),
        is_error_line(phase, lines[i].0, lines[i].1),
        forall|j: int|
            i < j < lines.len() ==> !is_error_line(phase, (#[trigger] lines[j]).0, lines[j].1),
    ensures
        last_error(phase, lines) == lines[i].1,
    decreases lines.len(),
{
    if i < lines.len() - 1 {
        let front = lines.drop_last();
        assert(!is_error_line(phase, lines[lines.len() - 1].0, lines[lines.len() - 1].1));
        assert forall|j: int| i < j < front.len() implies !is_error_line(
            phase,
            (#[trigger] front[j]).0,
            front[j].1,
        ) by {
            assert(front[j] == lines[j]);
        }
        the_last_error_line_is_kept(phase, front, i);
    }
}

/// What follows a run of a script.
#[derive(Clone, Copy, Debug, PartialEq, Eq, Structural)]
pub enum AfterRun {
    Succeed,
    /// Give up with the error of the run.
    GiveUp,
    /// Show the error, wait, and run the script again.
    Retry { retry_count: usize },
}

/// What follows a run that `retry` runs have failed before.
pub open spec fn after_run(retry: nat, success: bool) -> AfterRun {
    if success {
        AfterRun::Succeed
    } else if retry >= MAX_UPDATE_RETRIES {
        AfterRun::GiveUp
    } else {
        AfterRun::Retry { retry_count: (retry + 1) as usize }
    }
}

/// What follows a run that `retry` runs have failed before.
pub fn run_command_with_retry(retry: usize, success: bool) -> (r: AfterRun)
    ensures
        r == after_run(retry as nat, success),
{
    if success {
        AfterRun::Succeed
    } else if retry >= MAX_UPDATE_RETRIES {
        AfterRun::GiveUp
    } else {
        AfterRun::Retry { retry_count: retry + 1 }
    }
}

/// What a row of runs comes to: whether the script is settled, and how, after `results`, of which
/// each is a run that was made only if the one before it asked for it.
pub open spec fn settled(results: Seq<bool>) -> Option<bool>
    decreases results.len(),
{
    if results.len() == 0 {
        None
    } else {
        match settled(results.drop_last()) {
            Some(outcome) => Some(outcome),
            None => match after_run((results.len() - 1) as nat, results.last()) {
                AfterRun::Succeed => Some(true),
                AfterRun::GiveUp => Some(false),
                AfterRun::Retry { .. } => None,
            },
        }
    }
}

/// A script is run until it succeeds, and at most once more than it may be retried: after so many
/// runs it has succeeded if one of them has, and has been given up if none has; before that it is
/// settled only by success.
pub proof fn a_script_is_settled_by_success_or_the_last_retry(results: Seq<bool>)
    requires
        results.len() <= MAX_UPDATE_RETRIES + 1,
    ensures
        settled(results) == if results.contains(true) {
            Some(true)
        } else if results.len() == MAX_UPDATE_RETRIES + 1 {
            Some(false)
        } else {
            None
        },
    decreases results.len(),
{
    if results.len() > 0 {
        let front = results.drop_last();
        a_script_is_settled_by_success_or_the_last_retry(front);
        if front.contains(true) {
            let i = choose|i: int| 0 <= i < front.len() && front[i] == true;
            assert(results[i] == true);
        } else if results.last() {
            assert(results[results.len() - 1] == true);
        } else {
            assert forall|i: int| 0 <= i < results.len() implies results[i] != true by {
                if i < front.len() {
                    assert(front[i] == results[i]);
                    assert(front[i] != true);
                }
            }
        }
    }
}

/// A line on the download of a package names the package by what stands before its version, in
/// lower case and without white space around it.
pub proof fn a_package_is_named_before_its_version(name: Seq<char>, version: Seq<char>)
    requires
        !name.contains('='),
        text::trim(name).len() > 0,
    ensures
        uv_package_name("Downloading "@ + name + "=="@ + version) == Some(
            text::ascii_lower(text::trim(name)),
        ),
{
    reveal_strlit("==");
    reveal_strlit("Downloading ");
    let start = "Downloading "@;
    let line = start + name + "=="@ + version;
    let rest = name + "=="@ + version;
    assert(line.take(start.len() as int) =~= start);
    assert(line.skip(start.len() as int) =~= rest);
    let n = name.len() as int;
    assert(rest.subrange(n, n + 2) =~= "=="@);
    assert(text::occurs_at(rest, "=="@, n));
    assert forall|j: int| 0 <= j < n implies !#[trigger] text::occurs_at(rest, "=="@, j) by {
        if text::occurs_at(rest, "=="@, j) {
            assert(rest.subrange(j, j + 2)[0] == '=');
            assert(rest[j] == name[j]);
            assert(name.contains(name[j]));
        }
    }
    text::lemma_find_is(rest, "=="@, 0, n);
    assert(rest.take(n) =~= name);
}

/// A line on the download of a package without a version names it by what stands before the size in
/// brackets.
pub proof fn a_package_is_named_before_its_size(name: Seq<char>, size: Seq<char>)
    requires
        !name.contains('=') && !name.contains('@') && !name.contains('('),
        !size.contains('=') && !size.contains('@'),
        text::trim(name).len() > 0,
    ensures
        uv_package_name("Downloading "@ + name + " ("@ + size) == Some(
            text::ascii_lower(text::trim(name)),
        ),
{
    reveal_strlit("==");
    reveal_strlit(" @ ");
    reveal_strlit(" (");
    reveal_strlit("Downloading ");
    let start = "Downloading "@;
    let line = start + name + " ("@ + size;
    let rest = name + " ("@ + size;
    assert(line.take(start.len() as int) =~= start);
    assert(line.skip(start.len() as int) =~= rest);
    let n = name.len() as int;
    assert forall|i: int| 0 <= i < rest.len() implies rest[i] != '=' && rest[i] != '@' by {
        if i < n {
            assert(rest[i] == name[i]);
            assert(name.contains(name[i]));
        } else if i >= n + 2 {
            assert(rest[i] == size[i - n - 2]);
            assert(size.contains(size[i - n - 2]));
        }
    }
    assert forall|j: int| !#[trigger] text::occurs_at(rest, "=="@, j) by {
        if text::occurs_at(rest, "=="@, j) {
            assert(rest.subrange(j, j + 2)[0] == '=');
        }
    }
    assert forall|j: int| !#[trigger] text::occurs_at(rest, " @ "@, j) by {
        if text::occurs_at(rest, " @ "@, j) {
            assert(rest.subrange(j, j + 3)[1] == '@');
        }
    }
    assert(rest.subrange(n, n + 2) =~= " ("@);
    assert(text::occurs_at(rest, " ("@, n));
    assert forall|j: int| 0 <= j < n implies !#[trigger] text::occurs_at(rest, " ("@, j) by {
        if text::occurs_at(rest, " ("@, j) {
            assert(rest.subrange(j, j + 2)[1] == '(');
            if j + 1 < n {
                assert(rest[j + 1] == name[j + 1]);
                assert(name.contains(name[j + 1]));
            } else {
                assert(rest[j + 1] == ' ');
            }
        }
    }
    text::lemma_find_is(rest, " ("@, 0, n);
    assert(rest.take(n) =~= name);
}

/// A line on anything else names no package.
pub proof fn only_a_download_names_a_package(line: Seq<char>, seen: Set<Seq<char>>)
    requires
        !text::starts_with(line, "Downloading "@),
    ensures
        uv_package_name(line) is None,
        seen_after(line, seen) == seen,
{
}

/// The bar follows the share of the packages that have been seen: it stands at 72 and as many
/// tenths of the way to 82 as are full.
pub proof fn the_bar_follows_the_packages(downloaded: int, total: int)
    requires
        0 <= downloaded < total,
    ensures
        (download_progress(downloaded, total) - 72) * total <= downloaded * 10,
        downloaded * 10 < (download_progress(downloaded, total) - 71) * total,
        download_progress(0, total) == 72,
        download_progress(total, total) == 82,
{
    vstd::arithmetic::div_mod::lemma_fundamental_div_mod(downloaded * 10, total);
    let q = downloaded * 10 / total;
    assert(q * total <= downloaded * 10 < (q + 1) * total) by (nonlinear_arith)
        requires
            downloaded * 10 == total * q + (downloaded * 10) % total,
            0 <= (downloaded * 10) % total < total,
    ;
    assert(0int * 10 / total == 0) by (nonlinear_arith)
        requires
            total > 0,
    ;
}

/// A package that is seen twice counts once, and packages of different names count each.
pub proof fn a_package_counts_once(line: Seq<char>, other: Seq<char>, seen: Set<Seq<char>>)
    requires
        text::starts_with(line, "Downloading "@),
        uv_package_name(line) is Some,
    ensures
        seen_after(line, seen).contains(uv_package_name(line)->0),
        seen_after(line, seen_after(line, seen)) == seen_after(line, seen),
        uv_package_name(other) == uv_package_name(line) ==> seen_after(
            other,
            seen_after(line, seen),
        ) == seen_after(line, seen),
        seen.subset_of(seen_after(line, seen)),
        seen.finite() && !seen.contains(uv_package_name(line)->0) ==> seen_after(line, seen).len()
            == seen.len() + 1,
{
    reveal_strlit("Resolved ");
    reveal_strlit("Downloading ");
    if text::starts_with(line, "Resolved "@) {
        assert(line.take("Resolved "@.len() as int)[0] == 'R');
        assert(line.take("Downloading "@.len() as int)[0] == 'D');
    }
    let name = uv_package_name(line)->0;
    assert(seen.insert(name).insert(name) =~= seen.insert(name));
}

/// While git transfers something, the bar moves from 18 to 60 with the percentage of the line: it
/// stands at 18 for none and at 60 for all, a larger percentage never moves it back, and the line is
/// shown as it is. A line without a percentage counts as none.
pub proof fn the_bar_follows_the_transfer(line: Seq<char>, other: Seq<char>, tip: Seq<char>)
    requires
        !text::contains(line, "====="@),
        text::contains(line, "objects:"@) || text::contains(line, "deltas:"@) || text::contains(
            line,
            "files:"@,
        ),
        !text::contains(other, "====="@),
        text::contains(other, "objects:"@) || text::contains(other, "deltas:"@) || text::contains(
            other,
            "files:"@,
        ),
    ensures
        git_update(line, tip) is Some,
        git_update(line, tip)->0.detail == line,
        !git_update(line, tip)->0.is_error,
        percentage::percentage_in(line) is None ==> git_update(line, tip)->0.progress == 18,
        percentage::percentage_in(line) == Some(0nat) ==> git_update(line, tip)->0.progress == 18,
        percentage::percentage_in(line) == Some(50nat) ==> git_update(line, tip)->0.progress == 39,
        percentage::percentage_in(line) == Some(100nat) ==> git_update(line, tip)->0.progress == 60,
        percentage::percentage_in(line) is Some && percentage::percentage_in(other) is Some
            && percentage::percentage_in(line)->0 <= percentage::percentage_in(other)->0
            ==> git_update(line, tip)->0.progress <= git_update(other, tip)->0.progress,
        percentage::percentage_in(line) matches Some(p) ==> (p <= 100 ==> 18 <= git_update(
            line,
            tip,
        )->0.progress <= 60),
{
}

/// A heading of git is shown without its rules, and any other line that tells of no transfer shows
/// nothing.
pub proof fn a_heading_is_shown_without_its_rules(line: Seq<char>, tip: Seq<char>)
    ensures
        text::contains(line, "====="@) ==> git_update(line, tip) is Some && !git_update(
            line,
            tip,
        )->0.detail.contains('='),
        !text::contains(line, "====="@) && !text::contains(line, "objects:"@) && !text::contains(
            line,
            "deltas:"@,
        ) && !text::contains(line, "files:"@) ==> git_update(line, tip) is None,
{
    reveal_strlit("=");
    reveal_strlit(" ");
    assert("="@ =~= seq!['=']);
    assert(" "@ =~= seq![' ']);
    text::lemma_replace_char(line, '=', " "@);
    lemma_no_equals_left(line);
    let all = text::replace(line, "="@, " "@);
    text::lemma_trim_start(all);
    let start = text::trim_start(all);
    text::lemma_trim_end(start);
    let kept = text::trim(all);
    assert forall|i: int| 0 <= i < kept.len() implies kept[i] != '=' by {
        assert(kept[i] == start[i]);
        assert(start[i] == all[all.len() - start.len() + i]);
    }
}

proof fn lemma_no_equals_left(s: Seq<char>)
    ensures
        forall|i: int|
            0 <= i < text::substitute(s, '=', seq![' ']).len() ==> #[trigger] text::substitute(
                s,
                '=',
                seq![' '],
            )[i] != '=',
    decreases s.len(),
{
    if s.len() > 0 {
        lemma_no_equals_left(s.skip(1));
        let rest = text::substitute(s.skip(1), '=', seq![' ']);
        let all = text::substitute(s, '=', seq![' ']);
        assert forall|i: int| 0 <= i < all.len() implies #[trigger] all[i] != '=' by {
            if i > 0 {
                assert(all[i] == rest[i - 1]);
            }
        }
    }
}

/// The stages of the installation move the bar on one after the other: what is resolved, downloaded,
/// prepared, installed and listed. Each shows its line as it is.
pub proof fn the_stages_move_the_bar_on(
    rest: Seq<char>,
    total: int,
    seen: Set<Seq<char>>,
    tip: Seq<char>,
)
    requires
        0 <= total,
    ensures
        ({
            let resolved = dependency_update("Resolved "@ + rest, total, seen, tip);
            let downloading = dependency_update("Downloading "@ + rest, total, seen, tip);
            let prepared = dependency_update("Prepared "@ + rest, total, seen, tip);
            let installed = dependency_update("Installed "@ + rest, total, seen, tip);
            let listed = dependency_update("+ "@ + rest, total, seen, tip);
            &&& resolved is Some && downloading is Some && prepared is Some && installed is Some
                && listed is Some
            &&& resolved->0.progress < downloading->0.progress < prepared->0.progress
                < installed->0.progress < listed->0.progress < 100
            &&& resolved->0.detail == "Resolved "@ + rest
            &&& downloading->0.detail == "Downloading "@ + rest
            &&& prepared->0.detail == "Prepared "@ + rest
            &&& installed->0.detail == "Installed "@ + rest
            &&& listed->0.detail == "+ "@ + rest
        }),
{
    reveal_strlit("Resolved ");
    reveal_strlit("Downloading ");
    reveal_strlit("Prepared ");
    reveal_strlit("Installed ");
    reveal_strlit("Audited ");
    reveal_strlit("+ ");
    lemma_starts("Resolved "@, rest);
    lemma_starts("Downloading "@, rest);
    lemma_starts("Prepared "@, rest);
    lemma_starts("Installed "@, rest);
    lemma_starts("+ "@, rest);
    let n = seen_after("Downloading "@ + rest, seen).len() as int;
    download_progress_stays_in_its_range(n, n, total);
}

proof fn lemma_starts(start: Seq<char>, rest: Seq<char>)
    requires
        start.len() > 0,
    ensures
        text::starts_with(start + rest, start),
        forall|other: Seq<char>|
            other.len() > 0 && other[0] != start[0] ==> !#[trigger] text::starts_with(
                start + rest,
                other,
            ),
{
    let s = start + rest;
    assert(s.take(start.len() as int) =~= start);
    assert forall|other: Seq<char>| other.len() > 0 && other[0] != start[0] implies
        !#[trigger] text::starts_with(s, other) by {
        if text::starts_with(s, other) {
            assert(s.take(other.len() as int)[0] == s[0]);
        }
    }
}

/// A line of the ordinary output is never an error. Of the error output every line is, but for those
/// that uv writes there to tell how far it is.
pub proof fn an_error_comes_from_the_error_output(phase: ScriptPhase, line: Seq<char>)
    ensures
        !is_error_line(phase, false, line),
        phase is Git ==> is_error_line(phase, true, line),
        phase is Dependencies && is_error_line(phase, true, line) ==> !text::starts_with(
            line,
            "Resolved "@,
        ) && !text::starts_with(line, "Downloading "@) && !text::starts_with(line, "Downloaded "@)
            && !text::starts_with(line, "Prepared "@) && !text::starts_with(line, "Installed "@)
            && !text::starts_with(line, "Audited "@) && !text::starts_with(line, "warning: "@)
            && !text::starts_with(line, "hint: "@) && !text::starts_with(line, "note: "@),
        text::starts_with(line, "error: "@) ==> is_error_line(phase, true, line),
{
    reveal_strlit("error: ");
    reveal_strlit("Resolved ");
    reveal_strlit("Downloading ");
    reveal_strlit("Downloaded ");
    reveal_strlit("Prepared ");
    reveal_strlit("Installed ");
    reveal_strlit("Audited ");
    reveal_strlit("warning: ");
    reveal_strlit("hint: ");
    reveal_strlit("note: ");
    if text::starts_with(line, "error: "@) {
        let rest = line.skip(7);
        assert(line =~= "error: "@ + rest);
        lemma_starts("error: "@, rest);
    }
}

/// A script that failed reports its last error line as it is, and never nothing.
pub proof fn a_failure_says_what_was_wrong(phase: ScriptPhase, last_err: Seq<char>)
    ensures
        last_err.len() > 0 ==> failure_text(phase, last_err) == last_err,
        failure_text(phase, last_err).len() > 0,
{
    reveal_strlit("更新 AzurPilot 失败");
    reveal_strlit("更新依赖库失败");
}

/// Each retry is counted, from one to the last that is allowed, and the splash window tells its
/// number and the error that it is for.
pub proof fn a_retry_is_counted(
    phase: ScriptPhase,
    retry: nat,
    error_text: Seq<char>,
    tip: Seq<char>,
)
    requires
        retry < 20,
    ensures
        after_run(retry, false) == (AfterRun::Retry { retry_count: (retry + 1) as usize }),
        after_run(20, false) is GiveUp,
        after_run(retry, true) is Succeed,
        text::contains(
            retry_update(phase, retry + 1, error_text, tip).detail,
            text::decimal(retry + 1) + "/"@ + text::decimal(20),
        ),
        error_text.is_suffix_of(retry_update(phase, retry + 1, error_text, tip).detail),
        !retry_update(phase, retry + 1, error_text, tip).is_error,
{
    lemma_retry_detail(retry + 1, error_text);
}

proof fn lemma_retry_detail(retry_count: nat, error_text: Seq<char>)
    ensures
        text::contains(
            retry_detail(retry_count, error_text),
            text::decimal(retry_count) + "/"@ + text::decimal(20),
        ),
        error_text.is_suffix_of(retry_detail(retry_count, error_text)),
{
    let detail = retry_detail(retry_count, error_text);
    let (a, b) = (text::decimal(retry_count), text::decimal(20));
    let (start, slash, end) = ("重试失败 ("@, "/"@, ")，1秒后再次尝试："@);
    assert(detail == start + a + slash + b + end + error_text);
    lemma_detail_parts(start, a, slash, b, end, error_text);
}

proof fn lemma_detail_parts(
    start: Seq<char>,
    a: Seq<char>,
    slash: Seq<char>,
    b: Seq<char>,
    end: Seq<char>,
    error: Seq<char>,
)
    ensures
        text::contains(start + a + slash + b + end + error, a + slash + b),
        error.is_suffix_of(start + a + slash + b + end + error),
{
    let all = start + a + slash + b + end + error;
    let count = a + slash + b;
    text::lemma_contains_itself(count);
    text::lemma_contains_within(start, count, end + error, count);
    assert(start + count + (end + error) =~= all);
    assert(all.subrange(all.len() - error.len(), all.len() as int) =~= error);
}

/// Where no line counts as an error, none is kept.
pub proof fn without_an_error_line_none_is_kept(phase: ScriptPhase, lines: Seq<(bool, Seq<char>)>)
    requires
        forall|j: int|
            0 <= j < lines.len() ==> !is_error_line(phase, (#[trigger] lines[j]).0, lines[j].1),
    ensures
        last_error(phase, lines).len() == 0,
    decreases lines.len(),
{
    if lines.len() > 0 {
        let front = lines.drop_last();
        assert(!is_error_line(phase, lines[lines.len() - 1].0, lines[lines.len() - 1].1));
        assert forall|j: int| 0 <= j < front.len() implies !is_error_line(
            phase,
            (#[trigger] front[j]).0,
            front[j].1,
        ) by {
            assert(front[j] == lines[j]);
        }
        without_an_error_line_none_is_kept(phase, front);
    }
}

/// White space around a line makes no difference to what is shown of it or which package it tells
/// of, and a blank line shows nothing and tells of none.
pub proof fn white_space_around_a_line_makes_no_difference(
    line: Seq<char>,
    phase: ScriptPhase,
    seen: Set<Seq<char>>,
    tip: Seq<char>,
)
    ensures
        output_update(text::trim(line), phase, seen, tip) == output_update(line, phase, seen, tip),
        output_seen(text::trim(line), phase, seen) == output_seen(line, phase, seen),
        text::trim(line).len() == 0 ==> output_update(line, phase, seen, tip) is None
            && output_seen(line, phase, seen) == seen,
        phase is Git ==> output_seen(line, phase, seen) == seen,
        phase is Git && text::trim(line).len() > 0 ==> output_update(line, phase, seen, tip)
            == git_update(text::trim(line), tip),
        text::trim(line).len() > 0 ==> (phase matches ScriptPhase::Dependencies { total_packages }
            ==> output_update(line, phase, seen, tip) == dependency_update(
            text::trim(line),
            total_packages as int,
            seen,
            tip,
        ) && output_seen(line, phase, seen) == seen_after(text::trim(line), seen)),
{
    text::lemma_trim_ends(line);
    text::lemma_trim_fixed(text::trim(line));
}

/// A line on the download of a package from an address names it by what stands before the address.
pub proof fn a_package_is_named_before_its_address(name: Seq<char>, address: Seq<char>)
    requires
        !name.contains('=') && !name.contains('@'),
        !address.contains('='),
        text::trim(name).len() > 0,
    ensures
        uv_package_name("Downloading "@ + name + " @ "@ + address) == Some(
            text::ascii_lower(text::trim(name)),
        ),
{
    reveal_strlit("==");
    reveal_strlit(" @ ");
    reveal_strlit("Downloading ");
    let start = "Downloading "@;
    let line = start + name + " @ "@ + address;
    let rest = name + " @ "@ + address;
    assert(line.take(start.len() as int) =~= start);
    assert(line.skip(start.len() as int) =~= rest);
    let n = name.len() as int;
    assert forall|i: int| 0 <= i < rest.len() implies rest[i] != '=' by {
        if i < n {
            assert(rest[i] == name[i]);
            assert(name.contains(name[i]));
        } else if i >= n + 3 {
            assert(rest[i] == address[i - n - 3]);
            assert(address.contains(address[i - n - 3]));
        }
    }
    assert forall|j: int| !#[trigger] text::occurs_at(rest, "=="@, j) by {
        if text::occurs_at(rest, "=="@, j) {
            assert(rest.subrange(j, j + 2)[0] == '=');
        }
    }
    assert(rest.subrange(n, n + 3) =~= " @ "@);
    assert(text::occurs_at(rest, " @ "@, n));
    assert forall|j: int| 0 <= j < n implies !#[trigger] text::occurs_at(rest, " @ "@, j) by {
        if text::occurs_at(rest, " @ "@, j) {
            assert(rest.subrange(j, j + 3)[1] == '@');
            if j + 1 < n {
                assert(rest[j + 1] == name[j + 1]);
                assert(name.contains(name[j + 1]));
            } else {
                assert(rest[j + 1] == ' ');
            }
        }
    }
    text::lemma_find_is(rest, " @ "@, 0, n);
    assert(rest.take(n) =~= name);
}

} // verus!
