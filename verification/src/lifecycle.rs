//! How the launcher starts up, and what ends it.

use vstd::prelude::*;

use crate::args;
use crate::strings;
use crate::text;

verus! {

/// How long a cleanup waits for the setup to stop, in milliseconds.
pub const SETUP_STOP_TIMEOUT_MS: u64 = 30000;

/// The bar position while the launcher cleans up.
pub const CLEANUP_PROGRESS: u8 = 99;

/// The bar position when the startup begins.
pub const STARTUP_PROGRESS: u8 = 4;

/// How long the splash page may take to load, in milliseconds.
pub const SPLASH_READY_TIMEOUT_MS: u64 = 2000;

/// The systems on which the launcher's windows behave in their own way.
#[derive(Clone, Copy, Debug, PartialEq, Eq, Structural)]
pub enum Desktop {
    Windows,
    MacOs,
    Linux,
    Other,
}

/// What the launcher's threads know of each other.
#[derive(Clone, Copy, Debug, PartialEq, Eq, Structural)]
pub struct Flags {
    /// The startup is over, and nothing is left half done.
    pub setup_completed: bool,
    pub setup_running: bool,
    /// The launcher is to end when it is asked to.
    pub allow_exit: bool,
    pub startup_cleanup_started: bool,
    /// The setup is to stop.
    pub setup_cancel_requested: bool,
}

/// What the startup does next.
#[derive(Clone, Copy, Debug, PartialEq, Eq, Structural)]
pub enum StartupStep {
    CheckUpdate,
    SetUpRepository,
    StartBackend,
    /// Show the main window with the web interface.
    OpenWindow,
    Ended { how: StartupEnd },
}

/// How a startup ends.
#[derive(Clone, Copy, Debug, PartialEq, Eq, Structural)]
pub enum StartupEnd {
    /// The web interface is shown.
    Ready,
    /// A new launcher has been started; this one exits.
    Restarting,
    /// The update that the launcher needs has failed.
    UpdateFailed,
    /// The error state was asked for.
    CrashPreview,
    RepositoryFailed,
    /// The setup was cancelled; whoever did so says what comes next.
    Cancelled,
    BackendFailed,
}

/// How a step of the startup has ended.
#[derive(Clone, Copy, Debug, PartialEq, Eq, Structural)]
pub enum StartupOutcome {
    Done,
    /// The update has started a new launcher.
    Restarting,
    Failed { cancelled: bool },
}

/// The step after the check for an update.
pub open spec fn after_check(mode: args::StartMode) -> StartupStep {
    if mode.preview_crash {
        StartupStep::Ended { how: StartupEnd::CrashPreview }
    } else {
        StartupStep::SetUpRepository
    }
}

/// What the startup does first.
pub open spec fn first_step(mode: args::StartMode) -> StartupStep {
    if mode.preview_no_update {
        after_check(mode)
    } else {
        StartupStep::CheckUpdate
    }
}

/// The step can end in this way. A main window that cannot be opened has no step after it.
pub open spec fn can_end(step: StartupStep, outcome: StartupOutcome) -> bool {
    !(step is OpenWindow && outcome is Failed)
}

/// What the startup does after a step has ended.
pub open spec fn next_step(
    mode: args::StartMode,
    step: StartupStep,
    outcome: StartupOutcome,
) -> StartupStep {
    match (step, outcome) {
        (StartupStep::CheckUpdate, StartupOutcome::Done) => after_check(mode),
        (StartupStep::CheckUpdate, StartupOutcome::Restarting) => StartupStep::Ended {
            how: StartupEnd::Restarting,
        },
        (StartupStep::CheckUpdate, StartupOutcome::Failed { cancelled: _ }) => StartupStep::Ended {
            how: StartupEnd::UpdateFailed,
        },
        (StartupStep::SetUpRepository, StartupOutcome::Failed { cancelled }) => StartupStep::Ended {
            how: if cancelled {
                StartupEnd::Cancelled
            } else {
                StartupEnd::RepositoryFailed
            },
        },
        (StartupStep::SetUpRepository, _) => StartupStep::StartBackend,
        (StartupStep::StartBackend, StartupOutcome::Failed { cancelled: _ }) => {
            StartupStep::Ended { how: StartupEnd::BackendFailed }
        },
        (StartupStep::StartBackend, _) => StartupStep::OpenWindow,
        (StartupStep::OpenWindow, StartupOutcome::Failed { cancelled: _ }) => {
            StartupStep::OpenWindow
        },
        (StartupStep::OpenWindow, _) => StartupStep::Ended { how: StartupEnd::Ready },
        (StartupStep::Ended { how }, _) => StartupStep::Ended { how },
    }
}

/// The flags when a step is reached: the setup runs until the startup ends, and an end that leaves
/// nothing half done completes it.
pub open spec fn flags_at(step: StartupStep, flags: Flags) -> Flags {
    match step {
        StartupStep::Ended { how } => Flags {
            setup_completed: flags.setup_completed || how is Ready || how is Restarting
                || how is UpdateFailed || how is CrashPreview,
            setup_running: false,
            allow_exit: flags.allow_exit || how is Restarting,
            ..flags
        },
        _ => Flags { setup_running: true, ..flags },
    }
}

fn step_after_check(mode: args::StartMode) -> (r: StartupStep)
    ensures
        r == after_check(mode),
{
    if mode.preview_crash {
        StartupStep::Ended { how: StartupEnd::CrashPreview }
    } else {
        StartupStep::SetUpRepository
    }
}

/// What the startup does first.
pub fn first_startup_step(mode: args::StartMode) -> (r: StartupStep)
    ensures
        r == first_step(mode),
{
    if mode.preview_no_update {
        step_after_check(mode)
    } else {
        StartupStep::CheckUpdate
    }
}

/// What the startup does after a step has ended.
pub fn next_startup_step(mode: args::StartMode, step: StartupStep, outcome: StartupOutcome) -> (r:
    StartupStep)
    requires
        can_end(step, outcome),
    ensures
        r == next_step(mode, step, outcome),
{
    match (step, outcome) {
        (StartupStep::CheckUpdate, StartupOutcome::Done) => step_after_check(mode),
        (StartupStep::CheckUpdate, StartupOutcome::Restarting) => StartupStep::Ended {
            how: StartupEnd::Restarting,
        },
        (StartupStep::CheckUpdate, StartupOutcome::Failed { cancelled: _ }) => StartupStep::Ended {
            how: StartupEnd::UpdateFailed,
        },
        (StartupStep::SetUpRepository, StartupOutcome::Failed { cancelled }) => {
            if cancelled {
                StartupStep::Ended { how: StartupEnd::Cancelled }
            } else {
                StartupStep::Ended { how: StartupEnd::RepositoryFailed }
            }
        },
        (StartupStep::SetUpRepository, _) => StartupStep::StartBackend,
        (StartupStep::StartBackend, StartupOutcome::Failed { cancelled: _ }) => {
            StartupStep::Ended { how: StartupEnd::BackendFailed }
        },
        (StartupStep::StartBackend, _) => StartupStep::OpenWindow,
        (StartupStep::OpenWindow, _) => StartupStep::Ended { how: StartupEnd::Ready },
        (StartupStep::Ended { how }, _) => StartupStep::Ended { how },
    }
}

/// The flags when a step is reached.
pub fn startup_flags(step: StartupStep, flags: Flags) -> (r: Flags)
    ensures
        r == flags_at(step, flags),
{
    let mut result = flags;
    match step {
        StartupStep::Ended { how } => {
            result.setup_running = false;
            match how {
                StartupEnd::Ready | StartupEnd::UpdateFailed | StartupEnd::CrashPreview => {
                    result.setup_completed = true;
                },
                StartupEnd::Restarting => {
                    result.setup_completed = true;
                    result.allow_exit = true;
                },
                StartupEnd::RepositoryFailed
                | StartupEnd::Cancelled
                | StartupEnd::BackendFailed => {},
            }
        },
        _ => {
            result.setup_running = true;
        },
    }
    result
}

/// The bar position of the splash window when a step is reached.
#[derive(Clone, Copy, Debug, PartialEq, Eq, Structural)]
pub enum StartupSplash {
    /// Nothing new is shown.
    Unchanged,
    Loading { progress: u8 },
    /// An error; the bar stands where it is, but at this position at least.
    Error { least: u8 },
}

/// What the splash window shows when a step is reached.
pub open spec fn splash_at(step: StartupStep) -> StartupSplash {
    match step {
        StartupStep::StartBackend => StartupSplash::Loading { progress: 97 },
        StartupStep::OpenWindow => StartupSplash::Loading { progress: 100 },
        StartupStep::Ended { how } => match how {
            StartupEnd::UpdateFailed => StartupSplash::Error { least: 8 },
            StartupEnd::CrashPreview => StartupSplash::Error { least: 42 },
            StartupEnd::RepositoryFailed => StartupSplash::Error { least: 8 },
            StartupEnd::BackendFailed => StartupSplash::Error { least: 97 },
            _ => StartupSplash::Unchanged,
        },
        _ => StartupSplash::Unchanged,
    }
}

/// An error is shown just for an end that the user is to see as one: a failure, or the preview of
/// one. The backend moves the bar to where its failure leaves it, and the window fills it.
pub proof fn every_failure_is_shown(step: StartupStep, how: StartupEnd)
    ensures
        splash_at(StartupStep::Ended { how }) is Error <==> how is UpdateFailed || how
            is CrashPreview || how is RepositoryFailed || how is BackendFailed,
        step !is Ended ==> splash_at(step) !is Error,
        splash_at(StartupStep::OpenWindow) == (StartupSplash::Loading { progress: 100 }),
        splash_at(StartupStep::StartBackend) is Loading,
        splash_at(StartupStep::StartBackend)->progress == splash_at(
            StartupStep::Ended { how: StartupEnd::BackendFailed },
        )->least,
        splash_at(StartupStep::StartBackend) matches StartupSplash::Loading { progress }
            ==> progress < 100,
        splash_at(step) matches StartupSplash::Loading { progress } ==> progress <= 100,
{
}

/// What the splash window shows when a step is reached.
pub fn startup_splash(step: StartupStep) -> (r: StartupSplash)
    ensures
        r == splash_at(step),
{
    match step {
        StartupStep::StartBackend => StartupSplash::Loading { progress: 97 },
        StartupStep::OpenWindow => StartupSplash::Loading { progress: 100 },
        StartupStep::Ended { how } => match how {
            StartupEnd::UpdateFailed => StartupSplash::Error { least: 8 },
            StartupEnd::CrashPreview => StartupSplash::Error { least: 42 },
            StartupEnd::RepositoryFailed => StartupSplash::Error { least: 8 },
            StartupEnd::BackendFailed => StartupSplash::Error { least: 97 },
            _ => StartupSplash::Unchanged,
        },
        _ => StartupSplash::Unchanged,
    }
}

/// The step that a startup has reached after the outcomes up to the one `n`.
pub open spec fn step_after(mode: args::StartMode, outcomes: Seq<StartupOutcome>, n: int) -> StartupStep
    decreases n,
{
    if n <= 0 {
        first_step(mode)
    } else {
        next_step(mode, step_after(mode, outcomes, n - 1), outcomes[n - 1])
    }
}

/// Each of the outcomes is one that the step it belongs to can have.
pub open spec fn can_happen(mode: args::StartMode, outcomes: Seq<StartupOutcome>) -> bool {
    forall|i: int|
        0 <= i < outcomes.len() ==> can_end(#[trigger] step_after(mode, outcomes, i), outcomes[i])
}

/// A startup has ended after four steps, however they end, and then the setup no longer runs.
pub proof fn a_startup_ends(mode: args::StartMode, outcomes: Seq<StartupOutcome>, flags: Flags)
    requires
        outcomes.len() >= 4,
        can_happen(mode, outcomes),
    ensures
        step_after(mode, outcomes, 4) is Ended,
        !flags_at(step_after(mode, outcomes, 4), flags).setup_running,
{
    reveal_with_fuel(step_after, 5);
    assert(can_end(step_after(mode, outcomes, 2), outcomes[2]));
    assert(can_end(step_after(mode, outcomes, 3), outcomes[3]));
}

/// The web interface is shown where no update was installed, no error was asked for and every step
/// was done.
pub proof fn a_startup_is_ready_when_every_step_is_done(
    mode: args::StartMode,
    outcomes: Seq<StartupOutcome>,
)
    requires
        !mode.preview_crash,
        outcomes.len() >= 4,
        forall|i: int| 0 <= i < 4 ==> (#[trigger] outcomes[i]) is Done,
    ensures
        step_after(mode, outcomes, 4) == (StartupStep::Ended { how: StartupEnd::Ready }),
{
    reveal_with_fuel(step_after, 5);
    assert(outcomes[0] is Done && outcomes[1] is Done && outcomes[2] is Done && outcomes[3] is Done);
}

/// A startup without the check for an update never ends because of one, and the preview of the
/// error state touches neither the repository nor the backend.
pub proof fn previews_skip_the_update(
    mode: args::StartMode,
    outcomes: Seq<StartupOutcome>,
    n: int,
)
    requires
        mode.preview_no_update,
        n >= 0,
    ensures
        step_after(mode, outcomes, n) !is CheckUpdate,
        step_after(mode, outcomes, n) matches StartupStep::Ended { how } ==> how !is Restarting
            && how !is UpdateFailed,
        mode.preview_crash ==> step_after(mode, outcomes, n) == (StartupStep::Ended {
            how: StartupEnd::CrashPreview,
        }),
    decreases n,
{
    if n > 0 {
        previews_skip_the_update(mode, outcomes, n - 1);
    }
}

/// A step that is done leads to the next, from the check for an update over the repository and the
/// backend to the window; one that fails ends the startup with its own failure, and nothing that
/// comes behind it is done.
pub proof fn a_step_that_fails_ends_the_startup(mode: args::StartMode, cancelled: bool)
    ensures
        !mode.preview_no_update ==> first_step(mode) is CheckUpdate,
        !mode.preview_crash ==> next_step(mode, StartupStep::CheckUpdate, StartupOutcome::Done)
            is SetUpRepository,
        next_step(mode, StartupStep::SetUpRepository, StartupOutcome::Done) is StartBackend,
        next_step(mode, StartupStep::StartBackend, StartupOutcome::Done) is OpenWindow,
        next_step(mode, StartupStep::OpenWindow, StartupOutcome::Done) == (StartupStep::Ended {
            how: StartupEnd::Ready,
        }),
        next_step(mode, StartupStep::CheckUpdate, StartupOutcome::Failed { cancelled }) == (
        StartupStep::Ended { how: StartupEnd::UpdateFailed }),
        next_step(mode, StartupStep::SetUpRepository, StartupOutcome::Failed { cancelled: false })
            == (StartupStep::Ended { how: StartupEnd::RepositoryFailed }),
        next_step(mode, StartupStep::SetUpRepository, StartupOutcome::Failed { cancelled: true })
            == (StartupStep::Ended { how: StartupEnd::Cancelled }),
        next_step(mode, StartupStep::StartBackend, StartupOutcome::Failed { cancelled }) == (
        StartupStep::Ended { how: StartupEnd::BackendFailed }),
        next_step(mode, StartupStep::CheckUpdate, StartupOutcome::Restarting) == (
        StartupStep::Ended { how: StartupEnd::Restarting }),
        forall|how: StartupEnd, outcome: StartupOutcome|
            #[trigger] next_step(mode, StartupStep::Ended { how }, outcome) == (
            StartupStep::Ended { how }),
{
}

/// A startup that has ended in the web interface, a restart, a failed update or the preview leaves
/// nothing half done; one whose repository or backend has failed, or that was cancelled, does. Only
/// a restart lets the launcher exit, and a startup never touches what a cleanup has asked for.
pub proof fn an_end_says_what_is_left(how: StartupEnd, step: StartupStep, flags: Flags)
    ensures
        flags_at(step, flags).startup_cleanup_started == flags.startup_cleanup_started,
        flags_at(step, flags).setup_cancel_requested == flags.setup_cancel_requested,
        flags.setup_completed ==> flags_at(step, flags).setup_completed,
        flags.allow_exit ==> flags_at(step, flags).allow_exit,
        flags_at(step, flags).setup_running <==> step !is Ended,
        !flags.allow_exit ==> (flags_at(StartupStep::Ended { how }, flags).allow_exit
            <==> how is Restarting),
        !flags.setup_completed ==> (flags_at(StartupStep::Ended { how }, flags).setup_completed
            <==> !(how is RepositoryFailed || how is Cancelled || how is BackendFailed)),
        step !is Ended ==> flags_at(step, flags).setup_completed == flags.setup_completed
            && flags_at(step, flags).allow_exit == flags.allow_exit,
{
}

/// How a startup has ended decides what the next request to exit leads to: a restart lets the
/// launcher end, one that has succeeded sends the window to the tray, and one that has failed half
/// way has its remains cleaned up first.
pub proof fn the_end_of_a_startup_decides_the_next_exit(how: StartupEnd, flags: Flags)
    requires
        !flags.setup_completed,
        !flags.allow_exit,
        !flags.startup_cleanup_started,
    ensures
        how is Restarting <==> exit_decision(flags_at(StartupStep::Ended { how }, flags))
            is ShutDown,
        how is Ready || how is UpdateFailed || how is CrashPreview <==> exit_decision(
            flags_at(StartupStep::Ended { how }, flags),
        ) is MinimizeToTray,
        how is RepositoryFailed || how is Cancelled || how is BackendFailed <==> exit_decision(
            flags_at(StartupStep::Ended { how }, flags),
        ) is CleanUp,
{
}

/// What a request to exit leads to.
#[derive(Clone, Copy, Debug, PartialEq, Eq, Structural)]
pub enum ExitDecision {
    /// Do not exit yet: clean up what the startup has left half done.
    CleanUp,
    /// Do not exit: the main window goes to the tray.
    MinimizeToTray,
    /// Exit, and stop the backend.
    ShutDown,
}

/// What a request to exit leads to.
pub open spec fn exit_decision(flags: Flags) -> ExitDecision {
    if !flags.setup_completed && !flags.startup_cleanup_started {
        ExitDecision::CleanUp
    } else if !flags.allow_exit {
        ExitDecision::MinimizeToTray
    } else {
        ExitDecision::ShutDown
    }
}

/// What a request to exit leads to.
pub fn on_exit_requested(flags: Flags) -> (r: ExitDecision)
    ensures
        r == exit_decision(flags),
{
    if !flags.setup_completed && !flags.startup_cleanup_started {
        ExitDecision::CleanUp
    } else if !flags.allow_exit {
        ExitDecision::MinimizeToTray
    } else {
        ExitDecision::ShutDown
    }
}

/// What a request to close a window leads to.
#[derive(Clone, Copy, Debug, PartialEq, Eq, Structural)]
pub enum CloseDecision {
    /// The window closes.
    Close,
    /// It stays open, and what the startup has left half done is cleaned up.
    CleanUp,
    /// It stays open, and the launcher exits.
    Exit,
    /// It stays open, and the user is asked whether to exit.
    AskUser,
    /// It stays open: the user is being asked already.
    KeepOpen,
    /// The main window goes to the tray.
    MinimizeToTray,
}

/// What a request to close the window with this label leads to.
pub open spec fn close_decision(
    label: Seq<char>,
    desktop: Desktop,
    prompt_active: bool,
    flags: Flags,
) -> CloseDecision {
    if label == "splash"@ && !flags.setup_completed {
        CloseDecision::CleanUp
    } else if label == "splash"@ && !flags.allow_exit {
        CloseDecision::Exit
    } else if label == "main"@ && !flags.allow_exit {
        match desktop {
            Desktop::Windows => if prompt_active {
                CloseDecision::KeepOpen
            } else {
                CloseDecision::AskUser
            },
            Desktop::MacOs | Desktop::Linux => CloseDecision::MinimizeToTray,
            Desktop::Other => CloseDecision::Close,
        }
    } else {
        CloseDecision::Close
    }
}

/// What a request to close the window with this label leads to.
pub fn on_close_requested(
    label: &str,
    desktop: Desktop,
    prompt_active: bool,
    flags: Flags,
) -> (r: CloseDecision)
    ensures
        r == close_decision(label@, desktop, prompt_active, flags),
{
    proof {
        reveal_strlit("splash");
        reveal_strlit("main");
    }
    if strings::same_text(label, "splash") {
        if !flags.setup_completed {
            CloseDecision::CleanUp
        } else if !flags.allow_exit {
            CloseDecision::Exit
        } else {
            CloseDecision::Close
        }
    } else if strings::same_text(label, "main") && !flags.allow_exit {
        match desktop {
            Desktop::Windows => if prompt_active {
                CloseDecision::KeepOpen
            } else {
                CloseDecision::AskUser
            },
            Desktop::MacOs | Desktop::Linux => CloseDecision::MinimizeToTray,
            Desktop::Other => CloseDecision::Close,
        }
    } else {
        CloseDecision::Close
    }
}

/// What the answer to the question whether to exit leads to.
pub open spec fn answer_decision(asked: bool, should_exit: bool) -> ExitDecision {
    if asked && should_exit {
        ExitDecision::ShutDown
    } else {
        ExitDecision::MinimizeToTray
    }
}

/// The launcher ends only if the user was asked and said so; in any other case the window goes to
/// the tray.
pub proof fn only_a_yes_ends_the_launcher(asked: bool, should_exit: bool)
    ensures
        answer_decision(asked, should_exit) is ShutDown <==> asked && should_exit,
        answer_decision(asked, should_exit) is MinimizeToTray <==> !asked || !should_exit,
{
}

/// What the answer to the question whether to exit leads to; `asked` is false where there was no
/// window to ask in.
pub fn on_close_answer(asked: bool, should_exit: bool) -> (r: ExitDecision)
    ensures
        r == answer_decision(asked, should_exit),
{
    if asked && should_exit {
        ExitDecision::ShutDown
    } else {
        ExitDecision::MinimizeToTray
    }
}

/// The launcher shuts down only where that was allowed, and once the startup is over or its
/// remains are being cleaned up.
pub proof fn the_launcher_shuts_down_only_when_allowed(flags: Flags)
    requires
        exit_decision(flags) is ShutDown,
    ensures
        flags.allow_exit,
        flags.setup_completed || flags.startup_cleanup_started,
{
}

/// Once the startup is over or its remains are being cleaned up, a request to exit ends the launcher
/// where that is allowed, and only sends the window to the tray where it is not.
pub proof fn an_exit_that_is_allowed_ends_the_launcher(flags: Flags)
    requires
        flags.setup_completed || flags.startup_cleanup_started,
    ensures
        flags.allow_exit <==> exit_decision(flags) is ShutDown,
        !flags.allow_exit <==> exit_decision(flags) is MinimizeToTray,
{
}

/// The main window is never just closed while the launcher is to stay, on a system with a tray:
/// Windows asks the user, once at a time, and the others send it to the tray. Where the launcher may
/// exit it closes, and so does every window but the main and the splash one.
pub proof fn the_main_window_stays_with_the_launcher(
    label: Seq<char>,
    desktop: Desktop,
    prompt_active: bool,
    flags: Flags,
)
    ensures
        !flags.allow_exit && desktop is Windows ==> close_decision(
            "main"@,
            desktop,
            prompt_active,
            flags,
        ) == if prompt_active {
            CloseDecision::KeepOpen
        } else {
            CloseDecision::AskUser
        },
        !flags.allow_exit && (desktop is MacOs || desktop is Linux) ==> close_decision(
            "main"@,
            desktop,
            prompt_active,
            flags,
        ) is MinimizeToTray,
        flags.allow_exit ==> close_decision("main"@, desktop, prompt_active, flags) is Close,
        label != "main"@ && label != "splash"@ ==> close_decision(
            label,
            desktop,
            prompt_active,
            flags,
        ) is Close,
        flags.setup_completed && !flags.allow_exit ==> close_decision(
            "splash"@,
            desktop,
            prompt_active,
            flags,
        ) is Exit,
        flags.setup_completed && flags.allow_exit ==> close_decision(
            "splash"@,
            desktop,
            prompt_active,
            flags,
        ) is Close,
        !flags.setup_completed ==> close_decision("splash"@, desktop, prompt_active, flags)
            is CleanUp,
{
    reveal_strlit("main");
    reveal_strlit("splash");
    assert("main"@.len() != "splash"@.len());
}

/// A request to exit, or to close the splash window, has a startup that is not over cleaned up.
pub proof fn an_unfinished_startup_is_cleaned_up(
    desktop: Desktop,
    prompt_active: bool,
    flags: Flags,
)
    requires
        !flags.setup_completed,
        !flags.startup_cleanup_started,
    ensures
        exit_decision(flags) is CleanUp,
        close_decision("splash"@, desktop, prompt_active, flags) is CleanUp,
{
}

/// What a cleanup does next.
#[derive(Clone, Copy, Debug, PartialEq, Eq, Structural)]
pub enum CleanupStep {
    /// Another one is at work already.
    Nothing,
    /// Wait for the setup to stop.
    Wait,
    /// Remove what the startup has left half done.
    Clean,
    /// Exit the launcher.
    Exit,
    /// Say that the cleanup has failed.
    ReportFailure,
}

/// What a request to clean up leads to, and the flags then.
pub open spec fn begun_cleanup(flags: Flags) -> (CleanupStep, Flags) {
    if flags.startup_cleanup_started {
        (CleanupStep::Nothing, flags)
    } else {
        (
            CleanupStep::Wait,
            Flags { startup_cleanup_started: true, setup_cancel_requested: true, ..flags },
        )
    }
}

/// A cleanup has the setup stop, and while it is at work a further request begins no other one and
/// changes nothing. Neither lets the launcher exit nor makes the startup count as over.
pub proof fn one_cleanup_is_at_work_at_a_time(flags: Flags)
    ensures
        begun_cleanup(flags).1.startup_cleanup_started,
        !flags.startup_cleanup_started ==> begun_cleanup(flags).0 is Wait && begun_cleanup(
            flags,
        ).1.setup_cancel_requested,
        begun_cleanup(begun_cleanup(flags).1) == (CleanupStep::Nothing, begun_cleanup(flags).1),
        begun_cleanup(flags).1.allow_exit == flags.allow_exit,
        begun_cleanup(flags).1.setup_completed == flags.setup_completed,
        begun_cleanup(flags).1.setup_running == flags.setup_running,
{
}

/// What a request to clean up leads to, and the flags then: one at a time is at work, and it has the
/// setup stop.
pub fn begin_startup_cleanup(flags: Flags) -> (r: (CleanupStep, Flags))
    ensures
        r == begun_cleanup(flags),
{
    if flags.startup_cleanup_started {
        return (CleanupStep::Nothing, flags);
    }
    let mut after = flags;
    after.startup_cleanup_started = true;
    after.setup_cancel_requested = true;
    (CleanupStep::Wait, after)
}

/// What a cleanup does while it waits for the setup.
pub open spec fn waiting_cleanup(setup_running: bool, elapsed_ms: u64) -> CleanupStep {
    if setup_running && elapsed_ms < SETUP_STOP_TIMEOUT_MS {
        CleanupStep::Wait
    } else {
        CleanupStep::Clean
    }
}

/// A cleanup never begins while the setup runs, but for one that has not stopped in half a minute;
/// and it never waits for a setup that has stopped.
pub proof fn a_cleanup_waits_half_a_minute_at_most(setup_running: bool, elapsed_ms: u64)
    ensures
        waiting_cleanup(false, elapsed_ms) is Clean,
        elapsed_ms < 30 * 1000 ==> waiting_cleanup(true, elapsed_ms) is Wait,
        elapsed_ms >= 30 * 1000 ==> waiting_cleanup(setup_running, elapsed_ms) is Clean,
{
}

/// Whether a cleanup waits on: the setup runs, and it has had less time than it may take to stop.
pub fn cleanup_waits(setup_running: bool, elapsed_ms: u64) -> (r: CleanupStep)
    ensures
        r == waiting_cleanup(setup_running, elapsed_ms),
{
    if setup_running && elapsed_ms < SETUP_STOP_TIMEOUT_MS {
        CleanupStep::Wait
    } else {
        CleanupStep::Clean
    }
}

/// What comes after a cleanup, and the flags then: one that failed may be asked for again.
pub open spec fn after_cleanup(success: bool, flags: Flags) -> (CleanupStep, Flags) {
    if success {
        (CleanupStep::Exit, Flags { allow_exit: true, ..flags })
    } else {
        (CleanupStep::ReportFailure, Flags { startup_cleanup_started: false, ..flags })
    }
}

/// What comes after a cleanup, and the flags then.
pub fn finish_startup_cleanup(success: bool, flags: Flags) -> (r: (CleanupStep, Flags))
    ensures
        r == after_cleanup(success, flags),
{
    let mut after = flags;
    if success {
        after.allow_exit = true;
        (CleanupStep::Exit, after)
    } else {
        after.startup_cleanup_started = false;
        (CleanupStep::ReportFailure, after)
    }
}

/// A cleanup that succeeds lets the launcher shut down when it exits next; one that fails is begun
/// again then, where the startup is not over.
pub proof fn a_cleanup_decides_the_next_exit(success: bool, flags: Flags)
    requires
        flags.startup_cleanup_started,
        !flags.setup_completed,
    ensures
        exit_decision(after_cleanup(success, flags).1) == if success {
            ExitDecision::ShutDown
        } else {
            ExitDecision::CleanUp
        },
{
}

/// A cleanup that succeeds has the launcher exit and lets it, one that fails is reported and may be
/// begun again; neither touches the other flags.
pub proof fn a_cleanup_that_fails_may_be_begun_again(success: bool, flags: Flags)
    requires
        flags.startup_cleanup_started,
    ensures
        after_cleanup(true, flags).0 is Exit && after_cleanup(true, flags).1.allow_exit,
        after_cleanup(false, flags).0 is ReportFailure,
        begun_cleanup(after_cleanup(false, flags).1).0 is Wait,
        begun_cleanup(after_cleanup(true, flags).1).0 is Nothing,
        after_cleanup(false, flags).1.allow_exit == flags.allow_exit,
        after_cleanup(success, flags).1.setup_completed == flags.setup_completed,
        after_cleanup(success, flags).1.setup_running == flags.setup_running,
        after_cleanup(success, flags).1.setup_cancel_requested == flags.setup_cancel_requested,
{
}

/// What becomes of the main window.
#[derive(Clone, Copy, Debug, PartialEq, Eq, Structural)]
pub enum WindowAction {
    /// Bring it to the front, out of the task bar first if it is there.
    Reveal,
    /// Create it anew.
    Recreate,
    /// It is being created anew already.
    Nothing,
    /// It goes to the tray.
    Minimize,
}

/// What is asked for when the launcher is called up: the window if there is one.
pub open spec fn restored(exists: bool, recreating: bool) -> WindowAction {
    if exists {
        WindowAction::Reveal
    } else if recreating {
        WindowAction::Nothing
    } else {
        WindowAction::Recreate
    }
}

/// What becomes of the main window when the launcher is called up.
pub fn restore_main_window_from_tray(exists: bool, recreating: bool) -> (r: WindowAction)
    ensures
        r == restored(exists, recreating),
{
    if exists {
        WindowAction::Reveal
    } else if recreating {
        WindowAction::Nothing
    } else {
        WindowAction::Recreate
    }
}

/// What the main window is seen as, where there is one.
#[derive(Clone, Copy, Debug, PartialEq, Eq, Structural)]
pub struct WindowState {
    pub visible: bool,
    pub minimized: bool,
}

/// What becomes of the main window when its visibility is toggled.
pub open spec fn toggled(window: Option<WindowState>, recreating: bool) -> WindowAction {
    match window {
        Some(state) => if state.visible && !state.minimized {
            WindowAction::Minimize
        } else {
            WindowAction::Reveal
        },
        None => restored(false, recreating),
    }
}

/// A window that is there is called up as it is, and only one that is not there, and is not on its
/// way already, is created anew. To toggle differs from that just where the window can be seen: it
/// goes to the tray then.
pub proof fn a_window_is_created_only_where_there_is_none(
    window: Option<WindowState>,
    recreating: bool,
)
    ensures
        restored(true, recreating) is Reveal,
        restored(false, false) is Recreate,
        restored(false, true) is Nothing,
        toggled(window, recreating) is Minimize <==> (window matches Some(state) && state.visible
            && !state.minimized),
        toggled(window, recreating) !is Minimize ==> toggled(window, recreating) == restored(
            window is Some,
            recreating,
        ),
{
}

/// What becomes of the main window when its visibility is toggled: one that can be seen goes to
/// the tray, any other is called up.
pub fn toggle_main_window_visibility(window: Option<WindowState>, recreating: bool) -> (r:
    WindowAction)
    ensures
        r == toggled(window, recreating),
{
    match window {
        Some(state) => if state.visible && !state.minimized {
            WindowAction::Minimize
        } else {
            WindowAction::Reveal
        },
        None => restore_main_window_from_tray(false, recreating),
    }
}

/// How the main window goes to the tray.
#[derive(Clone, Copy, Debug, PartialEq, Eq, Structural)]
pub struct TrayPlan {
    /// The window is destroyed; else it is hidden.
    pub destroy: bool,
    /// The launcher leaves the dock.
    pub leave_dock: bool,
}

/// How the main window goes to the tray.
pub fn minimize_main_window_to_tray(desktop: Desktop) -> (r: TrayPlan)
    ensures
        r.destroy == (desktop is Windows),
        r.leave_dock == (desktop is MacOs),
{
    match desktop {
        Desktop::Windows => TrayPlan { destroy: true, leave_dock: false },
        Desktop::MacOs => TrayPlan { destroy: false, leave_dock: true },
        Desktop::Linux | Desktop::Other => TrayPlan { destroy: false, leave_dock: false },
    }
}

/// Whether a window is maximized after that was toggled.
pub fn window_toggle_maximize(maximized: bool) -> (r: bool)
    ensures
        r == !maximized,
{
    !maximized
}

/// What the tray's menu asks for.
#[derive(Clone, Copy, Debug, PartialEq, Eq, Structural)]
pub enum TrayCommand {
    ToggleVisibility,
    Quit,
    Unknown,
}

/// What the entry of the tray's menu with this name asks for.
pub open spec fn command_of(id: Seq<char>) -> TrayCommand {
    if id == "toggle_visibility"@ {
        TrayCommand::ToggleVisibility
    } else if id == "quit"@ {
        TrayCommand::Quit
    } else {
        TrayCommand::Unknown
    }
}

/// The launcher quits only by the entry for that, and each entry asks for what it is named after.
pub proof fn an_entry_asks_for_what_it_names(id: Seq<char>)
    ensures
        command_of(id) is Quit <==> id == "quit"@,
        command_of(id) is ToggleVisibility <==> id == "toggle_visibility"@,
{
    reveal_strlit("quit");
    reveal_strlit("toggle_visibility");
    assert("quit"@.len() != "toggle_visibility"@.len());
}

/// What the entry of the tray's menu with this name asks for.
pub fn tray_command(id: &str) -> (r: TrayCommand)
    ensures
        r == command_of(id@),
{
    if strings::same_text(id, "toggle_visibility") {
        TrayCommand::ToggleVisibility
    } else if strings::same_text(id, "quit") {
        TrayCommand::Quit
    } else {
        TrayCommand::Unknown
    }
}

/// The text is a year, a month and a day with dashes between them. The year has four digits, or a
/// sign and four digits or more where it is not one from 0 to 9999; the other two have two.
pub open spec fn is_day(day: Seq<char>) -> bool {
    let n = day.len() as int;
    let year = day.take(n - 6);
    &&& n >= 10
    &&& text::all_digits(year) && year.len() == 4 || (year[0] == '+' || year[0] == '-')
        && text::all_digits(year.skip(1)) && year.len() >= 5
    &&& day[n - 6] == '-'
    &&& text::all_digits(day.subrange(n - 5, n - 3))
    &&& day[n - 3] == '-'
    &&& text::all_digits(day.subrange(n - 2, n))
}

/// The day that chrono's `Local::now` gives, as `format` writes it with `%Y-%m-%d`. Which day it is
/// depends on the clock and the time zone of the machine; that it is written as one does not.
#[verifier::external_body]
fn today() -> (r: String)
    ensures
        is_day(r@),
{
    chrono::Local::now().format("%Y-%m-%d").to_string()
}

/// The name of the web interface's log of a day.
pub open spec fn gui_log_name(day: Seq<char>) -> Seq<char> {
    day + "_gui.txt"@
}

/// The name of the launcher's log of a day.
pub open spec fn launcher_log_name(day: Seq<char>) -> Seq<char> {
    day + "_launcher.txt"@
}

/// Each day has logs of its own, which start with the day, and the log of the web interface is not
/// that of the launcher.
pub proof fn each_day_has_logs_of_its_own(day: Seq<char>, other: Seq<char>)
    ensures
        text::starts_with(gui_log_name(day), day),
        text::starts_with(launcher_log_name(day), day),
        gui_log_name(day) == gui_log_name(other) ==> day == other,
        launcher_log_name(day) == launcher_log_name(other) ==> day == other,
        gui_log_name(day) != launcher_log_name(other),
{
    reveal_strlit("_gui.txt");
    reveal_strlit("_launcher.txt");
    let (a, b) = (gui_log_name(day), launcher_log_name(day));
    let (c, d) = (gui_log_name(other), launcher_log_name(other));
    assert(a.take(day.len() as int) =~= day);
    assert(b.take(day.len() as int) =~= day);
    assert(c.take(other.len() as int) =~= other);
    assert(d.take(other.len() as int) =~= other);
    assert(a.len() != b.len());
    if a == d {
        assert(a[a.len() - 5] == 'i');
        assert(d[d.len() - 5] == 'r');
    }
}

/// The name of the web interface's log of a day.
pub fn gui_log_filename(day: &str) -> (r: String)
    ensures
        r@ == gui_log_name(day@),
{
    let mut name: String = day.to_owned();
    name.append("_gui.txt");
    name
}

/// The name of the launcher's log of a day.
pub fn launcher_log_filename(day: &str) -> (r: String)
    ensures
        r@ == launcher_log_name(day@),
{
    let mut name: String = day.to_owned();
    name.append("_launcher.txt");
    name
}

/// The name is that of a day with `ending` behind it.
pub open spec fn is_log_name(name: Seq<char>, ending: Seq<char>, day: Seq<char>) -> bool {
    name == day + ending
}

/// The name of the web interface's log of today.
pub fn today_gui_log_filename() -> (r: String)
    ensures
        exists|day: Seq<char>| is_day(day) && #[trigger] is_log_name(r@, "_gui.txt"@, day),
{
    let day = today();
    let name = gui_log_filename(day.as_str());
    assert(is_log_name(name@, "_gui.txt"@, day@));
    name
}

/// The name of the launcher's log of today.
pub fn today_launcher_log_filename() -> (r: String)
    ensures
        exists|day: Seq<char>| is_day(day) && #[trigger] is_log_name(r@, "_launcher.txt"@, day),
{
    let day = today();
    let name = launcher_log_filename(day.as_str());
    assert(is_log_name(name@, "_launcher.txt"@, day@));
    name
}

} // verus!
