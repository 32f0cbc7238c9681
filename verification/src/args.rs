//! The switches among the arguments of the launcher.

use vstd::prelude::*;

use crate::strings;
use crate::text;

verus! {

/// The switches that leave the update check out.
pub const PREVIEW_NO_UPDATE_ARGS: [&'static str; 7] = [
    "--preview-no-update",
    "--skip-update",
    "--no-update",
    "--disable-update",
    "/preview-no-update",
    "/skip-update",
    "/no-update",
];

/// The switches that show the splash window in its error state.
pub const PREVIEW_CRASH_ARGS: [&'static str; 6] = [
    "--preview-crash",
    "--preview-error",
    "--crash-preview",
    "--error-preview",
    "/preview-crash",
    "/preview-error",
];

/// The switch by which the launcher is started to put an update in place.
pub const LAUNCHER_UPDATE_APPLY_ARG: &'static str = "--apply-launcher-update";

/// One of the arguments is one of the flags, in whatever case its ASCII letters are.
pub open spec fn has_flag(args: Seq<Seq<char>>, flags: Seq<&'static str>) -> bool {
    exists|i: int|
        0 <= i < args.len() && strings::listed(flags, text::ascii_lower(#[trigger] args[i]))
}

/// Whether one of the arguments, of which the program's name is none, is one of the flags.
pub fn launcher_arg_present(args: &Vec<String>, flags: &[&'static str]) -> (r: bool)
    ensures
        r == has_flag(text::views(args@), flags@),
{
    let ghost all = text::views(args@);
    for i in 0..args.len()
        invariant
            all == text::views(args@),
            forall|j: int|
                0 <= j < i ==> !strings::listed(flags@, text::ascii_lower(#[trigger] all[j])),
    {
        assert(all[i as int] == args@[i as int]@);
        if strings::is_one_of(strings::lowered_string(args[i].as_str()).as_str(), flags) {
            return true;
        }
    }
    false
}

/// Whether the update check is to be left out.
pub fn preview_no_update_arg_present(args: &Vec<String>) -> (r: bool)
    ensures
        r == has_flag(text::views(args@), PREVIEW_NO_UPDATE_ARGS@),
{
    launcher_arg_present(args, &PREVIEW_NO_UPDATE_ARGS)
}

/// Whether the splash window is to be shown in its error state.
pub fn preview_crash_arg_present(args: &Vec<String>) -> (r: bool)
    ensures
        r == has_flag(text::views(args@), PREVIEW_CRASH_ARGS@),
{
    launcher_arg_present(args, &PREVIEW_CRASH_ARGS)
}

/// How the launcher starts.
#[derive(Clone, Copy, Debug, PartialEq, Eq, Structural)]
pub struct StartMode {
    pub preview_crash: bool,
    pub preview_no_update: bool,
}

/// How the arguments ask the launcher to start.
pub open spec fn mode_of(args: Seq<Seq<char>>) -> StartMode {
    StartMode {
        preview_crash: has_flag(args, PREVIEW_CRASH_ARGS@),
        preview_no_update: has_flag(args, PREVIEW_CRASH_ARGS@) || has_flag(
            args,
            PREVIEW_NO_UPDATE_ARGS@,
        ),
    }
}

/// A flag counts wherever it stands among the arguments and in whatever case its letters are, and
/// no other argument takes it away: arguments together have the flags that each of them has.
pub proof fn a_flag_counts_wherever_it_stands(
    first: Seq<Seq<char>>,
    arg: Seq<char>,
    rest: Seq<Seq<char>>,
    flags: Seq<&'static str>,
    i: int,
)
    ensures
        has_flag(first + seq![arg] + rest, flags) <==> has_flag(first, flags) || has_flag(
            seq![arg],
            flags,
        ) || has_flag(rest, flags),
        0 <= i < flags.len() && text::ascii_lower(arg) == flags[i]@ ==> has_flag(seq![arg], flags),
        has_flag(seq![arg], flags) <==> has_flag(seq![text::ascii_lower(arg)], flags),
        !has_flag(Seq::empty(), flags),
{
    let all = first + seq![arg] + rest;
    let n = first.len() as int;
    text::lemma_lower_twice(arg);
    if 0 <= i < flags.len() && text::ascii_lower(arg) == flags[i]@ {
        assert(strings::listed(flags, text::ascii_lower(seq![arg][0])));
    }
    assert(has_flag(seq![arg], flags) ==> strings::listed(flags, text::ascii_lower(arg)));
    assert(has_flag(seq![text::ascii_lower(arg)], flags) ==> strings::listed(
        flags,
        text::ascii_lower(text::ascii_lower(arg)),
    ));
    if has_flag(seq![arg], flags) {
        assert(strings::listed(flags, text::ascii_lower(seq![text::ascii_lower(arg)][0])));
        assert(all[n] == arg);
        assert(strings::listed(flags, text::ascii_lower(all[n])));
    }
    if has_flag(seq![text::ascii_lower(arg)], flags) {
        assert(strings::listed(flags, text::ascii_lower(seq![arg][0])));
    }
    if has_flag(first, flags) {
        let j = choose|j: int|
            0 <= j < first.len() && strings::listed(flags, text::ascii_lower(#[trigger] first[j]));
        assert(all[j] == first[j]);
    }
    if has_flag(rest, flags) {
        let j = choose|j: int|
            0 <= j < rest.len() && strings::listed(flags, text::ascii_lower(#[trigger] rest[j]));
        assert(all[n + 1 + j] == rest[j]);
    }
    if has_flag(all, flags) {
        let j = choose|j: int|
            0 <= j < all.len() && strings::listed(flags, text::ascii_lower(#[trigger] all[j]));
        if j < n {
            assert(first[j] == all[j]);
        } else if j == n {
            assert(seq![arg][0] == all[j]);
        } else {
            assert(rest[j - n - 1] == all[j]);
        }
    }
}

/// The error preview leaves the update check out too, without any flag for that; the check is left
/// out only if one of the two is asked for.
pub proof fn the_error_preview_checks_no_update(args: Seq<Seq<char>>)
    ensures
        mode_of(args).preview_crash ==> mode_of(args).preview_no_update,
        mode_of(args).preview_crash <==> has_flag(args, PREVIEW_CRASH_ARGS@),
        has_flag(args, PREVIEW_NO_UPDATE_ARGS@) ==> mode_of(args).preview_no_update,
        !has_flag(args, PREVIEW_NO_UPDATE_ARGS@) && !has_flag(args, PREVIEW_CRASH_ARGS@)
            ==> !mode_of(args).preview_no_update,
{
}

/// How the arguments ask the launcher to start: the error preview leaves the update check out too.
pub fn start_mode(args: &Vec<String>) -> (r: StartMode)
    ensures
        r == mode_of(text::views(args@)),
        r.preview_crash == has_flag(text::views(args@), PREVIEW_CRASH_ARGS@),
        r.preview_no_update == (has_flag(text::views(args@), PREVIEW_CRASH_ARGS@) || has_flag(
            text::views(args@),
            PREVIEW_NO_UPDATE_ARGS@,
        )),
{
    let preview_crash = preview_crash_arg_present(args);
    StartMode {
        preview_crash,
        preview_no_update: preview_crash || preview_no_update_arg_present(args),
    }
}

/// What the arguments say of an update that is to be put in place.
#[derive(Clone, Copy, Debug, PartialEq, Eq, Structural)]
pub enum ApplyRequest {
    /// The launcher was started for something else.
    NotAsked,
    MissingTarget,
    MissingPayload,
    /// The two arguments after the switch are the target and the payload.
    Apply,
}

/// What arguments that start with `first` and go on with `rest` more say of an update that is to
/// be put in place.
pub open spec fn request_of(first: Option<Seq<char>>, rest: nat) -> ApplyRequest {
    match first {
        Some(mode) => if mode != LAUNCHER_UPDATE_APPLY_ARG@ {
            ApplyRequest::NotAsked
        } else if rest == 0 {
            ApplyRequest::MissingTarget
        } else if rest == 1 {
            ApplyRequest::MissingPayload
        } else {
            ApplyRequest::Apply
        },
        None => ApplyRequest::NotAsked,
    }
}

/// An update is put in place only where the switch for it comes first and two arguments follow; with
/// fewer it is told which one is missing, and without the switch the launcher starts as usual.
pub proof fn an_update_needs_target_and_payload(first: Option<Seq<char>>, rest: nat)
    ensures
        request_of(first, rest) is NotAsked <==> first != Some("--apply-launcher-update"@),
        request_of(first, rest) is Apply <==> first == Some("--apply-launcher-update"@) && rest >= 2,
        request_of(first, rest) is MissingTarget ==> rest == 0,
        request_of(first, rest) is MissingPayload ==> rest == 1,
{
}

/// What arguments that start with `first` and go on with `rest` more say of an update that is to
/// be put in place.
pub fn apply_request(first: Option<&str>, rest: usize) -> (r: ApplyRequest)
    ensures
        r == request_of(
            match first {
                Some(mode) => Some(mode@),
                None => None,
            },
            rest as nat,
        ),
{
    match first {
        Some(mode) => if !strings::same_text(mode, LAUNCHER_UPDATE_APPLY_ARG) {
            ApplyRequest::NotAsked
        } else if rest == 0 {
            ApplyRequest::MissingTarget
        } else if rest == 1 {
            ApplyRequest::MissingPayload
        } else {
            ApplyRequest::Apply
        },
        None => ApplyRequest::NotAsked,
    }
}

/// The update check is left out by the seven switches for that, the error preview asked for by its
/// six, and by no other word.
pub proof fn each_switch_is_known(word: Seq<char>)
    ensures
        strings::listed(PREVIEW_NO_UPDATE_ARGS@, word) <==> word == "--preview-no-update"@ || word
            == "--skip-update"@ || word == "--no-update"@ || word == "--disable-update"@ || word
            == "/preview-no-update"@ || word == "/skip-update"@ || word == "/no-update"@,
        strings::listed(PREVIEW_CRASH_ARGS@, word) <==> word == "--preview-crash"@ || word
            == "--preview-error"@ || word == "--crash-preview"@ || word == "--error-preview"@ || word
            == "/preview-crash"@ || word == "/preview-error"@,
{
    let a = PREVIEW_NO_UPDATE_ARGS@;
    assert(a.len() == 7);
    assert(a[0]@ == "--preview-no-update"@ && a[1]@ == "--skip-update"@ && a[2]@ == "--no-update"@
        && a[3]@ == "--disable-update"@ && a[4]@ == "/preview-no-update"@ && a[5]@ == "/skip-update"@
        && a[6]@ == "/no-update"@);
    let b = PREVIEW_CRASH_ARGS@;
    assert(b.len() == 6);
    assert(b[0]@ == "--preview-crash"@ && b[1]@ == "--preview-error"@ && b[2]@ == "--crash-preview"@
        && b[3]@ == "--error-preview"@ && b[4]@ == "/preview-crash"@ && b[5]@ == "/preview-error"@);
}

} // verus!
