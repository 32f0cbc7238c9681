//! The update of the launcher at its start: the checks that lead to a new launcher, and what ends
//! them.

use vstd::prelude::*;

use crate::strings;
use crate::text;
use crate::versions;

verus! {

/// Where the manifest of the newest launcher is found.
pub const LAUNCHER_UPDATE_URL: &'static str = "https://alas.nanoda.work/updata/stable.json";

/// Set in the environment of a launcher that an update has just started.
pub const LAUNCHER_UPDATE_SKIP_ENV: &'static str = "AZURPILOT_SKIP_LAUNCHER_UPDATE";

/// Set in the environment of a launcher that is to have no console.
pub const LAUNCHER_UPDATE_NO_CONSOLE_ENV: &'static str = "AZURPILOT_NO_ATTACH_CONSOLE";

/// How often the new launcher is moved into the place of the old one before that is given up.
pub const APPLY_ATTEMPTS: u32 = 60;

/// The headers that the requests for an update carry.
pub const BROWSER_HEADERS: [(&'static str, &'static str); 3] = [
    (
        "user-agent",
        "Mozilla/5.0 (Windows NT 10.0; Win64; x64) AppleWebKit/537.36 (KHTML, like Gecko) Chrome/125.0.0.0 Safari/537.36 AZURPILOT_LAUNCHER_UPDATE/2.0.4",
    ),
    ("accept", "application/octet-stream,application/json,text/plain,*/*;q=0.8"),
    ("accept-language", "zh-CN,zh;q=0.9,en;q=0.8"),
];

/// The launcher for one platform.
#[derive(Clone, Debug)]
pub struct PlatformRelease {
    pub url: String,
    pub sha256: String,
}

/// The launcher for the platform of which the key is given.
#[derive(Debug)]
pub struct PlatformEntry {
    pub key: String,
    pub release: PlatformRelease,
}

/// What is published of the newest launcher.
#[derive(Debug)]
pub struct UpdateManifest {
    pub version: String,
    pub notes: Option<String>,
    pub platforms: Vec<PlatformEntry>,
}

/// The release for the platform `key`, the first one from `from` on.
pub open spec fn release_from(
    platforms: Seq<PlatformEntry>,
    key: Seq<char>,
    from: int,
) -> Option<PlatformRelease>
    decreases platforms.len() - from,
{
    if from < 0 || from >= platforms.len() {
        None
    } else if platforms[from].key@ == key {
        Some(platforms[from].release)
    } else {
        release_from(platforms, key, from + 1)
    }
}

/// The release for the platform `key`.
pub open spec fn release_for(manifest: UpdateManifest, key: Seq<char>) -> Option<PlatformRelease> {
    release_from(manifest.platforms@, key, 0)
}

/// The release for the platform `key`.
pub fn find_release(manifest: &UpdateManifest, key: &str) -> (r: Option<PlatformRelease>)
    ensures
        r == release_for(*manifest, key@),
{
    let total: usize = manifest.platforms.len();
    let mut i: usize = 0;
    while i < total
        invariant
            total == manifest.platforms@.len(),
            i <= total,
            release_for(*manifest, key@) == release_from(manifest.platforms@, key@, i as int),
        decreases total - i,
    {
        let entry = &manifest.platforms[i];
        if strings::same_text(entry.key.as_str(), key) {
            return Some(
                PlatformRelease {
                    url: entry.release.url.clone(),
                    sha256: entry.release.sha256.clone(),
                },
            );
        }
        i = i + 1;
    }
    None
}

proof fn lemma_release_from(platforms: Seq<PlatformEntry>, key: Seq<char>, from: int)
    requires
        0 <= from,
    ensures
        match release_from(platforms, key, from) {
            Some(release) => exists|i: int|
                from <= i < platforms.len() && (#[trigger] platforms[i]).key@ == key
                    && platforms[i].release == release,
            None => forall|i: int|
                from <= i < platforms.len() ==> (#[trigger] platforms[i]).key@ != key,
        },
    decreases platforms.len() - from,
{
    if from < platforms.len() && platforms[from].key@ != key {
        lemma_release_from(platforms, key, from + 1);
    }
}

/// In a manifest in which no key stands twice, the release found for a key is the only one that the
/// manifest has for it, and one is found for every key that stands in it.
pub proof fn the_release_for_a_key_is_the_only_one(
    manifest: UpdateManifest,
    key: Seq<char>,
    i: int,
)
    requires
        manifest.well_formed(),
        0 <= i < manifest.platforms@.len(),
        manifest.platforms@[i].key@ == key,
    ensures
        release_for(manifest, key) == Some(manifest.platforms@[i].release),
{
    lemma_release_from(manifest.platforms@, key, 0);
}

impl UpdateManifest {
    /// No key stands in it twice.
    pub open spec fn well_formed(self) -> bool {
        forall|i: int, j: int|
            0 <= i < j < self.platforms@.len() ==> (#[trigger] self.platforms@[i]).key@ != (
            #[trigger] self.platforms@[j]).key@
    }

    /// A manifest with a release for no platform.
    pub fn new(version: String, notes: Option<String>) -> (r: Self)
        ensures
            r.well_formed(),
            r.version == version,
            r.notes == notes,
            r.platforms@.len() == 0,
    {
        UpdateManifest { version, notes, platforms: Vec::new() }
    }

    /// Puts in the release for a platform, in the place of the one that it had.
    pub fn insert(&mut self, key: String, release: PlatformRelease)
        requires
            old(self).well_formed(),
        ensures
            final(self).well_formed(),
            final(self).version == old(self).version,
            final(self).notes == old(self).notes,
            forall|other: Seq<char>| #[trigger]
                release_for(*final(self), other) == if other == key@ {
                    Some(release)
                } else {
                    release_for(*old(self), other)
                },
    {
        let total: usize = self.platforms.len();
        let mut i: usize = 0;
        while i < total && !strings::same_text(self.platforms[i].key.as_str(), key.as_str())
            invariant
                total == self.platforms@.len(),
                i <= total,
                *self == *old(self),
                forall|j: int| 0 <= j < i ==> (#[trigger] self.platforms@[j]).key@ != key@,
            decreases total - i,
        {
            i = i + 1;
        }
        let ghost before = self.platforms@;
        let ghost name = key@;
        let entry = PlatformEntry { key, release };
        if i < total {
            self.platforms.set(i, entry);
        } else {
            self.platforms.push(entry);
        }
        proof {
            let after = self.platforms@;
            assert(after[i as int] == entry);
            assert forall|j: int| 0 <= j < before.len() && j != i implies #[trigger] after[j]
                == before[j] by {}
            assert(self.well_formed());
            assert forall|other: Seq<char>| #[trigger]
                release_for(*self, other) == if other == name {
                    Some(release)
                } else {
                    release_for(*old(self), other)
                } by {
                lemma_release_from(after, other, 0);
                lemma_release_from(before, other, 0);
                if other == name {
                    the_release_for_a_key_is_the_only_one(*self, other, i as int);
                } else if release_for(*old(self), other) is Some {
                    let k = choose|k: int|
                        0 <= k < before.len() && (#[trigger] before[k]).key@ == other;
                    assert(after[k] == before[k]);
                    the_release_for_a_key_is_the_only_one(*self, other, k);
                    the_release_for_a_key_is_the_only_one(*old(self), other, k);
                } else if release_for(*self, other) is Some {
                    let k = choose|k: int|
                        0 <= k < after.len() && (#[trigger] after[k]).key@ == other;
                    assert(k != i);
                    assert(after[k] == before[k]);
                }
            }
        }
    }
}

/// The key of the platform of the launcher.
pub open spec fn launcher_platform(os: Seq<char>, arch: Seq<char>) -> Seq<char> {
    if os == "macos"@ && arch == "aarch64"@ {
        "darwin-aarch64"@
    } else if os == "macos"@ && arch == "x86_64"@ {
        "darwin-x86_64"@
    } else if os == "linux"@ && arch == "x86_64"@ {
        "linux-x86_64"@
    } else if os == "linux"@ && arch == "aarch64"@ {
        "linux-aarch64"@
    } else if os == "windows"@ && arch == "x86_64"@ {
        "windows-x86_64"@
    } else if os == "windows"@ && arch == "x86"@ {
        "windows-i686"@
    } else if os == "windows"@ && arch == "aarch64"@ {
        "windows-aarch64"@
    } else {
        "unknown"@
    }
}

/// The key of the platform of the launcher.
pub fn launcher_update_platform_key(os: &str, arch: &str) -> (r: &'static str)
    ensures
        r@ == launcher_platform(os@, arch@),
{
    let on_macos = strings::same_text(os, "macos");
    let on_linux = strings::same_text(os, "linux");
    let on_windows = strings::same_text(os, "windows");
    let aarch64 = strings::same_text(arch, "aarch64");
    let x86_64 = strings::same_text(arch, "x86_64");
    let x86 = strings::same_text(arch, "x86");
    if on_macos && aarch64 {
        "darwin-aarch64"
    } else if on_macos && x86_64 {
        "darwin-x86_64"
    } else if on_linux && x86_64 {
        "linux-x86_64"
    } else if on_linux && aarch64 {
        "linux-aarch64"
    } else if on_windows && x86_64 {
        "windows-x86_64"
    } else if on_windows && x86 {
        "windows-i686"
    } else if on_windows && aarch64 {
        "windows-aarch64"
    } else {
        "unknown"
    }
}

/// The launcher that looks for an update.
#[derive(Debug)]
pub struct Launcher {
    pub version: String,
    pub platform: String,
}

impl Launcher {
    /// It has to be replaced by a full launcher before it can do anything.
    pub open spec fn is_mini(self) -> bool {
        versions::without_v(self.version@) == versions::MINI_LAUNCHER_VERSION@
    }
}

/// Why the update has failed.
#[derive(Debug)]
pub enum UpdateFailure {
    /// Nothing could be learnt of the newest launcher.
    CheckFailed { error: String },
    /// There is none that is newer.
    UpdateMissing { current: String, latest: String },
    /// There is none for the platform.
    PayloadMissing { platform: String },
    /// A step on the launcher's own files has failed.
    Broken { error: String },
}

/// What comes next in the update.
#[derive(Debug)]
pub enum UpdateStep {
    /// Make ready what sends requests.
    BuildClient,
    /// Request the manifest and read it.
    FetchManifest,
    /// Say that there is a new launcher, and find where the file of this one lies.
    LocateExecutable { version: String, release: PlatformRelease },
    /// Download the new launcher and check its digest.
    Download { release: PlatformRelease },
    MakeExecutable,
    /// Say that the launcher restarts, put the new one in its place and start it.
    Replace,
    /// The update is over: the new launcher has been started, or this one goes on.
    Finished { restarting: bool },
    Failed { failure: UpdateFailure },
}

/// How a step has ended.
#[derive(Debug)]
pub enum StepOutcome {
    Done,
    Manifest { manifest: UpdateManifest },
    Failed { error: String },
}

/// What a failure leads to that a full launcher can live with.
pub open spec fn unless_mini(launcher: Launcher, failure: UpdateFailure) -> UpdateStep {
    if launcher.is_mini() {
        UpdateStep::Failed { failure }
    } else {
        UpdateStep::Finished { restarting: false }
    }
}

/// What comes after the manifest has been read.
pub open spec fn after_manifest(launcher: Launcher, manifest: UpdateManifest) -> UpdateStep {
    if !versions::is_newer(launcher.version@, manifest.version@) {
        unless_mini(
            launcher,
            UpdateFailure::UpdateMissing { current: launcher.version, latest: manifest.version },
        )
    } else {
        match release_for(manifest, launcher.platform@) {
            Some(release) => UpdateStep::LocateExecutable { version: manifest.version, release },
            None => unless_mini(
                launcher,
                UpdateFailure::PayloadMissing { platform: launcher.platform },
            ),
        }
    }
}

/// What comes after a step has ended. An outcome that the step cannot have, and any after the end,
/// leaves things as they are.
pub open spec fn next_step(
    launcher: Launcher,
    step: UpdateStep,
    outcome: StepOutcome,
) -> UpdateStep {
    match (step, outcome) {
        (UpdateStep::BuildClient, StepOutcome::Done) => UpdateStep::FetchManifest,
        (UpdateStep::BuildClient, StepOutcome::Failed { error }) => unless_mini(
            launcher,
            UpdateFailure::CheckFailed { error },
        ),
        (UpdateStep::FetchManifest, StepOutcome::Manifest { manifest }) => after_manifest(
            launcher,
            manifest,
        ),
        (UpdateStep::FetchManifest, StepOutcome::Failed { error }) => unless_mini(
            launcher,
            UpdateFailure::CheckFailed { error },
        ),
        (
            UpdateStep::LocateExecutable { version: _, release },
            StepOutcome::Done,
        ) => UpdateStep::Download { release },
        (
            UpdateStep::LocateExecutable { version: _, release: _ },
            StepOutcome::Failed { error },
        ) => UpdateStep::Failed { failure: UpdateFailure::Broken { error } },
        (UpdateStep::Download { release: _ }, StepOutcome::Done) => UpdateStep::MakeExecutable,
        (UpdateStep::Download { release: _ }, StepOutcome::Failed { error }) => unless_mini(
            launcher,
            UpdateFailure::Broken { error },
        ),
        (UpdateStep::MakeExecutable, StepOutcome::Done) => UpdateStep::Replace,
        (UpdateStep::MakeExecutable, StepOutcome::Failed { error }) => UpdateStep::Failed {
            failure: UpdateFailure::Broken { error },
        },
        (UpdateStep::Replace, StepOutcome::Done) => UpdateStep::Finished { restarting: true },
        (UpdateStep::Replace, StepOutcome::Failed { error }) => unless_mini(
            launcher,
            UpdateFailure::Broken { error },
        ),
        (step, _) => step,
    }
}

fn give_up_if_mini(launcher: &Launcher, failure: UpdateFailure) -> (r: UpdateStep)
    ensures
        r == unless_mini(*launcher, failure),
{
    if versions::launcher_version_is_mini(launcher.version.as_str()) {
        UpdateStep::Failed { failure }
    } else {
        UpdateStep::Finished { restarting: false }
    }
}

/// Where the update starts.
pub open spec fn first_step(skip: bool) -> UpdateStep {
    if skip {
        UpdateStep::Finished { restarting: false }
    } else {
        UpdateStep::BuildClient
    }
}

/// A launcher that an update has just started goes on as it is, without a restart, so that an update
/// is never followed by another; every other one looks for an update.
pub proof fn an_update_is_not_followed_by_another(skip: bool)
    ensures
        is_over(first_step(skip)) <==> skip,
        first_step(true) == (UpdateStep::Finished { restarting: false }),
        steps_left(first_step(false)) == 6,
{
}

/// Where the update starts. A launcher that an update has just started looks for none.
pub fn first_update_step(skip: bool) -> (r: UpdateStep)
    ensures
        r == first_step(skip),
{
    if skip {
        UpdateStep::Finished { restarting: false }
    } else {
        UpdateStep::BuildClient
    }
}

fn decide_on_manifest(launcher: &Launcher, manifest: UpdateManifest) -> (r: UpdateStep)
    ensures
        r == after_manifest(*launcher, manifest),
{
    if !versions::launcher_version_is_newer(launcher.version.as_str(), manifest.version.as_str()) {
        let current = launcher.version.clone();
        return give_up_if_mini(
            launcher,
            UpdateFailure::UpdateMissing { current, latest: manifest.version },
        );
    }
    match find_release(&manifest, launcher.platform.as_str()) {
        Some(release) => UpdateStep::LocateExecutable { version: manifest.version, release },
        None => {
            let platform = launcher.platform.clone();
            give_up_if_mini(launcher, UpdateFailure::PayloadMissing { platform })
        },
    }
}

/// What comes after a step of the update has ended.
pub fn check_launcher_update_and_restart(
    launcher: &Launcher,
    step: UpdateStep,
    outcome: StepOutcome,
) -> (r: UpdateStep)
    ensures
        r == next_step(*launcher, step, outcome),
{
    match (step, outcome) {
        (UpdateStep::BuildClient, StepOutcome::Done) => UpdateStep::FetchManifest,
        (UpdateStep::BuildClient, StepOutcome::Failed { error }) => give_up_if_mini(
            launcher,
            UpdateFailure::CheckFailed { error },
        ),
        (UpdateStep::FetchManifest, StepOutcome::Manifest { manifest }) => decide_on_manifest(
            launcher,
            manifest,
        ),
        (UpdateStep::FetchManifest, StepOutcome::Failed { error }) => give_up_if_mini(
            launcher,
            UpdateFailure::CheckFailed { error },
        ),
        (UpdateStep::LocateExecutable { version: _, release }, StepOutcome::Done) => {
            UpdateStep::Download { release }
        },
        (
            UpdateStep::LocateExecutable { version: _, release: _ },
            StepOutcome::Failed { error },
        ) => UpdateStep::Failed { failure: UpdateFailure::Broken { error } },
        (UpdateStep::Download { release: _ }, StepOutcome::Done) => UpdateStep::MakeExecutable,
        (UpdateStep::Download { release: _ }, StepOutcome::Failed { error }) => give_up_if_mini(
            launcher,
            UpdateFailure::Broken { error },
        ),
        (UpdateStep::MakeExecutable, StepOutcome::Done) => UpdateStep::Replace,
        (UpdateStep::MakeExecutable, StepOutcome::Failed { error }) => UpdateStep::Failed {
            failure: UpdateFailure::Broken { error },
        },
        (UpdateStep::Replace, StepOutcome::Done) => UpdateStep::Finished { restarting: true },
        (UpdateStep::Replace, StepOutcome::Failed { error }) => give_up_if_mini(
            launcher,
            UpdateFailure::Broken { error },
        ),
        (step, _) => step,
    }
}

/// The bar position that a step is announced with, if it is.
pub open spec fn announced(step: UpdateStep) -> Option<u8> {
    match step {
        UpdateStep::LocateExecutable { .. } => Some(8u8),
        UpdateStep::Replace => Some(100u8),
        _ => None,
    }
}

/// A new launcher is announced just when it has been found, with a bar that has hardly begun, and
/// when it is put in place, with a full one.
pub proof fn a_new_launcher_is_announced(step: UpdateStep)
    ensures
        announced(step) is Some <==> step is LocateExecutable || step is Replace,
        step is Replace ==> announced(step) == Some(100u8),
        step is LocateExecutable ==> announced(step) == Some(8u8),
{
}

/// The bar position that a step is announced with, if it is.
pub fn announced_progress(step: &UpdateStep) -> (r: Option<u8>)
    ensures
        r == announced(*step),
{
    match step {
        UpdateStep::LocateExecutable { .. } => Some(8),
        UpdateStep::Replace => Some(100),
        _ => None,
    }
}

/// The step is the last one.
pub open spec fn is_over(step: UpdateStep) -> bool {
    step is Finished || step is Failed
}

/// A full launcher goes on without an update whatever fails, but for its own file: not to find it,
/// or not to be able to make the new one executable, is an error.
pub proof fn a_full_launcher_goes_on(launcher: Launcher, step: UpdateStep, outcome: StepOutcome)
    requires
        !launcher.is_mini(),
        !is_over(step),
        next_step(launcher, step, outcome) is Failed,
    ensures
        step is LocateExecutable || step is MakeExecutable,
        outcome matches StepOutcome::Failed { error } && next_step(launcher, step, outcome)
            == (UpdateStep::Failed { failure: UpdateFailure::Broken { error } }),
{
}

/// A mini launcher never goes on without an update: once it looks for one, it ends in a restart or
/// in a failure.
pub proof fn a_mini_launcher_does_not_go_on(
    launcher: Launcher,
    step: UpdateStep,
    outcome: StepOutcome,
)
    requires
        launcher.is_mini(),
        !is_over(step),
    ensures
        next_step(launcher, step, outcome) matches UpdateStep::Finished { restarting }
            ==> restarting && step is Replace && outcome is Done,
{
}

/// What is downloaded is the release of a newer launcher for the launcher's own platform.
pub proof fn only_a_newer_release_is_taken(
    launcher: Launcher,
    step: UpdateStep,
    outcome: StepOutcome,
)
    requires
        step !is LocateExecutable,
    ensures
        next_step(launcher, step, outcome) matches UpdateStep::LocateExecutable {
            version,
            release,
        } ==> (outcome matches StepOutcome::Manifest { manifest } && step is FetchManifest
            && version == manifest.version && versions::is_newer(launcher.version@, version@)
            && release_for(manifest, launcher.platform@) == Some(release)),
{
}

/// A launcher is a mini one just if its version is that of one, with a `v` in front or without.
pub proof fn a_mini_launcher_is_known_by_its_version(launcher: Launcher)
    ensures
        launcher.is_mini() <==> launcher.version@ == "0.0.1"@ || launcher.version@ == "v0.0.1"@,
{
    reveal_strlit("0.0.1");
    reveal_strlit("v0.0.1");
    reveal_strlit("v");
    let version = launcher.version@;
    if version == "v0.0.1"@ {
        assert(version.take(1) =~= "v"@);
        assert(version.skip(1) =~= "0.0.1"@);
    }
    if version == "0.0.1"@ && text::starts_with(version, "v"@) {
        assert(version.take(1)[0] == 'v');
    }
    if launcher.is_mini() && text::starts_with(version, "v"@) {
        assert(version.take(1)[0] == 'v');
        assert(version =~= seq!['v'] + version.skip(1));
        assert(version =~= "v0.0.1"@);
    }
}

/// A manifest with a newer version and a release for the launcher's platform has that version and
/// that release taken, and where every step is done the launcher restarts: the steps are to request
/// the manifest, to find the launcher's file, to download that very release, to make it executable
/// and to put it in place.
pub proof fn a_newer_release_is_installed(
    launcher: Launcher,
    manifest: UpdateManifest,
    release: PlatformRelease,
)
    requires
        versions::is_newer(launcher.version@, manifest.version@),
        release_for(manifest, launcher.platform@) == Some(release),
    ensures
        ({
            let requested = next_step(launcher, UpdateStep::BuildClient, StepOutcome::Done);
            let found = next_step(launcher, requested, StepOutcome::Manifest { manifest });
            let located = next_step(launcher, found, StepOutcome::Done);
            let downloaded = next_step(launcher, located, StepOutcome::Done);
            let ready = next_step(launcher, downloaded, StepOutcome::Done);
            let restarted = next_step(launcher, ready, StepOutcome::Done);
            &&& found == (UpdateStep::LocateExecutable { version: manifest.version, release })
            &&& located == (UpdateStep::Download { release })
            &&& downloaded is MakeExecutable
            &&& ready is Replace
            &&& restarted == (UpdateStep::Finished { restarting: true })
        }),
{
}

/// What is told of an update that a mini launcher cannot have is what went wrong: the error of the
/// request, both versions where there is no newer one, or the platform that there is no release
/// for.
pub proof fn a_mini_launcher_is_told_what_failed(
    launcher: Launcher,
    manifest: UpdateManifest,
    error: String,
)
    requires
        launcher.is_mini(),
    ensures
        next_step(launcher, UpdateStep::FetchManifest, StepOutcome::Failed { error }) == (
        UpdateStep::Failed { failure: UpdateFailure::CheckFailed { error } }),
        next_step(launcher, UpdateStep::BuildClient, StepOutcome::Failed { error }) == (
        UpdateStep::Failed { failure: UpdateFailure::CheckFailed { error } }),
        !versions::is_newer(launcher.version@, manifest.version@) ==> next_step(
            launcher,
            UpdateStep::FetchManifest,
            StepOutcome::Manifest { manifest },
        ) == (UpdateStep::Failed {
            failure: UpdateFailure::UpdateMissing {
                current: launcher.version,
                latest: manifest.version,
            },
        }),
        versions::is_newer(launcher.version@, manifest.version@) && release_for(
            manifest,
            launcher.platform@,
        ) is None ==> next_step(
            launcher,
            UpdateStep::FetchManifest,
            StepOutcome::Manifest { manifest },
        ) == (UpdateStep::Failed {
            failure: UpdateFailure::PayloadMissing { platform: launcher.platform },
        }),
        forall|release: PlatformRelease|
            #[trigger] next_step(
                launcher,
                UpdateStep::Download { release },
                StepOutcome::Failed { error },
            ) == (UpdateStep::Failed { failure: UpdateFailure::Broken { error } }),
        next_step(launcher, UpdateStep::Replace, StepOutcome::Failed { error }) == (
        UpdateStep::Failed { failure: UpdateFailure::Broken { error } }),
{
}

/// A full launcher that has no update to take, or cannot fetch one, goes on as it is.
pub proof fn a_full_launcher_needs_no_update(
    launcher: Launcher,
    manifest: UpdateManifest,
    release: PlatformRelease,
    error: String,
)
    requires
        !launcher.is_mini(),
    ensures
        !versions::is_newer(launcher.version@, manifest.version@) || release_for(
            manifest,
            launcher.platform@,
        ) is None ==> next_step(
            launcher,
            UpdateStep::FetchManifest,
            StepOutcome::Manifest { manifest },
        ) == (UpdateStep::Finished { restarting: false }),
        next_step(launcher, UpdateStep::BuildClient, StepOutcome::Failed { error }) == (
        UpdateStep::Finished { restarting: false }),
        next_step(launcher, UpdateStep::FetchManifest, StepOutcome::Failed { error }) == (
        UpdateStep::Finished { restarting: false }),
        next_step(launcher, UpdateStep::Download { release }, StepOutcome::Failed { error }) == (
        UpdateStep::Finished { restarting: false }),
        next_step(launcher, UpdateStep::Replace, StepOutcome::Failed { error }) == (
        UpdateStep::Finished { restarting: false }),
{
}

/// The steps of an update that are left before its end.
pub open spec fn steps_left(step: UpdateStep) -> nat {
    match step {
        UpdateStep::BuildClient => 6,
        UpdateStep::FetchManifest => 5,
        UpdateStep::LocateExecutable { .. } => 4,
        UpdateStep::Download { .. } => 3,
        UpdateStep::MakeExecutable => 2,
        UpdateStep::Replace => 1,
        UpdateStep::Finished { .. } => 0,
        UpdateStep::Failed { .. } => 0,
    }
}

/// The outcome is one that the step can have.
pub open spec fn fits(step: UpdateStep, outcome: StepOutcome) -> bool {
    match outcome {
        StepOutcome::Done => step !is FetchManifest,
        StepOutcome::Manifest { .. } => step is FetchManifest,
        StepOutcome::Failed { .. } => true,
    }
}

/// Every outcome that a step can have brings the update closer to its end.
pub proof fn an_update_ends(launcher: Launcher, step: UpdateStep, outcome: StepOutcome)
    requires
        !is_over(step),
        fits(step, outcome),
    ensures
        steps_left(next_step(launcher, step, outcome)) < steps_left(step),
{
}

/// The name of the file that the new launcher is downloaded to, where the file of this one is named
/// `file_name`, if it can be told.
pub open spec fn temp_name(process_id: u32, file_name: Option<Seq<char>>) -> Seq<char> {
    "azurpilot-launcher-update-"@ + text::decimal(process_id as nat) + "-"@ + match file_name {
        Some(name) => name,
        None => "alas-launcher"@,
    }
}

/// The name of the copy of the launcher that puts the new one in place.
pub open spec fn helper_name(process_id: u32) -> Seq<char> {
    "azurpilot-launcher-update-helper-"@ + text::decimal(process_id as nat) + ".exe"@
}

/// Two launchers that run at the same time use files of different names, and the file that is
/// downloaded keeps the name of the launcher's file at its end.
pub proof fn each_launcher_has_files_of_its_own(
    a: u32,
    b: u32,
    name: Seq<char>,
    other: Option<Seq<char>>,
)
    ensures
        a != b ==> temp_name(a, Some(name)) != temp_name(b, other),
        a != b ==> helper_name(a) != helper_name(b),
        name.is_suffix_of(temp_name(a, Some(name))),
{
    let start = "azurpilot-launcher-update-"@;
    let (m, n) = (text::decimal(a as nat), text::decimal(b as nat));
    text::lemma_decimal_differs(a as nat, b as nat);
    text::lemma_decimal(a as nat);
    text::lemma_decimal(b as nat);
    reveal_strlit("-");
    let x = temp_name(a, Some(name));
    let y = temp_name(b, other);
    let end = match other {
        Some(other) => other,
        None => "alas-launcher"@,
    };
    assert(x =~= start + (m + seq!['-'] + name));
    assert(y =~= start + (n + seq!['-'] + end));
    if x == y {
        let k = start.len() as int;
        assert(x.skip(k) =~= m + seq!['-'] + name);
        assert(y.skip(k) =~= n + seq!['-'] + end);
        assert(!m.contains('-'));
        assert(!n.contains('-'));
        text::lemma_split_once_char(m, '-', name);
        text::lemma_split_once_char(n, '-', end);
    }
    assert(x.skip(x.len() - name.len()) =~= name);
    let helper = "azurpilot-launcher-update-helper-"@;
    let (p, q) = (helper_name(a), helper_name(b));
    assert(p.len() == helper.len() + m.len() + ".exe"@.len());
    assert(q.len() == helper.len() + n.len() + ".exe"@.len());
    if p == q {
        let k = helper.len() as int;
        assert(m.len() == n.len());
        assert(p.subrange(k, k + m.len()) =~= m);
        assert(q.subrange(k, k + n.len()) =~= n);
    }
}

/// The name of the file that the new launcher is downloaded to, where the file of this one is named
/// `file_name`, if it can be told.
pub fn launcher_update_temp_name(process_id: u32, file_name: Option<&str>) -> (r: String)
    ensures
        r@ == temp_name(
            process_id,
            match file_name {
                Some(name) => Some(name@),
                None => None,
            },
        ),
{
    let mut name: String = "azurpilot-launcher-update-".to_owned();
    name.append(strings::decimal_string(process_id as u64).as_str());
    name.append("-");
    match file_name {
        Some(file_name) => name.append(file_name),
        None => name.append("alas-launcher"),
    }
    name
}

/// The name of the copy of the launcher that puts the new one in place.
pub fn launcher_update_helper_name(process_id: u32) -> (r: String)
    ensures
        r@ == helper_name(process_id),
{
    let mut name: String = "azurpilot-launcher-update-helper-".to_owned();
    name.append(strings::decimal_string(process_id as u64).as_str());
    name.append(".exe");
    name
}

/// What comes after an attempt to move the new launcher into place.
#[derive(Clone, Copy, Debug, PartialEq, Eq, Structural)]
pub enum ApplyStep {
    Restart,
    TryAgain,
    GiveUp,
}

/// What comes after an attempt, before which `failed` have failed.
pub open spec fn after_attempt(failed: nat, moved: bool) -> ApplyStep {
    if moved {
        ApplyStep::Restart
    } else if failed + 1 < APPLY_ATTEMPTS {
        ApplyStep::TryAgain
    } else {
        ApplyStep::GiveUp
    }
}

/// The attempts are made until one has moved the launcher, sixty at most: each of the first
/// fifty-nine that fails has another one made, and none is made after a move or after the sixtieth.
pub proof fn sixty_attempts_are_made(failed: nat, moved: bool)
    requires
        failed < 60,
    ensures
        moved <==> after_attempt(failed, moved) is Restart,
        !moved && failed < 59 ==> after_attempt(failed, moved) is TryAgain,
        !moved && failed == 59 ==> after_attempt(failed, moved) is GiveUp,
{
}

/// What comes after an attempt, before which `failed` have failed.
pub fn apply_launcher_update_and_restart(failed: u32, moved: bool) -> (r: ApplyStep)
    requires
        failed < APPLY_ATTEMPTS,
    ensures
        r == after_attempt(failed as nat, moved),
{
    if moved {
        ApplyStep::Restart
    } else if failed + 1 < APPLY_ATTEMPTS {
        ApplyStep::TryAgain
    } else {
        ApplyStep::GiveUp
    }
}

/// The units of a path with the zero behind them that ends it.
pub fn path_to_wide(units: &Vec<u16>) -> (r: Vec<u16>)
    ensures
        r@ == units@.push(0),
{
    let mut wide: Vec<u16> = Vec::new();
    for i in 0..units.len()
        invariant
            wide@ == units@.take(i as int),
    {
        wide.push(units[i]);
        assert(units@.take(i + 1) =~= units@.take(i as int).push(units@[i as int]));
    }
    assert(units@.take(units@.len() as int) =~= units@);
    wide.push(0);
    wide
}

} // verus!
