use alas_launcher::silent_update::{
    check_and_apply_update, check_payload_status, endpoint_refuses, platform_key, release_if_newer, sh_quote,
    unix_update_script, update_binary_filename, update_dir_name, update_endpoints, EndpointReply,
    ManifestSearch, SearchStep, SilentUpdate, SilentUpdateError, WINDOWS_UPDATE_SCRIPT,
};
use alas_launcher::update::{
    announced_progress, apply_launcher_update_and_restart, check_launcher_update_and_restart,
    find_release, first_update_step, launcher_update_helper_name, launcher_update_platform_key,
    launcher_update_temp_name, path_to_wide, ApplyStep, Launcher, PlatformEntry, PlatformRelease,
    StepOutcome, UpdateFailure, UpdateManifest, UpdateStep, BROWSER_HEADERS,
};
use alas_launcher::versions::{
    comes_before, launcher_version_is_mini, launcher_version_is_newer, parse_launcher_version,
    parse_version, target_is_newer,
};

fn manifest(version: &str, key: &str) -> UpdateManifest {
    UpdateManifest {
        version: version.to_owned(),
        notes: None,
        platforms: vec![PlatformEntry {
            key: key.to_owned(),
            release: PlatformRelease { url: "https://x".to_owned(), sha256: "ab".to_owned() },
        }],
    }
}

fn launcher(version: &str) -> Launcher {
    Launcher { version: version.to_owned(), platform: "linux-x86_64".to_owned() }
}

fn failed(error: &str) -> StepOutcome {
    StepOutcome::Failed { error: error.to_owned() }
}

#[test]
fn versions_are_read() {
    assert_eq!(parse_launcher_version("v1.2.3-beta10"), (1, 2, 3, 10));
    assert_eq!(parse_launcher_version("vv1.2"), (0, 2, 0, 0));
    assert_eq!(parse_launcher_version("1.x.+3.4-5-6"), (1, 0, 3, 6));
    assert_eq!(parse_launcher_version(""), (0, 0, 0, 0));
    assert_eq!(parse_launcher_version("1.2.3-99999999999999999999"), (1, 2, 3, 0));
    assert!(launcher_version_is_mini("v0.0.1"));
    assert!(launcher_version_is_mini("0.0.1"));
    assert!(!launcher_version_is_mini("0.0.10"));
}

#[test]
fn newer_versions_are_ordered() {
    assert!(launcher_version_is_newer("1.2.3", "v1.2.4"));
    assert!(launcher_version_is_newer("1.2.3", "1.2.3-rc1"));
    assert!(launcher_version_is_newer("1.9.9", "2.0.0"));
    assert!(!launcher_version_is_newer("1.2.3", "1.2.3"));
    assert!(!launcher_version_is_newer("v1.2.4", "1.2.3"));
    assert!(launcher_version_is_newer("1.9.0", "1.10.0"));
}

#[test]
fn semver_decides_on_silent_updates() {
    assert_eq!(target_is_newer("1.0.0", "v1.0.1").unwrap(), true);
    assert_eq!(target_is_newer("1.0.0-alpha", "1.0.0").unwrap(), true);
    assert_eq!(target_is_newer("1.0.0", "1.0.0-alpha").unwrap(), false);
    assert_eq!(target_is_newer("1.0.0-2", "1.0.0-10").unwrap(), true);
    assert_eq!(target_is_newer("1.0.0+1", "1.0.0+2").unwrap(), true);
    assert_eq!(target_is_newer("1.0.0", "1.0.0").unwrap(), false);
    let bad = target_is_newer("x", "y").unwrap_err();
    assert_eq!(bad.message, "invalid semver version: x");
    assert_eq!(target_is_newer("1.0.0", "y").unwrap_err().message, "invalid semver version: y");
    let version = parse_version(" vv1.2.3-rc.1+b5 ").unwrap();
    assert_eq!((version.major, version.minor, version.patch), (1, 2, 3));
    assert_eq!((version.pre.as_str(), version.build.as_str()), ("rc.1", "b5"));
    assert!(comes_before((1, 2, 3), (1, 2, 3), 0, -1));
    assert!(!comes_before((1, 2, 3), (1, 2, 3), 0, 0));
    assert!(comes_before((1, 2, 3), (1, 3, 0), 1, 1));
}

#[test]
fn an_update_runs_through_its_steps() {
    let launcher = launcher("1.0.0");
    let step = first_update_step(false);
    let step = check_launcher_update_and_restart(&launcher, step, StepOutcome::Done);
    assert!(matches!(step, UpdateStep::FetchManifest));
    let outcome = StepOutcome::Manifest { manifest: manifest("1.0.1", "linux-x86_64") };
    let step = check_launcher_update_and_restart(&launcher, step, outcome);
    assert_eq!(announced_progress(&step), Some(8));
    let UpdateStep::LocateExecutable { version, release } = &step else {
        panic!("no release");
    };
    assert_eq!(version, "1.0.1");
    assert_eq!(release.url, "https://x");
    let step = check_launcher_update_and_restart(&launcher, step, StepOutcome::Done);
    assert!(matches!(&step, UpdateStep::Download { release } if release.sha256 == "ab"));
    let step = check_launcher_update_and_restart(&launcher, step, StepOutcome::Done);
    assert!(matches!(step, UpdateStep::MakeExecutable));
    assert_eq!(announced_progress(&step), None);
    let step = check_launcher_update_and_restart(&launcher, step, StepOutcome::Done);
    assert_eq!(announced_progress(&step), Some(100));
    let step = check_launcher_update_and_restart(&launcher, step, StepOutcome::Done);
    assert!(matches!(step, UpdateStep::Finished { restarting: true }));
}

#[test]
fn a_full_launcher_goes_on_without_an_update() {
    let launcher = launcher("1.0.0");
    let goes_on = |step, outcome| {
        matches!(
            check_launcher_update_and_restart(&launcher, step, outcome),
            UpdateStep::Finished { restarting: false }
        )
    };
    assert!(matches!(first_update_step(true), UpdateStep::Finished { restarting: false }));
    assert!(goes_on(UpdateStep::BuildClient, failed("x")));
    assert!(goes_on(UpdateStep::FetchManifest, failed("x")));
    let same = StepOutcome::Manifest { manifest: manifest("1.0.0", "linux-x86_64") };
    assert!(goes_on(UpdateStep::FetchManifest, same));
    let other = StepOutcome::Manifest { manifest: manifest("2.0.0", "windows-x86_64") };
    assert!(goes_on(UpdateStep::FetchManifest, other));
    assert!(goes_on(UpdateStep::Replace, failed("x")));
    let step = check_launcher_update_and_restart(&launcher, UpdateStep::MakeExecutable, failed("x"));
    let UpdateStep::Failed { failure: UpdateFailure::Broken { error } } = step else {
        panic!("goes on");
    };
    assert_eq!(error, "x");
}

#[test]
fn a_mini_launcher_needs_its_update() {
    let launcher = launcher("0.0.1");
    let fails = |step, outcome| {
        match check_launcher_update_and_restart(&launcher, step, outcome) {
            UpdateStep::Failed { failure } => failure,
            _ => panic!("goes on"),
        }
    };
    assert!(matches!(
        fails(UpdateStep::BuildClient, failed("x")),
        UpdateFailure::CheckFailed { error } if error == "x"
    ));
    let same = StepOutcome::Manifest { manifest: manifest("0.0.1", "linux-x86_64") };
    assert!(matches!(
        fails(UpdateStep::FetchManifest, same),
        UpdateFailure::UpdateMissing { current, latest } if current == "0.0.1" && latest == "0.0.1"
    ));
    let other = StepOutcome::Manifest { manifest: manifest("2.0.0", "windows-x86_64") };
    assert!(matches!(
        fails(UpdateStep::FetchManifest, other),
        UpdateFailure::PayloadMissing { platform } if platform == "linux-x86_64"
    ));
    assert!(matches!(
        fails(UpdateStep::Replace, failed("y")),
        UpdateFailure::Broken { error } if error == "y"
    ));
}

#[test]
fn platforms_have_keys() {
    assert_eq!(launcher_update_platform_key("macos", "aarch64"), "darwin-aarch64");
    assert_eq!(launcher_update_platform_key("windows", "x86"), "windows-i686");
    assert_eq!(launcher_update_platform_key("linux", "arm"), "unknown");
    assert_eq!(platform_key("macos", "arm"), Ok("darwin-armv7".to_owned()));
    assert_eq!(
        platform_key("freebsd", "arm"),
        Err("unsupported operating system for launcher updater".to_owned())
    );
    assert_eq!(
        platform_key("linux", "riscv64"),
        Err("unsupported architecture for launcher updater: riscv64".to_owned())
    );
    assert!(find_release(&manifest("1", "a"), "a").is_some());
    let mut built = UpdateManifest::new("1".to_owned(), None);
    for (key, url) in [("a", "x"), ("b", "y"), ("a", "z")] {
        let release = PlatformRelease { url: url.to_owned(), sha256: String::new() };
        built.insert(key.to_owned(), release);
    }
    assert_eq!(built.platforms.len(), 2);
    assert_eq!(find_release(&built, "a").unwrap().url, "z");
    assert_eq!(find_release(&built, "b").unwrap().url, "y");
    assert!(find_release(&manifest("1", "a"), "b").is_none());
}

#[test]
fn silent_updates_are_decided() {
    let current = "1.0.0";
    let newer = manifest("1.1.0", "linux-x86_64");
    assert!(matches!(
        check_and_apply_update(current, &newer, "linux", "x86_64"),
        Ok(SilentUpdate::Download { release }) if release.url == "https://x"
    ));
    assert!(matches!(
        check_and_apply_update("2.0.0", &newer, "linux", "x86_64"),
        Ok(SilentUpdate::UpToDate)
    ));
    assert!(matches!(
        check_and_apply_update(current, &newer, "linux", "x86"),
        Err(SilentUpdateError::Platform { message })
            if message == "No update payload for platform linux-i686"
    ));
    assert!(matches!(
        check_and_apply_update(current, &manifest("new", "a"), "linux", "x86_64"),
        Err(SilentUpdateError::Version { cause }) if cause.message == "invalid semver version: new"
    ));
    assert!(matches!(
        release_if_newer(true, &newer, "plan9", "x86_64"),
        Err(SilentUpdateError::Platform { message })
            if message == "unsupported operating system for launcher updater"
    ));
    assert!(matches!(
        release_if_newer(false, &newer, "plan9", "x86_64"),
        Ok(SilentUpdate::UpToDate)
    ));
}

#[test]
fn endpoints_are_listed() {
    assert_eq!(update_endpoints(Some(" a ;; b;")), vec!["a".to_owned(), "b".to_owned()]);
    let default = vec!["https://alas.nanoda.work/updata/stable.json".to_owned()];
    assert_eq!(update_endpoints(Some(" ; ")), default);
    assert_eq!(update_endpoints(None), default);
}

#[test]
fn endpoints_are_asked_in_order() {
    let endpoints = vec!["a".to_owned(), "b".to_owned(), "c".to_owned()];
    let mut search = ManifestSearch::new();
    assert!(matches!(search.next_endpoint(&endpoints), SearchStep::Ask { index: 0 }));
    let step =
        search.fetch_manifest(&endpoints, EndpointReply::Unreachable { error: "x".to_owned() });
    assert!(matches!(step, SearchStep::Ask { index: 1 }));
    assert_eq!(search.last_error.as_deref(), Some("failed to request a: x"));
    let step = search
        .fetch_manifest(&endpoints, EndpointReply::Refused { status: "404 Not Found".to_owned() });
    assert!(matches!(step, SearchStep::Ask { index: 2 }));
    assert_eq!(search.last_error.as_deref(), Some("endpoint b returned status 404 Not Found"));
    assert!(matches!(
        search.fetch_manifest(&endpoints, EndpointReply::Manifest),
        SearchStep::Found { index: 2 }
    ));
}

#[test]
fn a_search_ends_in_an_error() {
    let endpoints = vec!["a".to_owned()];
    let mut search = ManifestSearch::new();
    let step = search.fetch_manifest(&endpoints, EndpointReply::Refused { status: "500".to_owned() });
    assert!(matches!(
        step,
        SearchStep::Failed { error } if error == "endpoint a returned status 500"
    ));
    assert!(!endpoint_refuses(200) && !endpoint_refuses(299));
    assert!(endpoint_refuses(199) && endpoint_refuses(300) && endpoint_refuses(404));
    let mut search = ManifestSearch::new();
    let step = search.fetch_manifest(&endpoints, EndpointReply::Invalid);
    assert!(matches!(
        step,
        SearchStep::Failed { error } if error == "invalid update manifest from a"
    ));
    let none: Vec<String> = Vec::new();
    assert!(matches!(
        ManifestSearch::new().next_endpoint(&none),
        SearchStep::Failed { error } if error == "no update endpoint configured"
    ));
}

#[test]
fn shell_words_are_quoted() {
    assert_eq!(sh_quote("/a b"), "'/a b'");
    assert_eq!(sh_quote("it's"), "'it'\"'\"'s'");
    assert_eq!(sh_quote(""), "''");
    let script = unix_update_script(7, "/s", "/t'");
    assert!(script.starts_with(
        "#!/bin/sh\nset -eu\nPARENT_PID=7\nSOURCE='/s'\nTARGET='/t'\"'\"''\ni=0\nwhile"
    ));
    assert!(script.ends_with(
        "ALAS_LAUNCHER_REATTACH_OWNER_PID=7 \"$TARGET\" >/dev/null 2>&1 &\nrm -f \"$SOURCE\" \"$0\"\n"
    ));
    assert!(WINDOWS_UPDATE_SCRIPT.contains("Start-Process -FilePath $Target"));
}

#[test]
fn update_files_have_names() {
    assert_eq!(launcher_update_temp_name(5, Some("x.exe")), "azurpilot-launcher-update-5-x.exe");
    assert_eq!(launcher_update_temp_name(5, None), "azurpilot-launcher-update-5-alas-launcher");
    assert_eq!(launcher_update_helper_name(5), "azurpilot-launcher-update-helper-5.exe");
    assert_eq!(update_dir_name(5), "alas-launcher-update-5");
    assert_eq!(update_binary_filename(true), "alas-launcher.next.exe");
    assert_eq!(update_binary_filename(false), "alas-launcher.next");
    assert_eq!(check_payload_status(299, "299"), Ok(()));
    assert_eq!(
        check_payload_status(300, "300 Multiple Choices"),
        Err("update payload request failed with status 300 Multiple Choices".to_owned())
    );
    assert_eq!(BROWSER_HEADERS[2].1, "zh-CN,zh;q=0.9,en;q=0.8");
}

#[test]
fn a_replacement_is_tried_sixty_times() {
    assert_eq!(apply_launcher_update_and_restart(0, true), ApplyStep::Restart);
    assert_eq!(apply_launcher_update_and_restart(58, false), ApplyStep::TryAgain);
    assert_eq!(apply_launcher_update_and_restart(59, false), ApplyStep::GiveUp);
    assert_eq!(path_to_wide(&vec![65, 66]), vec![65, 66, 0]);
}
