use alas_launcher::output::LineSplitter;
use alas_launcher::percentage::find_percentage;
use alas_launcher::scripts::{
    extract_uv_package_name, is_uv_progress_line, phase_display_name, run_command_with_retry,
    splash_retry_update, splash_retry_update_with_tip, splash_update_for_dependency_output,
    splash_update_for_git_output, splash_update_for_output, splash_update_with_tip,
    uv_download_progress, AfterRun, ScriptPhase, ScriptRun,
    SeenPackages,
};
use alas_launcher::setup::{
    alas_repo_dir, count_required_packages, ensure_python_dependency_config, setup_alas_repo,
    setup_environment, setup_step_with_tip, uv_pip_install, RepoDir, SetupStep, GIT_UPDATE_SCRIPT,
    UV_ENVIRONMENT,
};

#[test]
fn test_find_percentage() {
    assert_eq!(Some(8), find_percentage("8%"));
    assert_eq!(Some(25), find_percentage("loading 25%..."));
    assert_eq!(Some(100), find_percentage("100%..."));
    assert_eq!(None, find_percentage("%1"));
}

fn float_percentage(s: &str) -> Option<u8> {
    s.split('%')
        .next()
        .and_then(|before| before.rsplit(|c: char| !c.is_ascii_digit() && c != '.').next())
        .and_then(|num| {
            num.parse::<f32>().ok().map(|v| v.round().clamp(0.0, u8::MAX as f32) as u8)
        })
}

#[test]
fn percentages_are_rounded_as_floats_are() {
    for text in [
        "12.5%", "13.5%", "0.49999997%", "0.49999999%", "254.5%", "300%", "1.2.3%", ".5%", "5.%",
        ".%", "no number", "7", "a 99.49999%", "254.49999999%", "0.5000000%", "00012%",
        "1e3%", "16777217%", "2.4999999999999999%",
    ] {
        assert_eq!(find_percentage(text), float_percentage(text), "{text}");
    }
}

#[test]
fn git_output_moves_the_bar() {
    let update = splash_update_for_git_output("Receiving objects:  50% (5/10)", "tip").unwrap();
    assert_eq!(update.progress, 39);
    assert_eq!(update.detail, "Receiving objects:  50% (5/10)");
    assert_eq!(update.title, "正在更新 AzurPilot");
    assert_eq!(update.subtitle, "同步仓库中... | Tips：tip");
    let banner = splash_update_for_git_output("===== UPDATE =====", "tip").unwrap();
    assert_eq!(banner.detail, "UPDATE");
    assert_eq!(banner.progress, 24);
    assert!(splash_update_for_git_output("hello", "tip").is_none());
}

#[test]
fn dependency_output_moves_the_bar() {
    let mut seen = SeenPackages::new();
    let mut show = |line: &str| splash_update_for_dependency_output(line, 4, &mut seen, "t");
    assert_eq!(show("Resolved 4 packages").unwrap().progress, 70);
    assert_eq!(show("Downloading numpy==2.4.3 (8.2 MiB)").unwrap().progress, 74);
    assert_eq!(show("Downloading NumPy (8.2 MiB)").unwrap().progress, 74);
    assert_eq!(show("Downloading scipy @ https://x").unwrap().progress, 77);
    assert_eq!(show("Prepared 4 packages").unwrap().progress, 84);
    assert_eq!(show("Installed 4 packages").unwrap().progress, 88);
    assert_eq!(show("+ numpy==2.4.3").unwrap().progress, 90);
    assert_eq!(show("Audited 4 packages").unwrap().progress, 90);
    assert!(show("Downloaded numpy").is_none());
    assert_eq!(seen.len(), 2);
}

#[test]
fn blank_output_is_passed_over() {
    let mut seen = SeenPackages::new();
    assert!(splash_update_with_tip("  ", ScriptPhase::Git, &mut seen, "t").is_none());
    let update = splash_update_for_output(" files: 100% ", ScriptPhase::Git, &mut seen).unwrap();
    assert_eq!(update.progress, 60);
    assert_eq!(update.detail, "files: 100%");
}

#[test]
fn package_names_are_found() {
    assert_eq!(extract_uv_package_name("Downloading A==1").as_deref(), Some("a"));
    assert_eq!(extract_uv_package_name("Downloading a @ b (c)").as_deref(), Some("a"));
    assert_eq!(extract_uv_package_name("Downloading a (1 MiB)").as_deref(), Some("a"));
    assert_eq!(extract_uv_package_name("Downloading ==1"), None);
    assert_eq!(extract_uv_package_name("Installing a"), None);
}

#[test]
fn progress_lines_are_told_from_errors() {
    assert!(is_uv_progress_line("warning: x"));
    assert!(is_uv_progress_line("Downloaded x"));
    assert!(!is_uv_progress_line("error: x"));
}

#[test]
fn download_progress_is_a_tenth_of_the_bar() {
    assert_eq!(uv_download_progress(0, 0), 77);
    assert_eq!(uv_download_progress(0, 4), 72);
    assert_eq!(uv_download_progress(4, 4), 82);
    assert_eq!(uv_download_progress(9, 4), 82);
    assert_eq!(uv_download_progress(3, 4), 79);
    assert_eq!(uv_download_progress(7000, 7000), 82);
    assert_eq!(uv_download_progress(32768, 65536), 77);
    assert_eq!(uv_download_progress(usize::MAX - 1, usize::MAX), 81);
}

#[test]
fn a_run_keeps_the_last_error_line() {
    let mut run = ScriptRun::new(ScriptPhase::Dependencies { total_packages: 1 });
    assert!(run.on_line(true, "boom".to_owned()).is_warning);
    assert!(!run.on_line(true, "warning: odd".to_owned()).is_warning);
    assert!(!run.on_line(false, "fine".to_owned()).is_warning);
    assert_eq!(run.finish(false), Err("boom".to_owned()));
    assert_eq!(ScriptRun::new(ScriptPhase::Git).finish(false), Err("更新 AzurPilot 失败".to_owned()));
    let deps = ScriptRun::new(ScriptPhase::Dependencies { total_packages: 1 });
    assert_eq!(deps.finish(false), Err("更新依赖库失败".to_owned()));
    assert_eq!(ScriptRun::new(ScriptPhase::Git).finish(true), Ok(()));
}

#[test]
fn a_script_is_retried_twenty_times() {
    assert!(matches!(run_command_with_retry(0, true), AfterRun::Succeed));
    assert!(matches!(run_command_with_retry(0, false), AfterRun::Retry { retry_count: 1 }));
    assert!(matches!(run_command_with_retry(19, false), AfterRun::Retry { retry_count: 20 }));
    assert!(matches!(run_command_with_retry(20, false), AfterRun::GiveUp));
}

#[test]
fn a_retry_is_shown() {
    assert_eq!(phase_display_name(ScriptPhase::Git), "代码更新");
    let update = splash_retry_update_with_tip(ScriptPhase::Git, 3, "no net", "t");
    assert_eq!(update.detail, "重试失败 (3/20)，1秒后再次尝试：no net");
    assert_eq!(update.progress, 18);
    let deps = splash_retry_update(ScriptPhase::Dependencies { total_packages: 2 }, 1, "x");
    assert_eq!(deps.progress, 64);
    assert_eq!(deps.title, "安装依赖库");
}

#[test]
fn output_is_cut_into_lines() {
    let mut splitter = LineSplitter::new();
    let lines = splitter.feed_all(b"one\n\ntwo\r");
    assert_eq!(lines, vec!["one".to_owned(), "two".to_owned()]);
    let lines = splitter.feed_all(b"objects: 1%objects: 2%objects:");
    assert_eq!(lines, vec!["objects: 1%".to_owned(), "objects: 2%".to_owned()]);
    assert_eq!(splitter.finish(), Some("objects:".to_owned()));
    let mut one = LineSplitter::new();
    assert_eq!(one.feed(b'a'), None);
    assert_eq!(one.feed(b'\n'), Some("a".to_owned()));
    assert_eq!(one.finish(), None);
}

#[test]
fn the_setup_runs_through_its_steps() {
    let mut step = SetupStep::Start;
    let mut shown = Vec::new();
    for _ in 0..5 {
        let (next, update) = setup_alas_repo(step, true);
        if let Some(update) = update {
            shown.push(update.progress);
        }
        step = next;
    }
    assert!(matches!(step, SetupStep::Finished));
    assert_eq!(shown, vec![8, 18, 64, 94]);
    let (next, update) = setup_step_with_tip(SetupStep::UpdateRepository, false, "t");
    assert!(matches!(next, SetupStep::Failed));
    assert!(update.is_none());
    let (_, update) = setup_step_with_tip(SetupStep::Start, true, "t");
    let update = update.unwrap();
    assert_eq!(update.title, "准备工作区");
    assert_eq!(update.subtitle, "检查本地环境中... | Tips：t");
}

#[test]
fn dependencies_are_switched_on() {
    let config = ensure_python_dependency_config("Python:\n  InstallDependencies: false\n  A: b");
    assert!(config.found);
    let output = config.output.unwrap();
    assert_eq!(output, "Python:\n  InstallDependencies: true\n  A: b\n");
    let again = ensure_python_dependency_config(&output);
    assert!(again.found);
    assert_eq!(again.output, None);
    let none = ensure_python_dependency_config("A: b");
    assert!(!none.found);
    assert_eq!(none.output, None);
}

#[test]
fn packages_are_counted() {
    let content = "numpy==1\n# scipy==2\n\n  a==3 \nb>=4\n";
    assert_eq!(count_required_packages(Some(content)), 2);
    assert_eq!(count_required_packages(None), 0);
}

#[test]
fn the_installer_gets_its_arguments() {
    let args = uv_pip_install("./requirements.txt", Some("https://mirror"));
    assert_eq!(
        args,
        vec![
            "-m", "uv", "pip", "install", "--break-system-packages", "-r", "./requirements.txt",
            "--index-url", "https://mirror",
        ]
    );
    assert_eq!(uv_pip_install("r", None).len(), 7);
    assert_eq!(UV_ENVIRONMENT[0], ("UV_SYSTEM_PYTHON", "1"));
    assert!(GIT_UPDATE_SCRIPT.contains("gm.git_install()"));
}

#[test]
fn the_search_path_gets_the_tools() {
    let unix = setup_environment(false);
    assert_eq!(unix.len(), 3);
    assert_eq!(unix[0].variable, "PATH");
    assert_eq!(unix[0].below, vec!["toolkit", "libexec", "git-core"]);
    assert_eq!(unix[2].variable, "LD_LIBRARY_PATH");
    let windows = setup_environment(true);
    assert_eq!(windows[2].below, vec!["toolkit"]);
}

#[test]
fn the_installation_is_found() {
    assert!(matches!(alas_repo_dir(true, false, None, false), RepoDir::LauncherFolder));
    let beside = alas_repo_dir(false, true, Some("MacOS"), true);
    assert!(matches!(beside, RepoDir::BesideLauncherFolder));
    assert!(matches!(alas_repo_dir(false, true, Some("bin"), true), RepoDir::NotFound));
    assert!(matches!(alas_repo_dir(false, false, Some("MacOS"), true), RepoDir::NotFound));
}
