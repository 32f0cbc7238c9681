use alas_launcher::args::{
    apply_request, launcher_arg_present, preview_crash_arg_present, preview_no_update_arg_present,
    start_mode, ApplyRequest, StartMode,
};
use alas_launcher::backend::{
    backend_address, backend_url, connect_error_message, is_leaked_process, next_stop_step,
    next_wait_step, start_timeout_message, Attempt, StopState, StopStep, WaitStep,
    WebuiLaunchConfig,
};
use alas_launcher::config::{
    get_deploy_config, get_requirements_file_path, pypi_mirror, value_as_bool, value_as_string,
    value_as_string_list, value_as_u16, value_of, ConfigValue,
};
use alas_launcher::events::{
    check_stream_status, clean_text, control_report_url, control_stream_url, error_report,
    handle_command, notify_stream_url, show_notification, success_report, CommandAction,
    EventReader, NotifyPayload,
};
use alas_launcher::lifecycle::{
    begin_startup_cleanup, cleanup_waits, finish_startup_cleanup, first_startup_step,
    gui_log_filename, launcher_log_filename, minimize_main_window_to_tray, next_startup_step,
    on_close_answer, on_close_requested, on_exit_requested, restore_main_window_from_tray,
    startup_flags, startup_splash, today_gui_log_filename, today_launcher_log_filename,
    toggle_main_window_visibility, tray_command, window_toggle_maximize, CleanupStep,
    CloseDecision, Desktop, ExitDecision, Flags, StartupEnd, StartupOutcome, StartupSplash,
    StartupStep, TrayCommand, WindowAction, WindowState,
};
use alas_launcher::locale::{
    detect_locale, locale_from_args, locale_of_language, locale_of_system, normalize_locale,
    starting_locale,
};
use alas_launcher::splash::{get_tip, subtitle_with_tip, tip_of, ProgressGate, SplashUpdate, TIPS};

const NO_FLAGS: Flags = Flags {
    setup_completed: false,
    setup_running: false,
    allow_exit: false,
    startup_cleanup_started: false,
    setup_cancel_requested: false,
};

fn list(args: &[&str]) -> Vec<String> {
    args.iter().map(|arg| arg.to_string()).collect()
}

#[test]
fn splash_updates_are_made() {
    let update = SplashUpdate::loading("t", "d", 120);
    assert_eq!((update.progress, update.is_error), (100, false));
    assert_eq!(update.subtitle, "正在连接本地服务...");
    let update = SplashUpdate::error("t", "d", 7).with_subtitle("s");
    assert_eq!((update.progress, update.is_error), (7, true));
    assert_eq!((update.title.as_str(), update.subtitle.as_str()), ("t", "s"));
    assert_eq!(SplashUpdate::error("t", "d", 7).subtitle, "连接失败");
}

#[test]
fn the_bar_never_moves_back() {
    let mut gate = ProgressGate::new();
    assert_eq!(gate.pass(SplashUpdate::loading("t", "d", 40)).progress, 40);
    assert_eq!(gate.pass(SplashUpdate::loading("t", "d", 20)).progress, 40);
    assert_eq!(gate.error_progress(8), 40);
    assert_eq!(gate.error_progress(97), 97);
}

#[test]
fn tips_change_with_the_time() {
    assert_eq!(tip_of(0), TIPS[0]);
    assert_eq!(tip_of(18), TIPS[18]);
    assert_eq!(tip_of(19), TIPS[0]);
    assert!(TIPS.contains(&get_tip().as_str()));
    assert_eq!(subtitle_with_tip("s", ":", "t"), "s | Tips:t");
}

#[test]
fn locales_are_normalized() {
    assert_eq!(normalize_locale("zh-HK"), "zh-TW");
    assert_eq!(normalize_locale("ZH"), "zh-CN");
    assert_eq!(normalize_locale("zht"), "zh-TW");
    assert_eq!(normalize_locale("jp"), "ja");
    assert_eq!(normalize_locale("us"), "en");
    assert_eq!(normalize_locale("fr"), "en");
    assert_eq!(normalize_locale(&normalize_locale("zh-Hant")), "zh-TW");
}

#[test]
fn arguments_choose_the_locale() {
    assert_eq!(locale_from_args(&list(&["x", "--LANG", "ja-JP"])).as_deref(), Some("ja"));
    assert_eq!(locale_from_args(&list(&["--locale=zh-tw"])).as_deref(), Some("zh-TW"));
    assert_eq!(locale_from_args(&list(&["--lang"])), None);
    assert_eq!(locale_from_args(&list(&["en"])), None);
    assert_eq!(starting_locale(&list(&["/lang", "ja"])), "ja");
}

#[test]
fn the_system_chooses_the_locale() {
    assert_eq!(locale_of_language("zh-hant-hk"), "zh-TW");
    assert_eq!(locale_of_system(Some("ZH-Hant".to_owned())), "zh-TW");
    assert_eq!(locale_of_system(Some("JA_JP".to_owned())), "ja");
    assert_eq!(locale_of_system(None), "en");
    assert!(["zh-TW", "zh-CN", "ja", "en"].contains(&detect_locale().as_str()));
}

#[test]
fn arguments_choose_the_mode() {
    assert!(launcher_arg_present(&list(&["A", "--X"]), &["--x"]));
    assert!(preview_no_update_arg_present(&list(&["/No-Update"])));
    assert!(!preview_no_update_arg_present(&list(&["/disable-update"])));
    assert!(preview_crash_arg_present(&list(&["--error-preview"])));
    let mode = start_mode(&list(&["--preview-crash"]));
    assert_eq!(mode, StartMode { preview_crash: true, preview_no_update: true });
    let mode = start_mode(&list(&["--skip-update"]));
    assert_eq!(mode, StartMode { preview_crash: false, preview_no_update: true });
}

#[test]
fn arguments_ask_for_an_update_to_be_applied() {
    assert_eq!(apply_request(None, 0), ApplyRequest::NotAsked);
    assert_eq!(apply_request(Some("x"), 2), ApplyRequest::NotAsked);
    assert_eq!(apply_request(Some("--apply-launcher-update"), 0), ApplyRequest::MissingTarget);
    assert_eq!(apply_request(Some("--apply-launcher-update"), 1), ApplyRequest::MissingPayload);
    assert_eq!(apply_request(Some("--apply-launcher-update"), 2), ApplyRequest::Apply);
}

const DEPLOY: &str = "
Deploy:
  Python:
    RequirementsFile: ' '
    PypiMirror: https://mirror
  Webui:
    WebuiHost: 0.0.0.0
    WebuiPort: 4000
    Password: 1234
    CDN: 'On'
    WebuiSSLKey: null
    WebuiSSLCert: ''
    Run: [alas, null, 5, ' ']
";

#[test]
fn the_deploy_configuration_is_read() {
    let config = get_deploy_config(Some(DEPLOY)).unwrap();
    let webui = WebuiLaunchConfig::from_deploy_config(Some(&config));
    assert_eq!((webui.host.as_str(), webui.port), ("0.0.0.0", 4000));
    assert_eq!(webui.password.as_deref(), Some("1234"));
    assert!(webui.cdn);
    assert_eq!((webui.ssl_key.clone(), webui.ssl_cert.clone()), (None, None));
    assert_eq!(
        webui.args(),
        list(&[
            "gui.py", "--host", "0.0.0.0", "--port", "4000", "--key", "1234", "--cdn", "--run",
            "alas", "5",
        ])
    );
    assert_eq!(get_requirements_file_path(Some(&config)), "./requirements.txt");
    assert_eq!(pypi_mirror(Some(&config)).as_deref(), Some("https://mirror"));
    assert!(get_deploy_config(None).is_none());
    assert!(get_deploy_config(Some("a: [")).is_none());
}

#[test]
fn a_missing_configuration_has_defaults() {
    let webui = WebuiLaunchConfig::from_deploy_config(None);
    assert_eq!(webui.args(), list(&["gui.py", "--host", "127.0.0.1", "--port", "22267"]));
    assert_eq!(get_requirements_file_path(None), "./requirements.txt");
    assert_eq!(pypi_mirror(None), None);
    let null = get_deploy_config(Some("Deploy: {Python: {PypiMirror: 'null'}}")).unwrap();
    assert_eq!(pypi_mirror(Some(&null)), None);
}

#[test]
fn values_are_converted() {
    let text = |s: &str| ConfigValue::Text(s.to_owned());
    assert_eq!(value_as_string(&ConfigValue::Null), None);
    assert_eq!(value_as_string(&ConfigValue::Flag(true)).as_deref(), Some("true"));
    let object = value_of(&serde_json::from_str("{\"a\": [1, -2]}").unwrap());
    assert_eq!(value_as_string(&object).as_deref(), Some("{\"a\":[1,-2]}"));
    assert_eq!(value_as_u16(&text("65535")), Some(65535));
    assert_eq!(value_as_u16(&text("65536")), None);
    assert_eq!(value_as_u16(&value_of(&serde_json::from_str("70000").unwrap())), None);
    assert_eq!(value_as_u16(&value_of(&serde_json::from_str("-1").unwrap())), None);
    assert_eq!(value_as_bool(&text("YES")), Some(true));
    assert_eq!(value_as_bool(&text("off")), Some(false));
    assert_eq!(value_as_bool(&text("maybe")), None);
    assert_eq!(value_as_string_list(&text("one")), list(&["one"]));
    assert_eq!(value_as_string_list(&ConfigValue::Null), list(&[]));
}

#[test]
fn the_backend_has_an_address() {
    assert_eq!(backend_url(22267), "http://127.0.0.1:22267/");
    assert_eq!(backend_address(1), "127.0.0.1:1");
    assert_eq!(start_timeout_message(5), "Timeout waiting for port 5 to be ready");
    assert_eq!(
        connect_error_message(5, "refused"),
        "Unable to connect to local backend at 127.0.0.1:5: refused"
    );
}

#[test]
fn a_wait_ends() {
    assert!(matches!(next_wait_step(Attempt::NotMade, 0, 10), WaitStep::TryNow));
    assert!(matches!(next_wait_step(Attempt::Failed("x".to_owned()), 9, 10), WaitStep::TryNow));
    assert!(matches!(next_wait_step(Attempt::Succeeded, 99, 10), WaitStep::Succeed));
    assert!(matches!(next_wait_step(Attempt::NotMade, 10, 10), WaitStep::GiveUp(None)));
    let last = next_wait_step(Attempt::Failed("x".to_owned()), 10, 10);
    assert!(matches!(last, WaitStep::GiveUp(Some(error)) if error == "x"));
}

#[test]
fn a_backend_is_stopped() {
    let state = StopState {
        has_process: true,
        can_signal: true,
        signalled: false,
        exited: false,
        elapsed_ms: 0,
    };
    assert_eq!(next_stop_step(StopState { has_process: false, ..state }), StopStep::NothingToStop);
    assert_eq!(next_stop_step(StopState { can_signal: false, ..state }), StopStep::Kill);
    assert_eq!(next_stop_step(state), StopStep::Signal);
    let signalled = StopState { signalled: true, ..state };
    assert_eq!(next_stop_step(signalled), StopStep::Wait);
    assert_eq!(next_stop_step(StopState { exited: true, ..signalled }), StopStep::Report);
    assert_eq!(next_stop_step(StopState { elapsed_ms: 500, ..signalled }), StopStep::Kill);
    let late = StopState { exited: true, elapsed_ms: 500, ..signalled };
    assert_eq!(next_stop_step(late), StopStep::Report);
}

#[test]
fn leaked_processes_are_found() {
    let environment = list(&["A=b", "ALAS_LAUNCHER_PID=12"]);
    assert!(is_leaked_process(13, 12, &environment));
    assert!(!is_leaked_process(12, 12, &environment));
    assert!(!is_leaked_process(13, 1, &environment));
}

#[test]
fn an_event_is_read_back() {
    let mut reader = EventReader::new();
    assert_eq!(reader.on_line(": comment\n"), None);
    assert_eq!(reader.on_line("data:  one\r\n"), None);
    assert_eq!(reader.on_line("event: x\n"), None);
    assert_eq!(reader.on_line("data:two\n"), None);
    assert_eq!(reader.on_line("\r\n"), Some("one\ntwo".to_owned()));
    assert_eq!(reader.on_line("\n"), None);
    assert_eq!(reader.on_line("data: rest"), None);
    assert_eq!(reader.dispatch_sse_data(), Some("rest".to_owned()));
    assert_eq!(reader.dispatch_sse_data(), None);
}

#[test]
fn streams_have_addresses() {
    assert_eq!(notify_stream_url(5), "http://127.0.0.1:5/api/notify_stream");
    assert_eq!(control_stream_url(5), "http://127.0.0.1:5/api/launcher/stream");
    assert_eq!(control_report_url(5), "http://127.0.0.1:5/api/launcher/report");
    assert_eq!(check_stream_status(200, "200 OK"), Ok(()));
    assert_eq!(check_stream_status(404, "404"), Err("server returned 404".to_owned()));
}

#[test]
fn notifications_are_shown() {
    let some = |s: &str| Some(s.to_owned());
    assert_eq!(clean_text(some("  a ")), some("a"));
    assert_eq!(clean_text(some("  ")), None);
    assert_eq!(clean_text(None), None);
    let payload =
        NotifyPayload { instance: some("alas"), title: some(" t "), content: some("c") };
    let shown = show_notification(payload);
    assert_eq!((shown.title.as_str(), shown.body.as_str()), ("t", "c"));
    let payload = NotifyPayload { instance: some("alas"), title: None, content: some(" ") };
    let shown = show_notification(payload);
    assert_eq!((shown.title.as_str(), shown.body.as_str()), ("Alas", "Instance: alas"));
    let payload = NotifyPayload { instance: None, title: None, content: None };
    assert_eq!(show_notification(payload).body, "New notification");
}

#[test]
fn commands_are_answered() {
    let payload = |text: &str| value_of(&serde_json::from_str(text).unwrap());
    assert!(matches!(handle_command("startup.query", None), CommandAction::QueryAutostart));
    assert!(matches!(
        handle_command("startup.set", Some(&payload("{\"enabled\": true}"))),
        CommandAction::SetAutostart { enabled: true }
    ));
    for bad in ["{\"enabled\": \"true\"}", "{}", "[true]"] {
        assert!(matches!(
            handle_command("startup.set", Some(&payload(bad))),
            CommandAction::Refuse { error } if error == "missing enabled"
        ));
    }
    assert!(matches!(
        handle_command("x", None),
        CommandAction::Refuse { error } if error == "unknown command: x"
    ));
    let data: serde_json::Value = serde_json::from_str("{\"enabled\":[true]}").unwrap();
    let report: serde_json::Value = serde_json::from_str(&success_report("8", data)).unwrap();
    assert_eq!((&report["id"], &report["success"]), (&"8".into(), &true.into()));
    assert_eq!(report["data"]["enabled"][0], true);
    let text = error_report("7", "no \"x\"");
    assert!(text.contains(r#""id":"7""#));
    assert!(text.contains(r#""success":false"#));
    assert!(text.contains(r#""error":"no \"x\"""#));
    let report: serde_json::Value = serde_json::from_str(&text).unwrap();
    assert_eq!(report["id"], "7");
    assert_eq!(report["success"], false);
    assert_eq!(report["error"], "no \"x\"");
}

fn run(mode: StartMode, outcomes: &[StartupOutcome]) -> StartupStep {
    let mut step = first_startup_step(mode);
    for outcome in outcomes {
        step = next_startup_step(mode, step, *outcome);
    }
    step
}

#[test]
fn a_startup_runs_through_its_steps() {
    let mode = StartMode { preview_crash: false, preview_no_update: false };
    let done = StartupOutcome::Done;
    let failed = StartupOutcome::Failed { cancelled: false };
    assert_eq!(run(mode, &[]), StartupStep::CheckUpdate);
    assert_eq!(run(mode, &[done]), StartupStep::SetUpRepository);
    assert_eq!(run(mode, &[done, done]), StartupStep::StartBackend);
    assert_eq!(run(mode, &[done, done, done]), StartupStep::OpenWindow);
    let ended = |how| StartupStep::Ended { how };
    assert_eq!(run(mode, &[done; 4]), ended(StartupEnd::Ready));
    assert_eq!(run(mode, &[StartupOutcome::Restarting]), ended(StartupEnd::Restarting));
    assert_eq!(run(mode, &[failed]), ended(StartupEnd::UpdateFailed));
    assert_eq!(run(mode, &[done, failed]), ended(StartupEnd::RepositoryFailed));
    let cancelled = StartupOutcome::Failed { cancelled: true };
    assert_eq!(run(mode, &[done, cancelled]), ended(StartupEnd::Cancelled));
    assert_eq!(run(mode, &[done, done, failed]), ended(StartupEnd::BackendFailed));
    let preview = StartMode { preview_crash: false, preview_no_update: true };
    assert_eq!(run(preview, &[]), StartupStep::SetUpRepository);
    let crash = StartMode { preview_crash: true, preview_no_update: true };
    assert_eq!(run(crash, &[]), ended(StartupEnd::CrashPreview));
}

#[test]
fn a_startup_sets_its_flags() {
    let running = startup_flags(StartupStep::CheckUpdate, NO_FLAGS);
    assert!(running.setup_running && !running.setup_completed);
    let ended = |how| startup_flags(StartupStep::Ended { how }, running);
    assert!(ended(StartupEnd::Ready).setup_completed);
    assert!(!ended(StartupEnd::Ready).allow_exit);
    assert!(ended(StartupEnd::Restarting).allow_exit);
    assert!(!ended(StartupEnd::BackendFailed).setup_completed);
    assert!(!ended(StartupEnd::BackendFailed).setup_running);
    assert_eq!(startup_splash(StartupStep::StartBackend), StartupSplash::Loading { progress: 97 });
    let crash = StartupStep::Ended { how: StartupEnd::CrashPreview };
    assert_eq!(startup_splash(crash), StartupSplash::Error { least: 42 });
    let cancelled = StartupStep::Ended { how: StartupEnd::Cancelled };
    assert_eq!(startup_splash(cancelled), StartupSplash::Unchanged);
}

#[test]
fn an_exit_needs_permission() {
    assert_eq!(on_exit_requested(NO_FLAGS), ExitDecision::CleanUp);
    let completed = Flags { setup_completed: true, ..NO_FLAGS };
    assert_eq!(on_exit_requested(completed), ExitDecision::MinimizeToTray);
    let allowed = Flags { allow_exit: true, ..completed };
    assert_eq!(on_exit_requested(allowed), ExitDecision::ShutDown);
    let cleaning = Flags { startup_cleanup_started: true, ..NO_FLAGS };
    assert_eq!(on_exit_requested(cleaning), ExitDecision::MinimizeToTray);
}

#[test]
fn closing_a_window_depends_on_the_system() {
    let completed = Flags { setup_completed: true, ..NO_FLAGS };
    let close = |label, desktop, prompt, flags| on_close_requested(label, desktop, prompt, flags);
    assert_eq!(close("splash", Desktop::Linux, false, NO_FLAGS), CloseDecision::CleanUp);
    assert_eq!(close("splash", Desktop::Linux, false, completed), CloseDecision::Exit);
    assert_eq!(close("main", Desktop::Linux, false, completed), CloseDecision::MinimizeToTray);
    assert_eq!(close("main", Desktop::Windows, false, completed), CloseDecision::AskUser);
    assert_eq!(close("main", Desktop::Windows, true, completed), CloseDecision::KeepOpen);
    assert_eq!(close("main", Desktop::Other, false, completed), CloseDecision::Close);
    let allowed = Flags { allow_exit: true, ..completed };
    assert_eq!(close("main", Desktop::Windows, false, allowed), CloseDecision::Close);
    assert_eq!(close("other", Desktop::Windows, false, completed), CloseDecision::Close);
    assert_eq!(on_close_answer(true, true), ExitDecision::ShutDown);
    assert_eq!(on_close_answer(true, false), ExitDecision::MinimizeToTray);
    assert_eq!(on_close_answer(false, true), ExitDecision::MinimizeToTray);
}

#[test]
fn a_cleanup_decides_on_the_exit() {
    let (step, flags) = begin_startup_cleanup(NO_FLAGS);
    assert_eq!(step, CleanupStep::Wait);
    assert!(flags.startup_cleanup_started && flags.setup_cancel_requested);
    assert_eq!(begin_startup_cleanup(flags), (CleanupStep::Nothing, flags));
    assert_eq!(cleanup_waits(true, 29_999), CleanupStep::Wait);
    assert_eq!(cleanup_waits(true, 30_000), CleanupStep::Clean);
    assert_eq!(cleanup_waits(false, 0), CleanupStep::Clean);
    let (step, after) = finish_startup_cleanup(true, flags);
    assert_eq!(step, CleanupStep::Exit);
    assert_eq!(on_exit_requested(after), ExitDecision::ShutDown);
    let (step, after) = finish_startup_cleanup(false, flags);
    assert_eq!(step, CleanupStep::ReportFailure);
    assert_eq!(on_exit_requested(after), ExitDecision::CleanUp);
}

#[test]
fn the_main_window_is_called_up() {
    assert_eq!(restore_main_window_from_tray(true, false), WindowAction::Reveal);
    assert_eq!(restore_main_window_from_tray(false, true), WindowAction::Nothing);
    assert_eq!(restore_main_window_from_tray(false, false), WindowAction::Recreate);
    let seen = WindowState { visible: true, minimized: false };
    assert_eq!(toggle_main_window_visibility(Some(seen), false), WindowAction::Minimize);
    let small = WindowState { visible: true, minimized: true };
    assert_eq!(toggle_main_window_visibility(Some(small), false), WindowAction::Reveal);
    assert_eq!(toggle_main_window_visibility(None, false), WindowAction::Recreate);
    assert!(minimize_main_window_to_tray(Desktop::Windows).destroy);
    assert!(minimize_main_window_to_tray(Desktop::MacOs).leave_dock);
    assert!(!minimize_main_window_to_tray(Desktop::Linux).destroy);
    assert!(window_toggle_maximize(false));
    assert_eq!(tray_command("quit"), TrayCommand::Quit);
    assert_eq!(tray_command("toggle_visibility"), TrayCommand::ToggleVisibility);
    assert_eq!(tray_command("x"), TrayCommand::Unknown);
}

#[test]
fn logs_are_named_by_day() {
    assert_eq!(gui_log_filename("2025-01-02"), "2025-01-02_gui.txt");
    assert_eq!(launcher_log_filename("2025-01-02"), "2025-01-02_launcher.txt");
    for (name, ending) in [
        (today_gui_log_filename(), "_gui.txt"),
        (today_launcher_log_filename(), "_launcher.txt"),
    ] {
        let day = name.strip_suffix(ending).unwrap();
        let parts: Vec<&str> = day.split('-').collect();
        assert_eq!(parts.iter().map(|part| part.len()).collect::<Vec<_>>(), vec![4, 2, 2]);
        assert!(parts.iter().all(|part| part.chars().all(|c| c.is_ascii_digit())));
    }
    let name = today_launcher_log_filename();
    assert!(name.ends_with("_launcher.txt"));
    assert_eq!(name.len(), "2025-01-02_launcher.txt".len());
}
