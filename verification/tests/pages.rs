use alas_launcher::encoding::{fits_in_memory, save_as};
use alas_launcher::error_page::{backend_error_html, fill_error_page, ErrorPageTexts};
use alas_launcher::html::escape_html;
use alas_launcher::splash_page::{
    fill_splash_page, splash_redesigned_shell_html, splash_response, update_splash, SplashTexts,
};
use alas_launcher::titlebar::{
    main_window_titlebar_injection_script, page_load_injector, page_script_with,
    titlebar_script_with, TitlebarTexts,
};
use alas_launcher::urls::{
    backend_error_request_params, backend_error_url, handle_backend_navigation, is_backend_url,
    navigate_backend_or_error, params_of_request, splash_url, target_is_backend, Destination,
    Navigation, Param, Target,
};

fn titlebar_texts() -> TitlebarTexts {
    TitlebarTexts {
        minimize_to_tray: "Minimize to tray".to_owned(),
        minimize_window: "Minimize window".to_owned(),
        minimize: "Minimize".to_owned(),
        maximize_restore_window: "Maximize or restore".to_owned(),
        maximize: "Maximize".to_owned(),
        close_window: "Close window".to_owned(),
        close: "Close".to_owned(),
        restore: "Restore".to_owned(),
        maximize_action: "Maximize".to_owned(),
        restore_window: "Restore window".to_owned(),
        maximize_window: "Maximize window".to_owned(),
    }
}

fn splash_texts() -> SplashTexts {
    SplashTexts {
        default_tip: "Sakura Empire's cherry blossoms have fallen".to_owned(),
        loading_badge: "Loading".to_owned(),
        webui_init: "Preparing the web interface".to_owned(),
        starting: "Starting".to_owned(),
        error_badge: "Error".to_owned(),
        init_stopped: "Stopped".to_owned(),
        progress_meta_ready: "Ready".to_owned(),
        preparing_log: "Preparing".to_owned(),
        log_saved_prefix: "Saved ".to_owned(),
        log_failed: "Failed ".to_owned(),
        initializing: "Initializing <1>".to_owned(),
        minimize: "Minimize".to_owned(),
        close: "Close".to_owned(),
        download_log: "Download log".to_owned(),
    }
}

fn error_texts() -> ErrorPageTexts {
    let text = |s: &str| s.to_owned();
    ErrorPageTexts {
        title: text("No backend"),
        heading: text("Heading"),
        description: text("Description"),
        connection_info: text("Info"),
        address: text("Address"),
        error_label: text("Error"),
        retry: text("Retry"),
        download_gui_log: text("GUI log"),
        download_launcher_log: text("Launcher log"),
        reconnecting: text("Reconnecting"),
        still_failed: text("Still failed"),
        retry_failed: text("Retry failed"),
        preparing: text("Preparing %{label}"),
        saved: text("Saved"),
        download_failed: text("Download failed"),
        titlebar: titlebar_texts(),
    }
}

#[test]
fn test_english_splash_i18n_uses_json_literals() {
    let html = splash_redesigned_shell_html("light", "dark", "1.0.0", &splash_texts());

    assert!(html.contains(r#""defaultTip":"Sakura Empire's cherry blossoms"#));
    assert!(!html.contains("const defaultTip = '"));
    assert!(html.contains("window.__ALAS_SPLASH_READY = true;"));
}

#[test]
fn the_splash_page_is_filled_in() {
    let html = splash_redesigned_shell_html("LLL", "DDD", "9.8.7", &splash_texts());
    assert!(html.contains("url(data:image/webp;base64,LLL) center/cover"));
    assert!(html.contains("url(data:image/webp;base64,DDD);"));
    assert!(html.contains("v9.8.7</span>"));
    assert!(html.contains("Initializing &lt;1&gt;"));
    assert!(html.contains("Tips: Sakura Empire&#39;s cherry blossoms"));
    assert!(!html.contains("$I18N_"));
    let response = splash_response(b"\x00\x10", b"abc", "1", &splash_texts());
    assert!(response.contains("base64,ABA=)"));
    assert!(response.contains("base64,YWJj)"));
    assert!(fits_in_memory(b"abc"));
}

#[test]
fn texts_stand_in_the_pages_under_their_names() {
    let mut texts = splash_texts();
    texts.log_failed = "no \"log\"\n".to_owned();
    texts.loading_badge = "pay $5".to_owned();
    let html = splash_redesigned_shell_html("light", "dark", "1", &texts);
    assert!(html.contains(r#""logFailed":"no \"log\"\n""#));
    assert!(html.contains(r#""loading":"pay $5""#));
    texts.loading_badge = "$I18N_CLOSE".to_owned();
    texts.close = "Shut".to_owned();
    let html = splash_redesigned_shell_html("light", "dark", "1", &texts);
    assert!(!html.contains(r#""loading":"$I18N_CLOSE""#));
    assert!(html.contains(r#""loading":"Shut""#));
    let html = backend_error_html(1, "x", &error_texts(), true);
    assert!(html.contains(r#""title":"No backend""#));
}

#[test]
fn updates_are_handed_to_the_splash_page() {
    assert_eq!(
        update_splash("{\"a\":1}"),
        "window.__ALAS_SPLASH_UPDATE && window.__ALAS_SPLASH_UPDATE({\"a\":1});"
    );
}

#[test]
fn html_is_escaped() {
    assert_eq!(escape_html("<a href=\"x\">'&'</a>"), "&lt;a href=&quot;x&quot;&gt;&#39;&amp;&#39;&lt;/a&gt;");
    assert_eq!(escape_html("&lt;"), "&amp;lt;");
    assert_eq!(escape_html("中"), "中");
}

#[test]
fn the_title_bar_is_injected() {
    let script = main_window_titlebar_injection_script(&titlebar_texts(), false);
    assert!(script.starts_with("const i18n = {"));
    assert!(script.contains("\"hideLabel\":\"Minimize to tray\""));
    assert!(script.contains("ensureTitlebar();"));
    assert_eq!(main_window_titlebar_injection_script(&titlebar_texts(), true), "");
    let page = page_load_injector(&titlebar_texts(), false);
    assert!(page.contains(&script));
    assert!(!page.contains("__ALAS_TITLEBAR_SCRIPT__"));
    let bare = page_load_injector(&titlebar_texts(), true);
    assert!(bare.contains("window.saveAs = function"));
}

#[test]
fn the_error_page_is_filled_in() {
    let html = backend_error_html(22267, "say \"no\" {port}", &error_texts(), true);
    assert!(html.contains("<title>No backend</title>"));
    assert!(html.contains("const backendUrl = \"http://127.0.0.1:22267/\";"));
    assert!(html.contains("const errorDetail = \"say \\\"no\\\" {port}\";"));
    assert!(html.contains("const port = 22267;"));
    let odd = backend_error_html(1, "\\/\u{8}\t\n\u{c}\r\u{1}\u{1f}\u{7f}中", &error_texts(), true);
    assert!(odd.contains(
        "const errorDetail = \"\\\\/\\b\\t\\n\\f\\r\\u0001\\u001f\u{7f}中\";"
    ));
    assert!(html.contains("'download_today_gui_log', 'GUI log');"));
    assert!(html.contains("\"preparing\":\"Preparing %{label}\""));
    assert!(html.contains(".replace('%{label}', label)"));
    assert!(html.starts_with("<!doctype html>\n<html>\n"));
    assert!(html.ends_with("</html>"));
}

#[test]
fn files_are_decoded() {
    assert_eq!(save_as("YWJj").unwrap(), b"abc".to_vec());
    assert_eq!(save_as("ABA=").unwrap(), vec![0, 16]);
    assert!(save_as("%").is_err());
}

#[test]
fn the_error_address_is_read_back() {
    for web in [true, false] {
        for detail in ["no answer", "a&b=c?d#e %20 + ä 中\n", ""] {
            let url = backend_error_url(4242, detail, web).unwrap();
            let (port, read) = backend_error_request_params(&url, "default");
            assert_eq!((port, read.as_str()), (4242, detail));
        }
    }
    let url = backend_error_url(1, "a b", true).unwrap();
    assert_eq!(url, "http://alas-error.localhost/backend?port=1&detail=a+b");
    let url = backend_error_url(1, "a b", false).unwrap();
    assert_eq!(url, "alas-error://localhost/backend?port=1&detail=a+b");
}

#[test]
fn parameters_of_a_request_have_defaults() {
    assert_eq!(backend_error_request_params("nonsense", "d"), (22267, "d".to_owned()));
    assert_eq!(backend_error_request_params("http://x/", "d"), (22267, "d".to_owned()));
    let (port, detail) = backend_error_request_params("http://x/?port=1&port=z&detail=a&detail=b", "d");
    assert_eq!((port, detail.as_str()), (1, "b"));
    let param = |key: &str, value: &str| Param { key: key.to_owned(), value: value.to_owned() };
    let params = vec![param("port", "65536"), param("other", "1"), param("detail", "x")];
    assert_eq!(params_of_request(&params, "d"), (22267, "x".to_owned()));
}

#[test]
fn backend_addresses_are_told_apart() {
    assert!(is_backend_url("http://127.0.0.1:22267/x", 22267));
    assert!(is_backend_url("https://localhost:1", 1));
    assert!(is_backend_url("http://localhost/", 80));
    assert!(!is_backend_url("http://127.0.0.1:22267/", 22268));
    assert!(!is_backend_url("http://example.org:22267/", 22267));
    assert!(!is_backend_url("ftp://127.0.0.1:22267/", 22267));
    assert!(!is_backend_url("nonsense", 22267));
    assert_eq!(handle_backend_navigation("http://localhost:5/", 5), Navigation::CheckBackend);
    assert_eq!(handle_backend_navigation("http://localhost:6/", 5), Navigation::Allow);
    let target = Target { scheme: "http".to_owned(), host: None, port: Some(5) };
    assert!(!target_is_backend(&target, 5));
}

#[test]
fn the_window_goes_to_the_backend_or_to_the_error_page() {
    let backend = navigate_backend_or_error(5, None, false).unwrap();
    assert!(matches!(
        backend,
        Destination::Backend { address } if address == "http://127.0.0.1:5/"
    ));
    let error = navigate_backend_or_error(5, Some("x"), false).unwrap();
    assert!(matches!(
        error,
        Destination::ErrorPage { address }
            if address == "alas-error://localhost/backend?port=5&detail=x"
    ));
    assert_eq!(splash_url(true), "http://alas-splash.localhost/");
    assert_eq!(splash_url(false), "alas-splash://localhost/");
}

#[test]
fn pages_take_their_scripts_as_they_are() {
    let page = fill_error_page(7, "T()", "{1}", "\"u\"", "\"{i18n_json}\"", &error_texts());
    assert!(page.contains("(function () {\nT()\n    })();"));
    assert!(page.contains("const i18n = {1};\n    const backendUrl = \"u\";"));
    assert!(page.contains("const errorDetail = \"{i18n_json}\";\n    const port = 7;"));
    let script = titlebar_script_with("{}");
    assert!(script.starts_with("const i18n = {};\n"));
    assert!(page_script_with("T()").contains("\n        };\nT()\n    })();"));
    let splash = fill_splash_page("l", "d", "1", "{2}", &splash_texts());
    assert!(splash.contains("const i18n = {2};"));
}
