use alas_launcher::time_bomb::{
    cargo_toml_section, cargo_toml_value, fetch_network_time, manifest_section, time_bomb_config,
    time_bomb_expiration_message, time_bomb_in, time_bomb_settings, Moment, NetworkTimeError,
    TimeBombConfig, TimeBombError,
};

const ENABLED: &str = "[package]
name = \"x\"
[package.metadata.alas-launcher.time-bomb]
enabled = true # for now
expires-at = \"2025-03-01T08:00:00+08:00\"
message = \"over\"
[dependencies]
enabled = false
";

#[test]
fn test_time_bomb_config_parses_when_enabled() {
    let section =
        cargo_toml_section("package.metadata.alas-launcher.time-bomb").expect("section exists");
    let enabled = cargo_toml_value(&section, "enabled").as_deref() == Some("true");
    let config = time_bomb_config("over").expect("time bomb config parses");
    assert_eq!(config.is_some(), enabled);
}

#[test]
fn test_cargo_toml_value_reads_time_bomb_fields() {
    let section =
        cargo_toml_section("package.metadata.alas-launcher.time-bomb").expect("section exists");
    assert!(cargo_toml_value(&section, "expires-at").is_some());
    assert_eq!(
        Some("测试已结束，请安装正式版".to_owned()),
        cargo_toml_value(&section, "message")
    );
}

#[test]
fn a_section_ends_at_the_next_one() {
    let section = manifest_section(ENABLED, "package.metadata.alas-launcher.time-bomb").unwrap();
    assert_eq!(cargo_toml_value(&section, "enabled"), Some("true".to_owned()));
    assert_eq!(cargo_toml_value(&section, "name"), None);
    assert_eq!(manifest_section(ENABLED, "missing"), None);
    assert_eq!(manifest_section(ENABLED, "dependencies").as_deref(), Some("\nenabled = false\n"));
}

#[test]
fn values_lose_comments_and_quotes() {
    assert_eq!(cargo_toml_value("a = \"b\" # c", "a").as_deref(), Some("b"));
    assert_eq!(cargo_toml_value("a = \"b", "a").as_deref(), Some("\"b"));
    assert_eq!(cargo_toml_value("a = \"", "a").as_deref(), Some("\""));
    assert_eq!(cargo_toml_value("# a = 1\na = 2\na = 3", "a").as_deref(), Some("2"));
    assert_eq!(cargo_toml_value("a=b=c", "a").as_deref(), Some("b=c"));
    assert_eq!(cargo_toml_value("ab", "ab"), None);
}

#[test]
fn an_enabled_end_is_read() {
    let config = time_bomb_in(ENABLED, "default text").unwrap().unwrap();
    assert_eq!(config.expires_at, Moment { seconds: 1_740_787_200, nanos: 0 });
    assert_eq!(config.network_time_url, "http://www.gstatic.com/generate_204");
    assert_eq!(config.message, "over");
}

#[test]
fn an_end_that_is_off_or_absent_is_none() {
    assert!(matches!(time_bomb_in("[package]\n", "x"), Ok(None)));
    let off = "[package.metadata.alas-launcher.time-bomb]\nenabled = True\n";
    assert!(matches!(time_bomb_in(off, "x"), Ok(None)));
}

#[test]
fn an_end_without_a_date_is_an_error() {
    let none = "[package.metadata.alas-launcher.time-bomb]\nenabled = true\n";
    assert!(matches!(time_bomb_in(none, "x"), Err(TimeBombError::NotConfigured)));
    let bad = "[package.metadata.alas-launcher.time-bomb]\nenabled = true\nexpires-at = \"soon\"\n";
    assert!(matches!(time_bomb_in(bad, "x"), Err(TimeBombError::Format { .. })));
}

#[test]
fn settings_fall_back_to_the_default_text() {
    let config = time_bomb_settings("", Moment { seconds: 5, nanos: 1 }, "ended");
    assert_eq!(config.message, "ended");
    assert_eq!(config.expires_at.seconds, 5);
    let own = time_bomb_settings(
        "network-time-url = \"http://time\"\nmessage = \"bye\"",
        Moment { seconds: 5, nanos: 1 },
        "ended",
    );
    assert_eq!(own.network_time_url, "http://time");
    assert_eq!(own.message, "bye");
}

#[test]
fn a_version_that_has_ended_stays_ended() {
    let config = TimeBombConfig {
        expires_at: Moment { seconds: 100, nanos: 5 },
        network_time_url: String::new(),
        message: "over".to_owned(),
    };
    assert_eq!(time_bomb_expiration_message(&config, Moment { seconds: 99, nanos: 9 }), None);
    assert_eq!(time_bomb_expiration_message(&config, Moment { seconds: 100, nanos: 4 }), None);
    let over = Some("over".to_owned());
    assert_eq!(time_bomb_expiration_message(&config, Moment { seconds: 100, nanos: 5 }), over);
    assert_eq!(time_bomb_expiration_message(&config, Moment { seconds: 101, nanos: 0 }), over);
}

#[test]
fn the_network_time_comes_from_the_date_header() {
    let time = fetch_network_time(Some("Sat, 01 Mar 2025 00:00:00 GMT")).unwrap();
    assert_eq!(time, Moment { seconds: 1_740_787_200, nanos: 0 });
    assert!(matches!(fetch_network_time(None), Err(NetworkTimeError::Missing)));
    assert!(matches!(fetch_network_time(Some("today")), Err(NetworkTimeError::Format { .. })));
}
