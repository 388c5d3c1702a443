use std::collections::HashMap;

use nslogger::text::{parse_u16, split_once};
use nslogger::{BonjourServiceType, Config, ConnectionMode, LevelFilter};

fn parse(vars: &[(&str, &str)]) -> Config {
    let env: HashMap<String, String> = vars
        .iter()
        .map(|(k, v)| (k.to_string(), v.to_string()))
        .collect();
    Config::parse_with_getter(|key| env.get(key).cloned())
}

#[test]
fn parses_default_env() {
    assert_eq!(
        Config {
            filter: LevelFilter::Warn,
            mode: ConnectionMode::default(),
            flush_messages: false
        },
        parse(&[])
    )
}

#[test]
fn parses_file_path_from_env() {
    assert_eq!(
        Config {
            filter: LevelFilter::Warn,
            mode: ConnectionMode::File("/tmp/file_output.log".to_string()),
            flush_messages: false
        },
        parse(&[("NSLOG_FILENAME", "/tmp/file_output.log")])
    );
}

#[test]
fn parses_log_level_from_env() {
    assert_eq!(
        Config {
            filter: LevelFilter::Info,
            mode: ConnectionMode::default(),
            flush_messages: false
        },
        parse(&[("NSLOG_LEVEL", "INFO")])
    );
}

#[test]
fn disables_bonjour_ssl_from_env() {
    assert_eq!(
        Config {
            filter: LevelFilter::Warn,
            mode: ConnectionMode::Bonjour(BonjourServiceType::Default(false)),
            flush_messages: false
        },
        parse(&[("NSLOG_USE_SSL", "0")])
    );
}

#[test]
fn sets_local_host_from_env() {
    assert_eq!(
        Config {
            filter: LevelFilter::Warn,
            mode: ConnectionMode::Tcp("127.0.0.1".to_string(), 50000, true),
            flush_messages: false
        },
        parse(&[("NSLOG_HOST", "127.0.0.1:50000")])
    );
}

#[test]
fn sets_remote_host_from_env() {
    assert_eq!(
        Config {
            filter: LevelFilter::Warn,
            mode: ConnectionMode::Tcp("example.org".to_string(), 50000, true),
            flush_messages: false
        },
        parse(&[("NSLOG_HOST", "example.org:50000")])
    );
}

#[test]
fn sets_message_flushing_from_env() {
    assert_eq!(
        Config {
            filter: LevelFilter::Warn,
            mode: ConnectionMode::default(),
            flush_messages: true
        },
        parse(&[("NSLOG_FLUSH", "1")])
    );
}

#[test]
fn file_wins_over_host_and_bonjour() {
    let config = parse(&[
        ("NSLOG_FILENAME", "out.log"),
        ("NSLOG_HOST", "example.org:1"),
        ("NSLOG_BONJOUR_SERVICE", "_custom._tcp."),
    ]);
    assert_eq!(ConnectionMode::File("out.log".to_string()), config.mode);
}

#[test]
fn custom_bonjour_service_from_env() {
    let config = parse(&[("NSLOG_BONJOUR_SERVICE", "_custom._tcp."), ("NSLOG_USE_SSL", "no")]);
    assert_eq!(
        ConnectionMode::Bonjour(BonjourServiceType::Custom("_custom._tcp.".to_string(), true)),
        config.mode
    );
}

#[test]
fn malformed_host_falls_back_to_default() {
    assert_eq!(ConnectionMode::default(), parse(&[("NSLOG_HOST", "example.org")]).mode);
    assert_eq!(ConnectionMode::default(), parse(&[("NSLOG_HOST", "example.org:70000")]).mode);
    assert_eq!(ConnectionMode::default(), parse(&[("NSLOG_HOST", "example.org:")]).mode);
    assert_eq!(
        ConnectionMode::Tcp("h".to_string(), 8, false),
        parse(&[("NSLOG_HOST", "h:+8"), ("NSLOG_USE_SSL", "0")]).mode
    );
    assert_eq!(
        ConnectionMode::default(),
        parse(&[("NSLOG_HOST", "h:+8:")]).mode
    );
}

#[test]
fn level_names_ignore_case() {
    assert_eq!(LevelFilter::Trace, parse(&[("NSLOG_LEVEL", "trace")]).filter);
    assert_eq!(LevelFilter::Off, parse(&[("NSLOG_LEVEL", "oFf")]).filter);
    assert_eq!(LevelFilter::Warn, parse(&[("NSLOG_LEVEL", "verbose")]).filter);
    assert_eq!(Some(LevelFilter::Error), LevelFilter::from_name("Error"));
    assert_eq!(None, LevelFilter::from_name("ERRORS"));
}

#[test]
fn flushing_needs_exactly_one() {
    assert!(!parse(&[("NSLOG_FLUSH", "true")]).flush_messages);
    assert!(!parse(&[("NSLOG_FLUSH", "0")]).flush_messages);
}

#[test]
fn builds_config_from_parts() {
    let config = Config::new(LevelFilter::Debug, ConnectionMode::File("a".to_string()), true);
    assert_eq!(LevelFilter::Debug, config.filter);
    assert_eq!(ConnectionMode::File("a".to_string()), config.mode);
    assert!(config.flush_messages);
}

#[test]
fn parses_ports_like_std() {
    for text in ["0", "80", "+443", "65535", "00080", "", "+", "-1", "65536", " 80", "8a", "٣"] {
        assert_eq!(text.parse::<u16>().ok(), parse_u16(text), "{text:?}");
    }
}

#[test]
fn splits_at_first_separator() {
    assert_eq!(Some(("a", "b:c")), split_once("a:b:c", ':'));
    assert_eq!(Some(("", "")), split_once(":", ':'));
    assert_eq!(None, split_once("abc", ':'));
    assert_eq!(Some(("é", "ü")), split_once("é:ü", ':'));
}

#[test]
fn ssl_requirements() {
    assert!(ConnectionMode::default().requires_ssl());
    assert!(!ConnectionMode::File("f".to_string()).requires_ssl());
    assert!(ConnectionMode::Tcp("h".to_string(), 1, true).requires_ssl());
    assert!(!BonjourServiceType::Custom("s".to_string(), false).requires_ssl());
    assert_eq!(
        ("_nslogger-ssl._tcp.".to_string(), true),
        BonjourServiceType::Default(true).browse_target()
    );
    assert_eq!(
        ("_nslogger._tcp.".to_string(), false),
        BonjourServiceType::Default(false).browse_target()
    );
}
