use device_agent::cli::{
    env_error, get_agent_config, help, is_ok_response, parse, same_configuration, ConfigError,
    Environment, Parsed, ParsedAction, StopMode,
};
use device_agent::creds::CredErr;
use device_agent::moonlight_client::ConnectMode;

fn env(local: Option<&str>) -> Environment {
    Environment {
        fleet_id: Some("ABCD1234".to_string()),
        device_id: Some("ABCDE12345".to_string()),
        device_secret: Some("FOS-ABCDEFGHIJKLMNOPQRSTUVWXYZ012345".to_string()),
        local_mode: local.map(|s| s.to_string()),
    }
}

fn args(words: &[&str]) -> Vec<String> {
    words.iter().map(|w| w.to_string()).collect()
}

#[test]
fn test_parse_plain_commands() {
    assert!(matches!(parse(&args(&[]), &env(None)), Parsed::Help));
    assert!(matches!(parse(&args(&["help"]), &env(None)), Parsed::Help));
    assert!(matches!(parse(&args(&["HELP"]), &env(None)), Parsed::Help));
    assert!(matches!(
        parse(&args(&["version"]), &env(None)),
        Parsed::Version
    ));
    assert!(matches!(
        parse(&args(&["stop"]), &env(None)),
        Parsed::Action(ParsedAction::Stop)
    ));
    assert!(matches!(
        parse(&args(&["Status"]), &env(None)),
        Parsed::Action(ParsedAction::Status)
    ));
    match parse(&args(&["stop", "NOW"]), &env(None)) {
        Parsed::Unknown(message) => assert_eq!(message, "Unknown Command: stop now"),
        other => panic!("unexpected: {other:?}"),
    }
    match parse(&args(&["frobnicate"]), &env(None)) {
        Parsed::Unknown(message) => assert_eq!(message, "Unknown Command: frobnicate"),
        other => panic!("unexpected: {other:?}"),
    }
}

#[test]
fn test_parse_start_commands() {
    match parse(&args(&["run"]), &env(None)) {
        Parsed::Action(ParsedAction::Start(config)) => {
            assert!(!config.start_daemon);
            assert!(!config.enable_tcp_socket);
            assert!(config.enable_unix_socket);
            assert_eq!(config.connect_mode, ConnectMode::Prod);
            assert!(config.creds.prod);
            assert_eq!(config.creds.fleet_id, "ABCD1234");
        }
        other => panic!("unexpected: {other:?}"),
    }
    match parse(&args(&["start", "--TCP"]), &env(Some("1"))) {
        Parsed::Action(ParsedAction::Start(config)) => {
            assert!(config.start_daemon);
            assert!(config.enable_tcp_socket);
            assert_eq!(config.connect_mode, ConnectMode::Local(8484));
            assert!(!config.creds.prod);
        }
        other => panic!("unexpected: {other:?}"),
    }
    match parse(&args(&["daemon", "x", "--tcp"]), &env(Some("true"))) {
        Parsed::Action(ParsedAction::Daemon(config)) => {
            assert!(config.start_daemon);
            assert!(config.enable_tcp_socket);
            assert_eq!(config.connect_mode, ConnectMode::Local(8484));
        }
        other => panic!("unexpected: {other:?}"),
    }
    match parse(&args(&["run"]), &env(Some("yes"))) {
        Parsed::Action(ParsedAction::Start(config)) => {
            assert_eq!(config.connect_mode, ConnectMode::Prod)
        }
        other => panic!("unexpected: {other:?}"),
    }
}

#[test]
fn test_configuration_errors() {
    let mut missing = env(None);
    missing.device_id = None;
    assert!(matches!(
        parse(&args(&["run"]), &missing),
        Parsed::Invalid(ConfigError::Environment)
    ));
    assert_eq!(
        get_agent_config(&missing, false, false).unwrap_err(),
        ConfigError::Environment
    );
    assert_eq!(ConfigError::Environment.message(), env_error());
    assert!(env_error().contains("$FOSTROM_DEVICE_SECRET"));

    let mut bad = env(None);
    bad.device_secret = Some("FOS-short".to_string());
    assert_eq!(
        get_agent_config(&bad, true, true).unwrap_err(),
        ConfigError::Credentials(CredErr::DeviceSecretInvalid)
    );
    assert_eq!(
        ConfigError::Credentials(CredErr::DeviceSecretInvalid).message(),
        CredErr::DeviceSecretInvalid.to_string()
    );
    let mut empty = env(None);
    empty.fleet_id = Some(String::new());
    assert_eq!(
        get_agent_config(&empty, true, true).unwrap_err(),
        ConfigError::Credentials(CredErr::FleetIDMissing)
    );
}

#[test]
fn test_stop_messages_and_small_checks() {
    assert_eq!(
        StopMode::NotRunning.message(),
        "stopped: The agent was not running."
    );
    assert_eq!(
        StopMode::Stopped.message(),
        "stopped: The agent has been stopped."
    );
    assert_eq!(
        StopMode::ForceKilled.message(),
        "stopped: The agent has been stopped by forced kill."
    );
    assert!(StopMode::Failed.message().starts_with("timeout: "));
    assert!(StopMode::Failed.is_failure());
    assert!(!StopMode::Stopped.is_failure());

    assert!(help().starts_with("Fostrom Device Agent v"));
    assert!(help().contains("    status              Get the agent's status\n"));

    assert!(is_ok_response("HTTP/1.1 200 OK\r\n\r\n{}"));
    assert!(!is_ok_response("HTTP/1.1 404 Not Found\r\n\r\n"));
    assert!(!is_ok_response(""));
    assert!(!is_ok_response("200 O"));

    assert!(same_configuration("abc123\n", "abc123"));
    assert!(same_configuration("  abc123 \r\n", "abc123"));
    assert!(!same_configuration("abc 123", "abc123"));
    assert!(!same_configuration("", "abc123"));
    assert!(same_configuration(" \n", ""));
}
