use mxqueue::config::{load, ConfigError};
use mxqueue::logging::dlog;
use mxqueue::queue::{check_mkdir, DeployError};
use mxqueue::ssh::{connect_action, connect_advance, finish_run, ConnectAction, ConnectError,
    ConnectPhase};

#[test]
fn run_success_has_empty_stderr() {
    let r = finish_run(0, "out".to_string(), "noise that is never read".to_string());
    assert_eq!(r.exit_code, 0);
    assert_eq!(r.stdout, "out");
    assert_eq!(r.stderr, "");
    assert!(r.is_success());
}

#[test]
fn run_failure_carries_stderr() {
    let r = finish_run(2, "partial".to_string(), "boom".to_string());
    assert_eq!(r.exit_code, 2);
    assert_eq!(r.stdout, "partial");
    assert_eq!(r.stderr, "boom");
    assert!(!r.is_success());
}

#[test]
fn mkdir_exit_zero_passes_twice() {
    // `mkdir -p` on an existing directory exits zero again: the check accepts
    // the result of a first and of a repeated creation alike.
    let first = finish_run(0, String::new(), String::new());
    let repeat = finish_run(0, String::new(), String::new());
    assert!(check_mkdir(&first).is_ok());
    assert!(check_mkdir(&repeat).is_ok());
}

#[test]
fn mkdir_nonzero_exit_is_fatal() {
    let r = finish_run(1, String::new(), "permission denied".to_string());
    assert_eq!(check_mkdir(&r).unwrap_err(), DeployError::DirCreateFailed);
}

#[test]
fn connect_walks_all_phases() {
    let mut phase = ConnectPhase::KeyCheck;
    let expected = [
        ConnectAction::CheckKeyFile,
        ConnectAction::OpenTcp,
        ConnectAction::SshHandshake,
        ConnectAction::Authenticate,
    ];
    for want in expected {
        assert_eq!(connect_action(&phase), Some(want));
        phase = connect_advance(phase, true).unwrap();
    }
    assert_eq!(phase, ConnectPhase::Established);
    assert_eq!(connect_action(&phase), None);
}

#[test]
fn connect_fails_distinctly_per_phase() {
    assert_eq!(
        connect_advance(ConnectPhase::KeyCheck, false).unwrap_err(),
        ConnectError::KeyNotFound
    );
    assert_eq!(
        connect_advance(ConnectPhase::TcpConnect, false).unwrap_err(),
        ConnectError::ConnectFailed
    );
    assert_eq!(
        connect_advance(ConnectPhase::Handshake, false).unwrap_err(),
        ConnectError::HandshakeFailed
    );
    assert_eq!(
        connect_advance(ConnectPhase::Auth, false).unwrap_err(),
        ConnectError::AuthRejected
    );
}

#[test]
fn missing_key_file_stops_before_any_network_step() {
    // The first action of a connection attempt is the local key-file check,
    // and its failure ends the attempt.
    let phase = ConnectPhase::KeyCheck;
    assert_eq!(connect_action(&phase), Some(ConnectAction::CheckKeyFile));
    let r = connect_advance(phase, false);
    assert_eq!(r.unwrap_err(), ConnectError::KeyNotFound);
}

#[test]
fn load_full_profile() {
    let c = load(
        Some("cluster.example".to_string()),
        Some(2222),
        Some("alice".to_string()),
        Some(vec!["/home/alice/.ssh/id".to_string(), "spare".to_string()]),
    )
    .unwrap();
    assert_eq!(c.addr, "cluster.example:2222");
    assert_eq!(c.user, "alice");
    assert_eq!(c.key, "/home/alice/.ssh/id");
}

#[test]
fn load_defaults_port() {
    let c = load(
        Some("cluster".to_string()),
        None,
        Some("bob".to_string()),
        Some(vec!["key".to_string()]),
    )
    .unwrap();
    assert_eq!(c.addr, "cluster:22");
}

#[test]
fn load_reports_each_missing_field() {
    let r = load(None, None, Some("u".to_string()), Some(vec!["k".to_string()]));
    assert_eq!(r.unwrap_err(), ConfigError::HostNotFound);
    let r = load(Some("h".to_string()), None, None, Some(vec!["k".to_string()]));
    assert_eq!(r.unwrap_err(), ConfigError::UserMissing);
    let r = load(Some("h".to_string()), None, Some("u".to_string()), None);
    assert_eq!(r.unwrap_err(), ConfigError::KeyMissing);
    let r = load(Some("h".to_string()), None, Some("u".to_string()), Some(vec![]));
    assert_eq!(r.unwrap_err(), ConfigError::KeyMissing);
}

#[test]
fn dlog_keeps_values_and_collapses_errors() {
    let ok: Result<u32, &str> = Ok(5);
    assert_eq!(dlog(ok, "fine", "bad"), Ok(5));
    let err: Result<u32, &str> = Err("detail");
    assert_eq!(dlog(err, "fine", "bad"), Err(()));
}
