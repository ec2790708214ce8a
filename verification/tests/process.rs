use orcas_daemon::model::OrcasError;
use orcas_daemon::process::{
    apply_runtime_overrides, fingerprint_hex, launch_action, parse_u32, socket_owner_pid, unreachable_error, AppConfig,
    CodexConfig, CodexConnectionMode, DefaultsConfig, LaunchAction, OrcasDaemonLaunch, OrcasRuntimeOverrides, SocketGuard,
};

fn config() -> AppConfig {
    AppConfig {
        codex: CodexConfig {
            binary_path: "codex".to_string(),
            listen_url: "ws://127.0.0.1:4500".to_string(),
            connection_mode: CodexConnectionMode::SpawnIfNeeded,
        },
        defaults: DefaultsConfig { cwd: None, model: Some("gpt".to_string()) },
    }
}

#[test]
fn overrides_replace_only_what_they_name() {
    let mut c = config();
    apply_runtime_overrides(&mut c, &OrcasRuntimeOverrides::default());
    assert_eq!(c.codex.binary_path, "codex");
    assert_eq!(c.codex.connection_mode, CodexConnectionMode::SpawnIfNeeded);
    assert_eq!(c.defaults.model.as_deref(), Some("gpt"));

    let overrides = OrcasRuntimeOverrides {
        codex_bin: Some("/opt/codex".to_string()),
        listen_url: None,
        cwd: Some("/work".to_string()),
        model: None,
        connect_only: true,
        force_spawn: true,
    };
    apply_runtime_overrides(&mut c, &overrides);
    assert_eq!(c.codex.binary_path, "/opt/codex");
    assert_eq!(c.codex.listen_url, "ws://127.0.0.1:4500");
    assert_eq!(c.codex.connection_mode, CodexConnectionMode::SpawnAlways);
    assert_eq!(c.defaults.cwd.as_deref(), Some("/work"));
    assert_eq!(c.defaults.model.as_deref(), Some("gpt"));
}

#[test]
fn launch_decisions_follow_the_policy() {
    assert_eq!(launch_action(OrcasDaemonLaunch::Never, true), LaunchAction::UseRunning);
    assert_eq!(launch_action(OrcasDaemonLaunch::Never, false), LaunchAction::Unreachable);
    assert_eq!(launch_action(OrcasDaemonLaunch::IfNeeded, false), LaunchAction::Spawn);
    assert_eq!(launch_action(OrcasDaemonLaunch::IfNeeded, true), LaunchAction::UseRunning);
    assert_eq!(launch_action(OrcasDaemonLaunch::Always, true), LaunchAction::Restart);
    match unreachable_error("/tmp/orcas.sock") {
        OrcasError::Transport(m) => assert_eq!(m, "Orcas daemon is not reachable at /tmp/orcas.sock"),
        other => panic!("unexpected {other:?}"),
    }
}

#[test]
fn numbers_parse_like_str_parse() {
    assert_eq!(parse_u32("42"), Some(42));
    assert_eq!(parse_u32("+7"), Some(7));
    assert_eq!(parse_u32("4294967295"), Some(u32::MAX));
    assert_eq!(parse_u32("4294967296"), None);
    assert_eq!(parse_u32(""), None);
    assert_eq!(parse_u32("+"), None);
    assert_eq!(parse_u32("-1"), None);
    assert_eq!(parse_u32("12a"), None);
}

#[test]
fn socket_owner_is_the_first_line_with_a_pid() {
    assert_eq!(socket_owner_pid("1234\n5678\n"), Some(1234));
    assert_eq!(socket_owner_pid("\n  notapid\n  99  \n"), Some(99));
    assert_eq!(socket_owner_pid(""), None);
    assert_eq!(socket_owner_pid("p123\n"), None);
}

#[test]
fn fingerprints_are_sixteen_hex_digits() {
    assert_eq!(fingerprint_hex(0), "0000000000000000");
    assert_eq!(fingerprint_hex(0xdead_beef), "00000000deadbeef");
    assert_eq!(fingerprint_hex(u64::MAX), "ffffffffffffffff");
}

#[test]
fn socket_guard_names_its_files() {
    let guard = SocketGuard::new("/tmp/orcasd.sock".to_string(), "/tmp/orcasd.json".to_string());
    assert_eq!(guard.path, "/tmp/orcasd.sock");
    assert_eq!(guard.metadata_path, "/tmp/orcasd.json");
}
