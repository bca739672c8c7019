//! Tests of the execution core: output model, channel runner, credential
//! resolution and the connection pool.

use control_panel_core::auth::{auth_outcome, plan_agent_auth, AgentAttempt, CredKind};
use control_panel_core::config::{
    AuthConfig, Config, DockerNode, DotfilesConfig, ProxmoxConfig, ServerConfig, SshConfig,
};
use control_panel_core::error::{
    agent_connect_error, agent_identities_error, channel_open_error, connect_error,
    exec_request_error, key_auth_error, AppError,
};
use control_panel_core::output::CommandOutput;
use control_panel_core::pool::{ExecStep, SshPool};
use control_panel_core::runner::{run_channel, ChannelDrain, ChannelEvent};

/// The text of an unencrypted ed25519 private key, built from a fixed
/// seed and encoded by the SSH key crate itself, so the decode path is
/// fed exactly what its own encoder produces.
fn test_key_text() -> String {
    let keypair = russh::keys::ssh_key::private::Ed25519Keypair::from_seed(&[7u8; 32]);
    let key_data = russh::keys::ssh_key::private::KeypairData::from(keypair);
    let key = russh::keys::ssh_key::PrivateKey::new(key_data, "test")
        .expect("an unencrypted keypair is accepted");
    key.to_openssh(russh::keys::ssh_key::LineEnding::LF)
        .expect("a fresh key encodes")
        .to_string()
}

fn test_config() -> Config {
    Config {
        server: ServerConfig { host: "0.0.0.0".to_string(), port: 3100 },
        auth: AuthConfig { username: "admin".to_string(), password: "password".to_string() },
        ssh: SshConfig {
            private_key_path: "/tmp/none".to_string(),
            default_user: "ops".to_string(),
        },
        proxmox: ProxmoxConfig { host: "10.0.0.9".to_string(), user: "root".to_string() },
        dotfiles: DotfilesConfig { path: "/tmp/dotfiles".to_string() },
        docker_nodes: vec![
            DockerNode {
                name: "node-a".to_string(),
                host: "10.0.0.5".to_string(),
                ctid: 100,
                user: Some("ops".to_string()),
            },
            DockerNode {
                name: "node-b".to_string(),
                host: "10.0.0.6".to_string(),
                ctid: 101,
                user: None,
            },
        ],
        profiles: vec![],
        grafana: None,
    }
}

#[test]
fn success_iff_exit_zero() {
    let ok = CommandOutput { stdout: String::new(), stderr: String::new(), exit_code: 0 };
    assert!(ok.success());
    let fail = CommandOutput { stdout: String::new(), stderr: String::new(), exit_code: 3 };
    assert!(!fail.success());
    let fail2 = CommandOutput { stdout: String::new(), stderr: String::new(), exit_code: 1 };
    assert!(!fail2.success());
}

#[test]
fn combined_four_cases() {
    let mk = |o: &str, e: &str| CommandOutput {
        stdout: o.to_string(),
        stderr: e.to_string(),
        exit_code: 0,
    };
    assert_eq!(mk("A", "").combined(), "A");
    assert_eq!(mk("", "B").combined(), "B");
    assert_eq!(mk("A", "B").combined(), "A\nB");
    assert_eq!(mk("", "").combined(), "");
}

#[test]
fn runner_collects_streams_and_exit() {
    let events = vec![
        ChannelEvent::Data { data: b"hi".to_vec() },
        ChannelEvent::ExtendedData { data: b"warn".to_vec(), ext: 1 },
        ChannelEvent::ExtendedData { data: b"ignored".to_vec(), ext: 2 },
        ChannelEvent::Data { data: b"\n".to_vec() },
        ChannelEvent::ExitStatus { exit_status: 0 },
        ChannelEvent::Eof,
    ];
    let out = run_channel(&events);
    assert_eq!(out.stdout, "hi\n");
    assert_eq!(out.stderr, "warn");
    assert_eq!(out.exit_code, 0);
    assert!(out.success());
}

#[test]
fn runner_defaults_missing_exit_to_zero() {
    let events = vec![ChannelEvent::Data { data: b"x".to_vec() }, ChannelEvent::Eof];
    let out = run_channel(&events);
    assert_eq!(out.exit_code, 0);
}

#[test]
fn runner_stops_at_eof() {
    let events = vec![
        ChannelEvent::Data { data: b"a".to_vec() },
        ChannelEvent::Eof,
        ChannelEvent::Data { data: b"b".to_vec() },
    ];
    let out = run_channel(&events);
    assert_eq!(out.stdout, "a");
}

#[test]
fn runner_decodes_invalid_utf8_lossily() {
    let events = vec![ChannelEvent::Data { data: vec![0xff] }, ChannelEvent::Eof];
    let out = run_channel(&events);
    assert_eq!(out.stdout, "\u{FFFD}");
}

#[test]
fn runner_is_stateless_across_runs() {
    let events = vec![
        ChannelEvent::Data { data: b"same".to_vec() },
        ChannelEvent::ExitStatus { exit_status: 7 },
        ChannelEvent::Eof,
    ];
    let first = run_channel(&events);
    let second = run_channel(&events);
    assert_eq!(first.stdout, second.stdout);
    assert_eq!(first.stderr, second.stderr);
    assert_eq!(first.exit_code, second.exit_code);
}

#[test]
fn drain_steps_match_whole_run() {
    let events = vec![
        ChannelEvent::Data { data: b"one".to_vec() },
        ChannelEvent::ExitStatus { exit_status: 2 },
        ChannelEvent::Eof,
    ];
    let mut drain = ChannelDrain::new();
    for ev in events.iter() {
        drain.step(ev);
        if drain.done {
            break;
        }
    }
    let out = drain.finish();
    assert_eq!(out.stdout, "one");
    assert_eq!(out.exit_code, 2);
}

#[test]
fn exit_three_is_not_an_error() {
    let events = vec![ChannelEvent::ExitStatus { exit_status: 3 }, ChannelEvent::Eof];
    let out = run_channel(&events);
    assert_eq!(out.exit_code, 3);
    assert!(!out.success());
    assert_eq!(out.stdout, "");
}

#[test]
fn echo_scenario_on_registered_target() {
    let mut pool = SshPool::new(test_config());
    let step = pool.begin_execute("node-a", Some(test_key_text().as_str()), false).unwrap();
    match step {
        ExecStep::Handshake { slot, host, user, cred } => {
            assert_eq!(host, "10.0.0.5");
            assert_eq!(user, "ops");
            assert_eq!(cred, CredKind::Key);
            pool.note_connected(slot, 41);
        }
        _ => panic!("expected a handshake for the first command"),
    }
    let events = vec![
        ChannelEvent::Data { data: b"hi\n".to_vec() },
        ChannelEvent::ExitStatus { exit_status: 0 },
        ChannelEvent::Eof,
    ];
    let out = run_channel(&events);
    assert_eq!(out.stdout, "hi\n");
    assert_eq!(out.stderr, "");
    assert_eq!(out.exit_code, 0);
    assert!(out.success());
}

#[test]
fn session_reused_until_closed() {
    let mut pool = SshPool::new(test_config());
    assert_eq!(pool.stored_session("node-a"), None);
    let step = pool.begin_execute("node-a", None, true).unwrap();
    let slot = match step {
        ExecStep::Handshake { slot, cred, .. } => {
            assert_eq!(cred, CredKind::Agent);
            slot
        }
        _ => panic!("expected a handshake"),
    };
    pool.note_connected(slot, 7);
    // the next two commands reuse session 7: no new handshake
    for _ in 0..2 {
        match pool.begin_execute("node-a", None, true).unwrap() {
            ExecStep::Run { session, .. } => assert_eq!(session, 7),
            _ => panic!("expected to run on the stored session"),
        }
    }
    assert_eq!(pool.stored_session("node-a"), Some(7));
    // closing the slot forces a reconnect
    pool.close_connection("node-a");
    assert_eq!(pool.stored_session("node-a"), None);
    match pool.begin_execute("node-a", None, true).unwrap() {
        ExecStep::Handshake { .. } => {}
        _ => panic!("expected a fresh handshake after close"),
    }
}

#[test]
fn different_targets_use_different_slots() {
    let mut pool = SshPool::new(test_config());
    let slot_a = match pool.begin_execute("node-a", None, true).unwrap() {
        ExecStep::Handshake { slot, .. } => slot,
        _ => panic!("expected a handshake"),
    };
    let slot_b = match pool.begin_execute("node-b", None, true).unwrap() {
        ExecStep::Handshake { slot, user, .. } => {
            // node-b has no user override: the default applies
            assert_eq!(user, "ops");
            slot
        }
        _ => panic!("expected a handshake"),
    };
    assert_ne!(slot_a, slot_b);
    pool.note_connected(slot_a, 1);
    // node-a's session does not leak to node-b
    assert_eq!(pool.stored_session("node-b"), None);
}

#[test]
fn unknown_target_fails_before_any_step() {
    let mut pool = SshPool::new(test_config());
    let err = pool.begin_execute("ghost", Some(test_key_text().as_str()), true).unwrap_err();
    match &err {
        AppError::NodeNotFound(name) => assert_eq!(name, "ghost"),
        _ => panic!("expected a target-not-found error"),
    }
    assert_eq!(err.message(), "Node not found: ghost");
}

#[test]
fn no_key_and_no_agent_fails_fast() {
    let mut pool = SshPool::new(test_config());
    let err = pool.begin_execute("node-a", None, false).unwrap_err();
    match &err {
        AppError::SshConnection(msg) => {
            assert!(msg.contains("unencrypted key"));
            assert!(msg.contains("SSH agent"));
        }
        _ => panic!("expected a connection-category error"),
    }
    assert!(err.is_connection());
    // resolution is retried: an agent appearing later succeeds
    match pool.begin_execute("node-a", None, true).unwrap() {
        ExecStep::Handshake { cred, .. } => assert_eq!(cred, CredKind::Agent),
        _ => panic!("expected a handshake"),
    }
}

#[test]
fn undecodable_key_falls_back_to_agent() {
    let mut pool = SshPool::new(test_config());
    let step = pool.begin_execute("node-a", Some("not a key at all"), true).unwrap();
    match step {
        ExecStep::Handshake { cred, .. } => assert_eq!(cred, CredKind::Agent),
        _ => panic!("expected a handshake"),
    }
}

#[test]
fn valid_key_is_preferred_and_cached() {
    let mut pool = SshPool::new(test_config());
    let kind = pool.ensure_credential(Some(test_key_text().as_str()), false).unwrap();
    assert_eq!(kind, CredKind::Key);
    assert!(pool.key_for_auth().is_some());
    // the cached credential is not re-resolved
    let kind2 = pool.ensure_credential(None, false).unwrap();
    assert_eq!(kind2, CredKind::Key);
}

#[test]
fn empty_agent_fails_before_any_offer() {
    let err = plan_agent_auth(0).unwrap_err();
    match &err {
        AppError::SshConnection(msg) => {
            assert_eq!(msg, "No keys available in SSH agent. Run: ssh-add");
        }
        _ => panic!("expected a connection-category error"),
    }
    assert!(plan_agent_auth(2).is_ok());
}

#[test]
fn auth_outcome_requires_an_accepted_offer() {
    let rejected = vec![AgentAttempt::Rejected, AgentAttempt::Failed];
    let err = auth_outcome(&rejected).unwrap_err();
    assert_eq!(err.message(), "SSH connection failed: Authentication rejected");
    let accepted = vec![AgentAttempt::Rejected, AgentAttempt::Accepted];
    assert!(auth_outcome(&accepted).is_ok());
    assert!(auth_outcome(&vec![]).is_err());
}

#[test]
fn error_messages_name_their_family() {
    assert_eq!(
        AppError::SshCommand("boom".to_string()).message(),
        "SSH command failed: boom"
    );
    assert_eq!(AppError::Docker("d".to_string()).message(), "Docker error: d");
    assert_eq!(
        AppError::ContainerNotFound("c".to_string()).message(),
        "Container not found: c"
    );
    assert_eq!(AppError::Config("x".to_string()).message(), "Configuration error: x");
    assert_eq!(AppError::Internal("i".to_string()).message(), "Internal error: i");
    assert_eq!(AppError::NotImplemented("n".to_string()).message(), "Not implemented: n");
    assert_eq!(AppError::Validation("v".to_string()).message(), "Validation error: v");
    assert_eq!(AppError::Io("o".to_string()).message(), "IO error: o");
    assert!(AppError::SshCommand("boom".to_string()).is_command());
    assert!(!AppError::SshCommand("boom".to_string()).is_connection());
}

#[test]
fn connection_error_constructors() {
    assert_eq!(
        connect_error("10.0.0.5", "timed out").message(),
        "SSH connection failed: Failed to connect to 10.0.0.5: timed out"
    );
    assert_eq!(
        key_auth_error("rejected").message(),
        "SSH connection failed: Key authentication failed: rejected"
    );
    assert_eq!(
        agent_connect_error("gone").message(),
        "SSH connection failed: Failed to connect to SSH agent: gone"
    );
    assert_eq!(
        agent_identities_error("io").message(),
        "SSH connection failed: Failed to get identities from agent: io"
    );
    assert!(channel_open_error("dead session").is_command());
    assert_eq!(
        exec_request_error("nope").message(),
        "SSH command failed: Failed to execute command: nope"
    );
}

#[test]
fn profile_and_proxmox_commands_use_one_shot_sessions() {
    let mut config = test_config();
    config.profiles.push(control_panel_core::config::ProfileConfig {
        name: "DESK".to_string(),
        profile_type: "desktop".to_string(),
        hostname: "desk".to_string(),
        ip: Some("10.0.0.7".to_string()),
        ctid: None,
        base_profile: None,
    });
    let mut pool = SshPool::new(config);
    // a profile that is also a registered target goes through its slot
    match pool.plan_profile_execute("node-a", None, true).unwrap() {
        ExecStep::Handshake { host, .. } => assert_eq!(host, "10.0.0.5"),
        _ => panic!("expected the registered target's handshake"),
    }
    // a plain profile gets an ad-hoc session as the default user
    match pool.plan_profile_execute("DESK", None, true).unwrap() {
        ExecStep::HandshakeEphemeral { host, user, cred } => {
            assert_eq!(host, "10.0.0.7");
            assert_eq!(user, "ops");
            assert_eq!(cred, CredKind::Agent);
        }
        _ => panic!("expected an ad-hoc handshake"),
    }
    // ad-hoc sessions are never stored
    assert_eq!(pool.stored_session("node-a"), None);
    // an unknown profile is refused with its own message
    let err = pool.plan_profile_execute("ghost", None, true).unwrap_err();
    assert_eq!(err.message(), "Node not found: Profile ghost not found or has no IP");
    // the hypervisor host is always ad-hoc
    match pool.plan_proxmox_execute(None, true).unwrap() {
        ExecStep::HandshakeEphemeral { host, user, .. } => {
            assert_eq!(host, "10.0.0.9");
            assert_eq!(user, "root");
        }
        _ => panic!("expected an ad-hoc handshake"),
    }
}
