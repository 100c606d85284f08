use trycp_server::paths::{get_dna_path, join_path};
use trycp_server::rpc::{
    already_running, check_player_config_exists, configured_reply, confirms_reset, dna_path_for,
    get_holochain_version, internal_error, invalid_request, is_ready_line, no_conductor,
    os_eval, player_config_text, registration_url, replace_conductor_command, shutdown_failure,
    shutdown_reply, shutdown_signal, startup_reply, CommandOutput, ErrorKind, ShutdownSignal,
};
use trycp_server::server::TrycpServer;
use trycp_server::text::{strip_prefix_and_trim, trim_end};

#[test]
fn paths_join_like_std() {
    assert_eq!(join_path("/tmp/x", "p1"), "/tmp/x/p1");
    assert_eq!(join_path("/tmp/x/", "p1"), "/tmp/x/p1");
    assert_eq!(join_path("/tmp/x", "/etc"), "/etc");
    assert_eq!(join_path("", "p1"), "p1");
    assert_eq!(join_path("/tmp/x", ""), "/tmp/x/");
    for (a, b) in [("/tmp/x", "p1"), ("/tmp/x/", "p1"), ("/tmp/x", "/etc"), ("", "p"), ("a", "")].iter() {
        let std_join = std::path::Path::new(a).join(b);
        assert_eq!(join_path(a, b), std_join.to_str().unwrap());
    }
}

#[test]
fn conductor_paths() {
    let server = TrycpServer::new(1..2, "/tmp/trycp/conductors/abc".to_string());
    assert_eq!(server.get_conductor_dir("alice"), "/tmp/trycp/conductors/abc/alice");
    assert_eq!(server.get_config_path("alice"), "/tmp/trycp/conductors/abc/alice/conductor-config.yml");
    assert_eq!(server.get_stdout_log_path("alice"), "/tmp/trycp/conductors/abc/alice/stdout.txt");
    assert_eq!(server.get_stderr_log_path("alice"), "/tmp/trycp/conductors/abc/alice/stderr.txt");
}

#[test]
fn dna_paths() {
    assert_eq!(get_dna_path("/a/b%20c.dna"), "/tmp/trycp/dnas/ab_20c.dna");
    assert_eq!(get_dna_path(""), "/tmp/trycp/dnas/");
    assert_eq!(
        dna_path_for("https://example.com/files/my%20app.dna.gz?x=1"),
        Ok("/tmp/trycp/dnas/filesmy_20app.dna.gz".to_string())
    );
    let err = dna_path_for("nope").unwrap_err();
    assert_eq!(err.kind, ErrorKind::InvalidRequest);
    assert_eq!(err.message, "unable to parse url:nope got error: relative URL without a base");
}

#[test]
fn errors_carry_kind_and_message() {
    let e = internal_error("boom".to_string());
    assert_eq!(e.kind, ErrorKind::InternalError);
    assert_eq!(e.message, "boom");
    let e = invalid_request("bad".to_string());
    assert_eq!(e.kind, ErrorKind::InvalidRequest);
    assert_eq!(e.message, "bad");
}

#[test]
fn player_config_file_text() {
    let text = player_config_text(9001, "network: ~");
    let expected = "---\nenvironment_path: environment\nuse_dangerous_test_keystore: false\nkeystore_path: keystore\npassphrase_service:\n  type: fromconfig\n  passphrase: password\nadmin_interfaces:\n  -\n    driver:\n      type: websocket\n      port: 9001\nnetwork: ~\n";
    assert_eq!(text, expected);
}

#[test]
fn player_messages() {
    assert_eq!(check_player_config_exists(true, "bob"), Ok(()));
    let e = check_player_config_exists(false, "bob").unwrap_err();
    assert_eq!(e.kind, ErrorKind::InvalidRequest);
    assert_eq!(e.message, "player config for bob not setup");
    assert_eq!(configured_reply("bob", "/x/bob/c.yml"), "wrote config for player bob to /x/bob/c.yml");
    let e = already_running("bob");
    assert_eq!((e.kind, e.message), (ErrorKind::InvalidRequest, "bob is already running".to_string()));
    assert_eq!(startup_reply("bob"), "conductor started up for bob");
    let e = no_conductor("bob");
    assert_eq!((e.kind, e.message), (ErrorKind::InvalidRequest, "no conductor spawned for bob".to_string()));
    let e = shutdown_failure("bob", "ESRCH");
    assert_eq!(
        (e.kind, e.message),
        (ErrorKind::InternalError, "unable to shut down conductor for bob script: ESRCH".to_string())
    );
    assert_eq!(shutdown_reply("bob"), "shut down conductor for bob");
}

#[test]
fn ready_line_and_reset_confirmation() {
    assert!(is_ready_line("Conductor ready."));
    assert!(!is_ready_line("Conductor ready"));
    assert!(confirms_reset(Some("reset")));
    assert!(!confirms_reset(Some("Reset")));
    assert!(!confirms_reset(None));
}

#[test]
fn shutdown_signals() {
    assert_eq!(shutdown_signal(None), ShutdownSignal::SigTerm);
    assert_eq!(shutdown_signal(Some("SIGKILL")), ShutdownSignal::SigKill);
    assert_eq!(shutdown_signal(Some("SIGTERM")), ShutdownSignal::SigTerm);
    assert_eq!(shutdown_signal(Some("SIGHUP")), ShutdownSignal::SigInt);
}

#[test]
fn replace_conductor_commands() {
    assert_eq!(replace_conductor_command(false, "r", "t", "f"), None);
    assert_eq!(
        replace_conductor_command(true, "holochain", "v0.1", "hc.tar.gz"),
        Some("curl -L -k https://github.com/holochain/holochain/releases/download/v0.1/hc.tar.gz -o holochain.tar.gz && tar -xzvf holochain.tar.gz && mv holochain /holochain/.cargo/bin/holochain && rm holochain.tar.gz".to_string())
    );
}

#[test]
fn registration_urls() {
    assert_eq!(registration_url("localhost", 9000), "ws://localhost:9000");
}

#[test]
fn holochain_version_text() {
    assert_eq!(get_holochain_version(Ok(b"holochain 0.0.100\n".to_vec())), Ok("0.0.100".to_string()));
    assert_eq!(get_holochain_version(Ok(b"  0.1 ".to_vec())), Ok("0.1".to_string()));
    assert_eq!(
        get_holochain_version(Ok(vec![0xff])),
        Err("failed to parse holochain output as utf-8: invalid utf-8 sequence of 1 bytes from index 0".to_string())
    );
    assert_eq!(
        get_holochain_version(Err("No such file".to_string())),
        Err("failed to execute `holochain -V`: No such file".to_string())
    );
}

#[test]
fn shell_command_replies() {
    let out = CommandOutput { success: true, stdout: b"hello\n\n".to_vec(), stderr: b"ignored".to_vec() };
    assert_eq!(os_eval(Ok(out)), "hello");
    let out = CommandOutput { success: false, stdout: b"x".to_vec(), stderr: vec![b'e', 0xff, b' '] };
    assert_eq!(os_eval(Ok(out)), "e\u{fffd}");
    assert_eq!(os_eval(Err("NotFound".to_string())), "cmd err: NotFound");
}

#[test]
fn whitespace_trimming_matches_std() {
    let samples = ["", " ", "\u{3000}x\u{2029}", "a b\t\n", "\u{85}\u{a0}q\u{200b}", "\u{1680}z\u{202f}"];
    for s in samples.iter() {
        assert_eq!(trim_end(s), s.trim_end());
        assert_eq!(strip_prefix_and_trim(s, "holochain"), s.strip_prefix("holochain").unwrap_or(s).trim());
    }
    assert_eq!(strip_prefix_and_trim("holochainX", "holochain"), "X");
    assert_eq!(strip_prefix_and_trim("holo", "holochain"), "holo");
}

#[test]
fn rpc_addresses_are_checked() {
    let ok = trycp_server::rpc::check_rpc_uri("ws://localhost:9000").unwrap();
    assert_eq!(ok.as_str(), "ws://localhost:9000/");
    match trycp_server::rpc::check_rpc_uri("localhost") {
        Ok(_) => panic!("expected a parse error"),
        Err(m) => assert_eq!(m, "unable to parse url:localhost got error: relative URL without a base"),
    }
}

#[test]
fn rpc_replies_give_error_or_result() {
    assert_eq!(trycp_server::rpc::rpc_reply_outcome(None, Some(7u32)), Ok(7));
    assert_eq!(trycp_server::rpc::rpc_reply_outcome(Some("E".to_string()), Some(7u32)), Err("E".to_string()));
    assert_eq!(trycp_server::rpc::rpc_reply_outcome::<u32>(Some("E".to_string()), None), Err("E".to_string()));
}
