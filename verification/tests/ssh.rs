use ssh_terminal::session::ConnectionConfig;
use ssh_terminal::ssh::{
    address, read_result, resize_result, write_result, Action, ConnectionState, ErrorKind, Phase,
    ReadOutcome, SshConnection, SshError, SshManager, Stage, StepOutcome, TeardownStep,
    CONNECT_TIMEOUT_SECS, INITIAL_COLS, INITIAL_ROWS, MAX_ID_DRAWS, READ_BUFFER_SIZE,
};

fn config(auth_type: &str) -> ConnectionConfig {
    ConnectionConfig {
        host: "example.org".to_string(),
        port: 2222,
        username: "alice".to_string(),
        auth_type: auth_type.to_string(),
        auth_value: "value".to_string(),
    }
}

fn made(auth_type: &str) -> SshConnection {
    let mut connection = SshConnection::new(config(auth_type));
    connection.begin();
    for _ in 0..9 {
        connection.advance(StepOutcome::Done);
    }
    assert_eq!(connection.advance(StepOutcome::Done), Action::Register);
    connection
}

fn run_to(auth_type: &str, stage: Stage) -> SshConnection {
    let mut connection = SshConnection::new(config(auth_type));
    connection.begin();
    while connection.current_phase() != Phase::Running(stage) {
        connection.advance(StepOutcome::Done);
    }
    connection
}

#[test]
fn connection_goes_through_every_step_in_order() {
    let mut connection = SshConnection::new(config("password"));
    assert_eq!(connection.state(), ConnectionState::Disconnected);
    assert_eq!(connection.current_phase(), Phase::NotStarted);
    assert_eq!(
        connection.begin(),
        Action::OpenSocket { address: "example.org:2222".to_string(), timeout_secs: 10 }
    );
    assert_eq!(connection.state(), ConnectionState::Connecting);
    assert_eq!(connection.advance(StepOutcome::Done), Action::SetNonBlocking);
    assert_eq!(connection.state(), ConnectionState::Connecting);
    assert_eq!(connection.advance(StepOutcome::Done), Action::CreateSession);
    assert_eq!(connection.state(), ConnectionState::Handshaking);
    assert_eq!(connection.advance(StepOutcome::Done), Action::CloneStream);
    assert_eq!(connection.state(), ConnectionState::Handshaking);
    assert_eq!(connection.advance(StepOutcome::Done), Action::Handshake);
    assert_eq!(connection.state(), ConnectionState::Handshaking);
    assert_eq!(
        connection.advance(StepOutcome::Done),
        Action::AuthPassword { username: "alice".to_string(), password: "value".to_string() }
    );
    assert_eq!(connection.state(), ConnectionState::Authenticating);
    assert_eq!(connection.advance(StepOutcome::Done), Action::CheckAuthenticated);
    assert_eq!(connection.state(), ConnectionState::Authenticating);
    assert_eq!(connection.advance(StepOutcome::Done), Action::OpenChannel);
    assert_eq!(connection.state(), ConnectionState::ChannelOpen);
    assert_eq!(
        connection.advance(StepOutcome::Done),
        Action::RequestPty { term: "xterm-256color".to_string(), cols: 80, rows: 24 }
    );
    assert_eq!(connection.state(), ConnectionState::ChannelOpen);
    assert_eq!(connection.advance(StepOutcome::Done), Action::StartShell);
    assert_eq!(connection.state(), ConnectionState::ChannelOpen);
    assert_eq!(connection.advance(StepOutcome::Done), Action::Register);
    assert_eq!(connection.state(), ConnectionState::ShellActive);
    assert_eq!(connection.current_phase(), Phase::Established);
}

#[test]
fn design_constants() {
    assert_eq!(CONNECT_TIMEOUT_SECS, 10);
    assert_eq!(INITIAL_COLS, 80);
    assert_eq!(INITIAL_ROWS, 24);
    assert_eq!(READ_BUFFER_SIZE, 8192);
    assert_eq!(MAX_ID_DRAWS, 8);
}

#[test]
fn address_is_host_colon_port() {
    assert_eq!(address(&config("agent")), "example.org:2222");
    let mut other = config("agent");
    other.host = "::1".to_string();
    other.port = 0;
    assert_eq!(address(&other), "::1:0");
    other.host = String::new();
    other.port = 65535;
    assert_eq!(address(&other), ":65535");
}

#[test]
fn sign_in_goes_by_auth_type() {
    let mut by_key = run_to("key", Stage::Handshake);
    assert_eq!(
        by_key.advance(StepOutcome::Done),
        Action::AuthKeyFile { username: "alice".to_string(), key_path: "value".to_string() }
    );
    let mut by_agent = run_to("agent", Stage::Handshake);
    assert_eq!(
        by_agent.advance(StepOutcome::Done),
        Action::AuthAgent { username: "alice".to_string() }
    );
}

#[test]
fn unknown_auth_type_fails_before_any_sign_in() {
    for auth_type in ["", "Password", "certificate", "none"] {
        let mut connection = run_to(auth_type, Stage::Handshake);
        assert_eq!(connection.advance(StepOutcome::Done), Action::Fail(SshError::InvalidAuthType));
        assert_eq!(connection.state(), ConnectionState::Closed);
        assert_eq!(connection.advance(StepOutcome::Done), Action::Nothing);
    }
    assert_eq!(SshError::InvalidAuthType.kind(), ErrorKind::Configuration);
    assert_ne!(SshError::InvalidAuthType.kind(), SshError::AuthFailed(String::new()).kind());
}

#[test]
fn unreachable_host_is_a_transport_failure() {
    let mut timed_out = run_to("password", Stage::OpenSocket);
    let action = timed_out.advance(StepOutcome::TimedOut);
    assert_eq!(
        action,
        Action::Fail(SshError::ConnectionFailed("Connection timeout".to_string()))
    );
    assert_eq!(timed_out.state(), ConnectionState::Closed);

    let mut refused = run_to("password", Stage::OpenSocket);
    assert_eq!(
        refused.advance(StepOutcome::Failed("Connection refused".to_string())),
        Action::Fail(SshError::ConnectionFailed(
            "TCP connect failed: Connection refused".to_string()
        ))
    );
    let mut lost = run_to("password", Stage::OpenSocket);
    assert_eq!(
        lost.advance(StepOutcome::JoinFailed("cancelled".to_string())),
        Action::Fail(SshError::ConnectionFailed("Task join error: cancelled".to_string()))
    );
    assert_eq!(SshError::ConnectionFailed(String::new()).kind(), ErrorKind::Transport);
}

#[test]
fn each_step_fails_in_its_own_way() {
    let cases = [
        (
            Stage::SetNonBlocking,
            SshError::ConnectionFailed("Failed to set non-blocking: boom".to_string()),
        ),
        (Stage::CreateSession, SshError::SessionCreationFailed("boom".to_string())),
        (Stage::CloneStream, SshError::CloneFailed("boom".to_string())),
        (Stage::Handshake, SshError::HandshakeFailed("boom".to_string())),
        (Stage::Authenticate, SshError::AuthFailed("boom".to_string())),
        (Stage::CheckAuthenticated, SshError::AuthFailed("Authentication failed".to_string())),
        (Stage::OpenChannel, SshError::ChannelFailed("boom".to_string())),
        (Stage::RequestPty, SshError::PtyRequestFailed("boom".to_string())),
        (Stage::StartShell, SshError::ShellFailed("boom".to_string())),
    ];
    for (stage, error) in cases {
        let mut connection = run_to("password", stage);
        assert_eq!(connection.advance(StepOutcome::Failed("boom".to_string())), Action::Fail(error));
        assert_eq!(connection.state(), ConnectionState::Closed);
        assert_eq!(connection.current_phase(), Phase::Closed);
        assert_eq!(connection.advance(StepOutcome::Done), Action::Nothing);
        assert_eq!(connection.close(), Action::Nothing);
    }
}

#[test]
fn sign_in_failures_name_the_way() {
    let mut by_key = run_to("key", Stage::Authenticate);
    assert_eq!(
        by_key.advance(StepOutcome::Failed("no such file".to_string())),
        Action::Fail(SshError::AuthFailed("Key auth failed: no such file".to_string()))
    );
    let mut by_agent = run_to("agent", Stage::Authenticate);
    assert_eq!(
        by_agent.advance(StepOutcome::Failed("no agent".to_string())),
        Action::Fail(SshError::AuthFailed("Agent auth failed: no agent".to_string()))
    );
    let mut by_password = run_to("password", Stage::Authenticate);
    assert_eq!(
        by_password.advance(StepOutcome::Failed("denied".to_string())),
        Action::Fail(SshError::AuthFailed("denied".to_string()))
    );
}

#[test]
fn begin_applies_once() {
    let mut connection = SshConnection::new(config("agent"));
    assert_eq!(connection.advance(StepOutcome::Done), Action::Nothing);
    assert_eq!(connection.close(), Action::Nothing);
    assert_eq!(connection.state(), ConnectionState::Disconnected);
    assert!(matches!(connection.begin(), Action::OpenSocket { .. }));
    assert_eq!(connection.begin(), Action::Nothing);
    assert_eq!(connection.state(), ConnectionState::Connecting);
}

#[test]
fn teardown_attempts_every_step_whatever_fails() {
    let outcomes = [
        [false, false, false, false],
        [true, true, true, true],
        [true, false, true, false],
        [false, true, false, true],
    ];
    for failing in outcomes {
        let outcome = |fails: bool| {
            if fails {
                StepOutcome::Failed("gone".to_string())
            } else {
                StepOutcome::Done
            }
        };
        let mut connection = made("agent");
        assert_eq!(connection.close(), Action::SendEof);
        assert_eq!(connection.state(), ConnectionState::Closing);
        assert_eq!(connection.current_phase(), Phase::Closing(TeardownStep::SendEof));
        assert_eq!(connection.advance(outcome(failing[0])), Action::WaitEof);
        assert_eq!(connection.advance(outcome(failing[1])), Action::CloseChannel);
        assert_eq!(connection.advance(outcome(failing[2])), Action::WaitClose);
        assert_eq!(connection.state(), ConnectionState::Closing);
        assert_eq!(connection.advance(outcome(failing[3])), Action::Discard);
        assert_eq!(connection.state(), ConnectionState::Closed);
        assert_eq!(connection.advance(StepOutcome::Done), Action::Nothing);
    }
}

#[test]
fn established_session_waits_for_close() {
    let mut connection = made("password");
    assert_eq!(connection.advance(StepOutcome::Done), Action::Nothing);
    assert_eq!(connection.advance(StepOutcome::TimedOut), Action::Nothing);
    assert_eq!(connection.begin(), Action::Nothing);
    assert_eq!(connection.state(), ConnectionState::ShellActive);
}

#[test]
fn connect_registers_under_a_fresh_identifier() {
    let mut manager: SshManager<u32> = SshManager::new();
    let a = manager.connect(Ok(1)).unwrap();
    let b = manager.connect(Ok(2)).unwrap();
    assert_ne!(a, b);
    assert_eq!(a.len(), 36);
    assert_eq!(a.as_bytes()[14], b'4');
    assert_eq!(manager.read_output(&a), Ok(&1));
    assert_eq!(manager.read_output(&b), Ok(&2));
}

#[test]
fn failed_connect_registers_nothing() {
    let mut manager: SshManager<u32> = SshManager::new();
    let id = manager.connect(Ok(1)).unwrap();
    assert_eq!(
        manager.connect(Err(SshError::HandshakeFailed("bad".to_string()))),
        Err((SshError::HandshakeFailed("bad".to_string()), None))
    );
    assert_eq!(manager.read_output(&id), Ok(&1));
    assert_eq!(manager.disconnect(&id), Some(1));
    assert_eq!(manager.disconnect(&id), None);
}

#[test]
fn register_takes_a_new_identifier_only() {
    let mut manager: SshManager<u32> = SshManager::new();
    assert_eq!(manager.register("one".to_string(), 1), Ok("one".to_string()));
    assert_eq!(manager.register("two".to_string(), 2), Ok("two".to_string()));
    assert_eq!(manager.register("one".to_string(), 3), Err(3));
    assert_eq!(manager.read_output("one"), Ok(&1));
    assert_eq!(manager.read_output("two"), Ok(&2));
}

#[test]
fn identifier_is_not_given_again_after_disconnect() {
    let mut manager: SshManager<u32> = SshManager::new();
    assert_eq!(manager.register("one".to_string(), 1), Ok("one".to_string()));
    assert_eq!(manager.disconnect("one"), Some(1));
    assert_eq!(manager.register("one".to_string(), 2), Err(2));
    assert_eq!(manager.read_output("one"), Err(SshError::SessionNotFound));
    assert_eq!(manager.register("One".to_string(), 2), Ok("One".to_string()));
}

#[test]
fn identifiers_of_many_sessions_are_all_different() {
    let mut manager: SshManager<usize> = SshManager::new();
    let mut ids: Vec<String> = Vec::new();
    for n in 0..200 {
        let id = manager.connect(Ok(n)).unwrap();
        assert!(!ids.contains(&id));
        if n % 3 == 0 {
            assert_eq!(manager.disconnect(&id), Some(n));
        }
        ids.push(id);
    }
    for (n, id) in ids.iter().enumerate() {
        let expected = if n % 3 == 0 { Err(SshError::SessionNotFound) } else { Ok(&n) };
        assert_eq!(manager.read_output(id), expected);
    }
}

#[test]
fn disconnect_of_unknown_session_changes_nothing() {
    let mut manager: SshManager<u32> = SshManager::new();
    assert_eq!(manager.disconnect("no-such-session"), None);
    let id = manager.connect(Ok(5)).unwrap();
    assert_eq!(manager.disconnect("no-such-session"), None);
    assert_eq!(manager.disconnect(""), None);
    assert_eq!(manager.read_output(&id), Ok(&5));
}

#[test]
fn disconnect_removes_the_session() {
    let mut manager: SshManager<u32> = SshManager::new();
    let a = manager.connect(Ok(1)).unwrap();
    let b = manager.connect(Ok(2)).unwrap();
    assert_eq!(manager.disconnect(&a), Some(1));
    assert_eq!(manager.read_output(&a), Err(SshError::SessionNotFound));
    assert_eq!(manager.send_command(&a, "ls\n"), Err(SshError::SessionNotFound));
    assert_eq!(manager.resize_terminal(&a, 80, 24), Err(SshError::SessionNotFound));
    assert_eq!(manager.read_output(&b), Ok(&2));
}

#[test]
fn send_command_adds_no_line_end() {
    let mut manager: SshManager<u32> = SshManager::new();
    let id = manager.connect(Ok(1)).unwrap();
    assert_eq!(manager.send_command(&id, "ls -l"), Ok((&1, b"ls -l".to_vec())));
    assert_eq!(manager.send_command(&id, ""), Ok((&1, vec![])));
    assert_eq!(manager.send_command(&id, "\u{e9}\n"), Ok((&1, vec![0xc3, 0xa9, 0x0a])));
    assert_eq!(manager.send_command("other", "ls"), Err(SshError::SessionNotFound));
}

#[test]
fn resize_hands_on_the_size() {
    let mut manager: SshManager<u32> = SshManager::new();
    let id = manager.connect(Ok(1)).unwrap();
    assert_eq!(manager.resize_terminal(&id, 132, 43), Ok((&1, 132, 43)));
    assert_eq!(manager.resize_terminal(&id, 0, u32::MAX), Ok((&1, 0, u32::MAX)));
    assert_eq!(manager.resize_terminal("other", 1, 1), Err(SshError::SessionNotFound));
}

#[test]
fn read_with_no_data_is_empty_and_no_error() {
    assert_eq!(read_result(ReadOutcome::WouldBlock), Ok(String::new()));
    assert_eq!(read_result(ReadOutcome::Data(vec![])), Ok(String::new()));
}

#[test]
fn read_decodes_and_replaces_invalid_bytes() {
    assert_eq!(read_result(ReadOutcome::Data(b"$ ls\r\n".to_vec())), Ok("$ ls\r\n".to_string()));
    assert_eq!(read_result(ReadOutcome::Data(vec![0xc3, 0xa9])), Ok("\u{e9}".to_string()));
    assert_eq!(
        read_result(ReadOutcome::Data(vec![b'a', 0xff, b'b'])),
        Ok("a\u{fffd}b".to_string())
    );
    assert_eq!(read_result(ReadOutcome::Data(vec![0xc3])), Ok("\u{fffd}".to_string()));
}

#[test]
fn read_failure_is_a_read_error() {
    assert_eq!(
        read_result(ReadOutcome::Failed("broken pipe".to_string())),
        Err(SshError::ReadFailed("broken pipe".to_string()))
    );
}

#[test]
fn write_and_resize_results() {
    assert_eq!(write_result(Ok(())), Ok(()));
    assert_eq!(
        write_result(Err("closed".to_string())),
        Err(SshError::WriteFailed("closed".to_string()))
    );
    assert_eq!(resize_result(Ok(())), Ok(()));
    assert_eq!(
        resize_result(Err("not active".to_string())),
        Err(SshError::ResizeFailed("not active".to_string()))
    );
}

#[test]
fn ssh_errors_have_words_and_kinds() {
    let e = |s: &str| s.to_string();
    let cases = [
        (SshError::ConnectionFailed(e("x")), "Connection failed: x", ErrorKind::Transport),
        (SshError::SessionCreationFailed(e("x")), "Session creation failed: x", ErrorKind::Protocol),
        (SshError::CloneFailed(e("x")), "Stream clone failed: x", ErrorKind::Transport),
        (SshError::HandshakeFailed(e("x")), "Handshake failed: x", ErrorKind::Protocol),
        (SshError::AuthFailed(e("x")), "Authentication failed: x", ErrorKind::Authentication),
        (SshError::InvalidAuthType, "Invalid authentication type", ErrorKind::Configuration),
        (SshError::ChannelFailed(e("x")), "Channel creation failed: x", ErrorKind::Protocol),
        (SshError::PtyRequestFailed(e("x")), "PTY request failed: x", ErrorKind::Protocol),
        (SshError::ShellFailed(e("x")), "Shell request failed: x", ErrorKind::Protocol),
        (SshError::WriteFailed(e("x")), "Write failed: x", ErrorKind::Io),
        (SshError::ReadFailed(e("x")), "Read failed: x", ErrorKind::Io),
        (SshError::ResizeFailed(e("x")), "Resize failed: x", ErrorKind::Io),
        (SshError::SessionNotFound, "Session not found", ErrorKind::Lookup),
        (SshError::SessionIdTaken, "Session identifier already in use", ErrorKind::Lookup),
    ];
    for (error, words, kind) in cases {
        assert_eq!(error.message(), words);
        assert_eq!(error.kind(), kind);
    }
}
