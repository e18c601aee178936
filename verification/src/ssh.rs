//! Interactive sessions: the steps that take a connection from a socket to a
//! running shell and down again, and the registry of the live ones.

use vstd::prelude::*;
use vstd::utf8::{decode_utf8, encode_utf8, valid_utf8};
use crate::session::{auth_method_of, AuthMethod, ConnectionConfig, ConnectionProfile};
use crate::table::{lookup, NameTable};
use crate::text::{ascii_text, decimal, decimal_string, lossy_text, prefixed, utf8_lossy};

verus! {

/// Seconds that opening the socket may take.
pub const CONNECT_TIMEOUT_SECS: u64 = 10;

/// Columns of the terminal that a new shell is given.
pub const INITIAL_COLS: u32 = 80;

/// Rows of the terminal that a new shell is given.
pub const INITIAL_ROWS: u32 = 24;

/// Bytes that one read takes from the channel at most.
pub const READ_BUFFER_SIZE: usize = 8192;

/// Why a session could not be made or used.
#[derive(Debug, PartialEq, Eq)]
pub enum SshError {
    ConnectionFailed(String),
    SessionCreationFailed(String),
    CloneFailed(String),
    HandshakeFailed(String),
    AuthFailed(String),
    InvalidAuthType,
    ChannelFailed(String),
    PtyRequestFailed(String),
    ShellFailed(String),
    WriteFailed(String),
    ReadFailed(String),
    ResizeFailed(String),
    SessionNotFound,
    /// No unused identifier was to be had for a new session.
    SessionIdTaken,
}

/// An `SshError` as a mathematical value.
pub ghost enum SshFailure {
    ConnectionFailed(Seq<char>),
    SessionCreationFailed(Seq<char>),
    CloneFailed(Seq<char>),
    HandshakeFailed(Seq<char>),
    AuthFailed(Seq<char>),
    InvalidAuthType,
    ChannelFailed(Seq<char>),
    PtyRequestFailed(Seq<char>),
    ShellFailed(Seq<char>),
    WriteFailed(Seq<char>),
    ReadFailed(Seq<char>),
    ResizeFailed(Seq<char>),
    SessionNotFound,
    SessionIdTaken,
}

impl View for SshError {
    type V = SshFailure;

    open spec fn view(&self) -> SshFailure {
        match self {
            SshError::ConnectionFailed(e) => SshFailure::ConnectionFailed(e@),
            SshError::SessionCreationFailed(e) => SshFailure::SessionCreationFailed(e@),
            SshError::CloneFailed(e) => SshFailure::CloneFailed(e@),
            SshError::HandshakeFailed(e) => SshFailure::HandshakeFailed(e@),
            SshError::AuthFailed(e) => SshFailure::AuthFailed(e@),
            SshError::InvalidAuthType => SshFailure::InvalidAuthType,
            SshError::ChannelFailed(e) => SshFailure::ChannelFailed(e@),
            SshError::PtyRequestFailed(e) => SshFailure::PtyRequestFailed(e@),
            SshError::ShellFailed(e) => SshFailure::ShellFailed(e@),
            SshError::WriteFailed(e) => SshFailure::WriteFailed(e@),
            SshError::ReadFailed(e) => SshFailure::ReadFailed(e@),
            SshError::ResizeFailed(e) => SshFailure::ResizeFailed(e@),
            SshError::SessionNotFound => SshFailure::SessionNotFound,
            SshError::SessionIdTaken => SshFailure::SessionIdTaken,
        }
    }
}

/// The kinds of failure.
#[derive(Debug, Clone, Copy, PartialEq, Eq, Structural)]
pub enum ErrorKind {
    /// The socket could not be had in time.
    Transport,
    /// The protocol could not be set up: handshake, channel, terminal, shell.
    Protocol,
    /// The host did not accept the sign-in.
    Authentication,
    /// The profile names no way to sign in.
    Configuration,
    /// No session has the identifier, or no identifier is to be had.
    Lookup,
    /// Reading, writing or resizing failed on a live session.
    Io,
}

impl SshFailure {
    /// The kind of a failure.
    pub open spec fn kind(self) -> ErrorKind {
        match self {
            SshFailure::ConnectionFailed(_) => ErrorKind::Transport,
            SshFailure::SessionCreationFailed(_) => ErrorKind::Protocol,
            SshFailure::CloneFailed(_) => ErrorKind::Transport,
            SshFailure::HandshakeFailed(_) => ErrorKind::Protocol,
            SshFailure::AuthFailed(_) => ErrorKind::Authentication,
            SshFailure::InvalidAuthType => ErrorKind::Configuration,
            SshFailure::ChannelFailed(_) => ErrorKind::Protocol,
            SshFailure::PtyRequestFailed(_) => ErrorKind::Protocol,
            SshFailure::ShellFailed(_) => ErrorKind::Protocol,
            SshFailure::WriteFailed(_) => ErrorKind::Io,
            SshFailure::ReadFailed(_) => ErrorKind::Io,
            SshFailure::ResizeFailed(_) => ErrorKind::Io,
            SshFailure::SessionNotFound => ErrorKind::Lookup,
            SshFailure::SessionIdTaken => ErrorKind::Lookup,
        }
    }

    /// The words for a failure.
    pub open spec fn message(self) -> Seq<char> {
        match self {
            SshFailure::ConnectionFailed(e) => "Connection failed: "@ + e,
            SshFailure::SessionCreationFailed(e) => "Session creation failed: "@ + e,
            SshFailure::CloneFailed(e) => "Stream clone failed: "@ + e,
            SshFailure::HandshakeFailed(e) => "Handshake failed: "@ + e,
            SshFailure::AuthFailed(e) => "Authentication failed: "@ + e,
            SshFailure::InvalidAuthType => "Invalid authentication type"@,
            SshFailure::ChannelFailed(e) => "Channel creation failed: "@ + e,
            SshFailure::PtyRequestFailed(e) => "PTY request failed: "@ + e,
            SshFailure::ShellFailed(e) => "Shell request failed: "@ + e,
            SshFailure::WriteFailed(e) => "Write failed: "@ + e,
            SshFailure::ReadFailed(e) => "Read failed: "@ + e,
            SshFailure::ResizeFailed(e) => "Resize failed: "@ + e,
            SshFailure::SessionNotFound => "Session not found"@,
            SshFailure::SessionIdTaken => "Session identifier already in use"@,
        }
    }
}

impl SshError {
    /// The kind of the failure.
    pub fn kind(&self) -> (r: ErrorKind)
        ensures
            r == self@.kind(),
    {
        match self {
            SshError::ConnectionFailed(_) => ErrorKind::Transport,
            SshError::SessionCreationFailed(_) => ErrorKind::Protocol,
            SshError::CloneFailed(_) => ErrorKind::Transport,
            SshError::HandshakeFailed(_) => ErrorKind::Protocol,
            SshError::AuthFailed(_) => ErrorKind::Authentication,
            SshError::InvalidAuthType => ErrorKind::Configuration,
            SshError::ChannelFailed(_) => ErrorKind::Protocol,
            SshError::PtyRequestFailed(_) => ErrorKind::Protocol,
            SshError::ShellFailed(_) => ErrorKind::Protocol,
            SshError::WriteFailed(_) => ErrorKind::Io,
            SshError::ReadFailed(_) => ErrorKind::Io,
            SshError::ResizeFailed(_) => ErrorKind::Io,
            SshError::SessionNotFound => ErrorKind::Lookup,
            SshError::SessionIdTaken => ErrorKind::Lookup,
        }
    }

    /// The words for the failure.
    pub fn message(&self) -> (r: String)
        ensures
            r@ == self@.message(),
    {
        match self {
            SshError::ConnectionFailed(e) => prefixed("Connection failed: ", e.as_str()),
            SshError::SessionCreationFailed(e) => prefixed(
                "Session creation failed: ",
                e.as_str(),
            ),
            SshError::CloneFailed(e) => prefixed("Stream clone failed: ", e.as_str()),
            SshError::HandshakeFailed(e) => prefixed("Handshake failed: ", e.as_str()),
            SshError::AuthFailed(e) => prefixed("Authentication failed: ", e.as_str()),
            SshError::InvalidAuthType => String::from_str("Invalid authentication type"),
            SshError::ChannelFailed(e) => prefixed("Channel creation failed: ", e.as_str()),
            SshError::PtyRequestFailed(e) => prefixed("PTY request failed: ", e.as_str()),
            SshError::ShellFailed(e) => prefixed("Shell request failed: ", e.as_str()),
            SshError::WriteFailed(e) => prefixed("Write failed: ", e.as_str()),
            SshError::ReadFailed(e) => prefixed("Read failed: ", e.as_str()),
            SshError::ResizeFailed(e) => prefixed("Resize failed: ", e.as_str()),
            SshError::SessionNotFound => String::from_str("Session not found"),
            SshError::SessionIdTaken => String::from_str("Session identifier already in use"),
        }
    }
}

/// Where a connection stands in its life.
#[derive(Debug, Clone, Copy, PartialEq, Eq, Structural)]
pub enum ConnectionState {
    Disconnected,
    Connecting,
    Handshaking,
    Authenticating,
    ChannelOpen,
    ShellActive,
    Closing,
    Closed,
}

/// The steps that make a session, in their order.
#[derive(Debug, Clone, Copy, PartialEq, Eq, Structural)]
pub enum Stage {
    OpenSocket,
    SetNonBlocking,
    CreateSession,
    CloneStream,
    Handshake,
    Authenticate,
    CheckAuthenticated,
    OpenChannel,
    RequestPty,
    StartShell,
}

/// The steps that take a session down, in their order.
#[derive(Debug, Clone, Copy, PartialEq, Eq, Structural)]
pub enum TeardownStep {
    SendEof,
    WaitEof,
    CloseChannel,
    WaitClose,
}

/// How far a connection has come.
#[derive(Debug, Clone, Copy, PartialEq, Eq, Structural)]
pub enum Phase {
    NotStarted,
    Running(Stage),
    Established,
    Closing(TeardownStep),
    Closed,
}

/// How a step ended.
#[derive(Debug, PartialEq, Eq)]
pub enum StepOutcome {
    Done,
    /// The step failed; the text says why.
    Failed(String),
    /// The step did not end in time.
    TimedOut,
    /// The task that ran the step was lost; the text says why.
    JoinFailed(String),
}

/// A `StepOutcome` as a mathematical value.
pub ghost enum Outcome {
    Done,
    Failed(Seq<char>),
    TimedOut,
    JoinFailed(Seq<char>),
}

impl View for StepOutcome {
    type V = Outcome;

    open spec fn view(&self) -> Outcome {
        match self {
            StepOutcome::Done => Outcome::Done,
            StepOutcome::Failed(e) => Outcome::Failed(e@),
            StepOutcome::TimedOut => Outcome::TimedOut,
            StepOutcome::JoinFailed(e) => Outcome::JoinFailed(e@),
        }
    }
}

/// What is to be done next for a connection.
#[derive(Debug, PartialEq, Eq)]
pub enum Action {
    /// Nothing: the call did not apply in this phase.
    Nothing,
    OpenSocket { address: String, timeout_secs: u64 },
    SetNonBlocking,
    CreateSession,
    CloneStream,
    Handshake,
    AuthPassword { username: String, password: String },
    AuthKeyFile { username: String, key_path: String },
    AuthAgent { username: String },
    CheckAuthenticated,
    OpenChannel,
    RequestPty { term: String, cols: u32, rows: u32 },
    StartShell,
    /// The session stands: register it.
    Register,
    /// The attempt is over: report the failure, register nothing.
    Fail(SshError),
    SendEof,
    WaitEof,
    CloseChannel,
    WaitClose,
    /// The teardown is over: let go of the connection.
    Discard,
}

/// An `Action` as a mathematical value.
pub ghost enum Task {
    Nothing,
    OpenSocket { address: Seq<char>, timeout_secs: u64 },
    SetNonBlocking,
    CreateSession,
    CloneStream,
    Handshake,
    AuthPassword { username: Seq<char>, password: Seq<char> },
    AuthKeyFile { username: Seq<char>, key_path: Seq<char> },
    AuthAgent { username: Seq<char> },
    CheckAuthenticated,
    OpenChannel,
    RequestPty { term: Seq<char>, cols: u32, rows: u32 },
    StartShell,
    Register,
    Fail(SshFailure),
    SendEof,
    WaitEof,
    CloseChannel,
    WaitClose,
    Discard,
}

impl View for Action {
    type V = Task;

    open spec fn view(&self) -> Task {
        match self {
            Action::Nothing => Task::Nothing,
            Action::OpenSocket { address, timeout_secs } => Task::OpenSocket {
                address: address@,
                timeout_secs: *timeout_secs,
            },
            Action::SetNonBlocking => Task::SetNonBlocking,
            Action::CreateSession => Task::CreateSession,
            Action::CloneStream => Task::CloneStream,
            Action::Handshake => Task::Handshake,
            Action::AuthPassword { username, password } => Task::AuthPassword {
                username: username@,
                password: password@,
            },
            Action::AuthKeyFile { username, key_path } => Task::AuthKeyFile {
                username: username@,
                key_path: key_path@,
            },
            Action::AuthAgent { username } => Task::AuthAgent { username: username@ },
            Action::CheckAuthenticated => Task::CheckAuthenticated,
            Action::OpenChannel => Task::OpenChannel,
            Action::RequestPty { term, cols, rows } => Task::RequestPty {
                term: term@,
                cols: *cols,
                rows: *rows,
            },
            Action::StartShell => Task::StartShell,
            Action::Register => Task::Register,
            Action::Fail(e) => Task::Fail(e@),
            Action::SendEof => Task::SendEof,
            Action::WaitEof => Task::WaitEof,
            Action::CloseChannel => Task::CloseChannel,
            Action::WaitClose => Task::WaitClose,
            Action::Discard => Task::Discard,
        }
    }
}

/// The state that a phase belongs to.
pub open spec fn state_of(phase: Phase) -> ConnectionState {
    match phase {
        Phase::NotStarted => ConnectionState::Disconnected,
        Phase::Running(Stage::OpenSocket) => ConnectionState::Connecting,
        Phase::Running(Stage::SetNonBlocking) => ConnectionState::Connecting,
        Phase::Running(Stage::CreateSession) => ConnectionState::Handshaking,
        Phase::Running(Stage::CloneStream) => ConnectionState::Handshaking,
        Phase::Running(Stage::Handshake) => ConnectionState::Handshaking,
        Phase::Running(Stage::Authenticate) => ConnectionState::Authenticating,
        Phase::Running(Stage::CheckAuthenticated) => ConnectionState::Authenticating,
        Phase::Running(Stage::OpenChannel) => ConnectionState::ChannelOpen,
        Phase::Running(Stage::RequestPty) => ConnectionState::ChannelOpen,
        Phase::Running(Stage::StartShell) => ConnectionState::ChannelOpen,
        Phase::Established => ConnectionState::ShellActive,
        Phase::Closing(_) => ConnectionState::Closing,
        Phase::Closed => ConnectionState::Closed,
    }
}

/// The place of a state in the order of a connection's life.
pub open spec fn rank(state: ConnectionState) -> nat {
    match state {
        ConnectionState::Disconnected => 0,
        ConnectionState::Connecting => 1,
        ConnectionState::Handshaking => 2,
        ConnectionState::Authenticating => 3,
        ConnectionState::ChannelOpen => 4,
        ConnectionState::ShellActive => 5,
        ConnectionState::Closing => 6,
        ConnectionState::Closed => 7,
    }
}

/// The step after a step, if there is one.
pub open spec fn stage_after(stage: Stage) -> Option<Stage> {
    match stage {
        Stage::OpenSocket => Some(Stage::SetNonBlocking),
        Stage::SetNonBlocking => Some(Stage::CreateSession),
        Stage::CreateSession => Some(Stage::CloneStream),
        Stage::CloneStream => Some(Stage::Handshake),
        Stage::Handshake => Some(Stage::Authenticate),
        Stage::Authenticate => Some(Stage::CheckAuthenticated),
        Stage::CheckAuthenticated => Some(Stage::OpenChannel),
        Stage::OpenChannel => Some(Stage::RequestPty),
        Stage::RequestPty => Some(Stage::StartShell),
        Stage::StartShell => None,
    }
}

/// The teardown step after a step, if there is one.
pub open spec fn teardown_after(step: TeardownStep) -> Option<TeardownStep> {
    match step {
        TeardownStep::SendEof => Some(TeardownStep::WaitEof),
        TeardownStep::WaitEof => Some(TeardownStep::CloseChannel),
        TeardownStep::CloseChannel => Some(TeardownStep::WaitClose),
        TeardownStep::WaitClose => None,
    }
}

/// The action that carries out a teardown step.
pub open spec fn teardown_task(step: TeardownStep) -> Task {
    match step {
        TeardownStep::SendEof => Task::SendEof,
        TeardownStep::WaitEof => Task::WaitEof,
        TeardownStep::CloseChannel => Task::CloseChannel,
        TeardownStep::WaitClose => Task::WaitClose,
    }
}

/// The address of a profile's host: the host, a colon, the port in decimal.
pub open spec fn address_of(profile: ConnectionProfile) -> Seq<char> {
    profile.host + seq![':'] + ascii_text(decimal(profile.port as nat))
}

/// The action that carries out a step for a profile. Signing in goes by the
/// profile's `auth_type`; where that names no way, the action is to fail.
pub open spec fn stage_task(stage: Stage, profile: ConnectionProfile) -> Task {
    match stage {
        Stage::OpenSocket => Task::OpenSocket {
            address: address_of(profile),
            timeout_secs: CONNECT_TIMEOUT_SECS,
        },
        Stage::SetNonBlocking => Task::SetNonBlocking,
        Stage::CreateSession => Task::CreateSession,
        Stage::CloneStream => Task::CloneStream,
        Stage::Handshake => Task::Handshake,
        Stage::Authenticate => match auth_method_of(profile.auth_type) {
            Some(AuthMethod::Password) => Task::AuthPassword {
                username: profile.username,
                password: profile.auth_value,
            },
            Some(AuthMethod::Key) => Task::AuthKeyFile {
                username: profile.username,
                key_path: profile.auth_value,
            },
            Some(AuthMethod::Agent) => Task::AuthAgent { username: profile.username },
            None => Task::Fail(SshFailure::InvalidAuthType),
        },
        Stage::CheckAuthenticated => Task::CheckAuthenticated,
        Stage::OpenChannel => Task::OpenChannel,
        Stage::RequestPty => Task::RequestPty {
            term: "xterm-256color"@,
            cols: INITIAL_COLS,
            rows: INITIAL_ROWS,
        },
        Stage::StartShell => Task::StartShell,
    }
}

/// What an outcome other than `Done` says.
pub open spec fn detail_of(outcome: Outcome) -> Seq<char> {
    match outcome {
        Outcome::Done => Seq::empty(),
        Outcome::Failed(e) => e,
        Outcome::TimedOut => "Connection timeout"@,
        Outcome::JoinFailed(e) => "Task join error: "@ + e,
    }
}

/// The failure that a step's bad outcome amounts to.
pub open spec fn failure_of(stage: Stage, profile: ConnectionProfile, outcome: Outcome)
    -> SshFailure {
    let detail = detail_of(outcome);
    match stage {
        Stage::OpenSocket => SshFailure::ConnectionFailed(
            match outcome {
                Outcome::Failed(e) => "TCP connect failed: "@ + e,
                _ => detail,
            },
        ),
        Stage::SetNonBlocking => SshFailure::ConnectionFailed(
            "Failed to set non-blocking: "@ + detail,
        ),
        Stage::CreateSession => SshFailure::SessionCreationFailed(detail),
        Stage::CloneStream => SshFailure::CloneFailed(detail),
        Stage::Handshake => SshFailure::HandshakeFailed(detail),
        Stage::Authenticate => SshFailure::AuthFailed(
            match auth_method_of(profile.auth_type) {
                Some(AuthMethod::Key) => "Key auth failed: "@ + detail,
                Some(AuthMethod::Agent) => "Agent auth failed: "@ + detail,
                _ => detail,
            },
        ),
        Stage::CheckAuthenticated => SshFailure::AuthFailed("Authentication failed"@),
        Stage::OpenChannel => SshFailure::ChannelFailed(detail),
        Stage::RequestPty => SshFailure::PtyRequestFailed(detail),
        Stage::StartShell => SshFailure::ShellFailed(detail),
    }
}

/// The phase to enter and the action to take when the connection is begun.
pub open spec fn begun(phase: Phase, profile: ConnectionProfile) -> (Phase, Task) {
    match phase {
        Phase::NotStarted => (
            Phase::Running(Stage::OpenSocket),
            stage_task(Stage::OpenSocket, profile),
        ),
        _ => (phase, Task::Nothing),
    }
}

/// The phase to enter and the action to take when the action of the present
/// phase has ended with the given outcome. While the session is made, a step
/// that is done leads to the next, the last one to the session's
/// registration, and any other outcome to the end with a failure. While it
/// is taken down, every step leads to the next, however it ended.
pub open spec fn advanced(phase: Phase, profile: ConnectionProfile, outcome: Outcome) -> (
    Phase,
    Task,
) {
    match phase {
        Phase::Running(stage) => match outcome {
            Outcome::Done => match stage_after(stage) {
                Some(next) => {
                    let task = stage_task(next, profile);
                    (if task is Fail { Phase::Closed } else { Phase::Running(next) }, task)
                },
                None => (Phase::Established, Task::Register),
            },
            _ => (Phase::Closed, Task::Fail(failure_of(stage, profile, outcome))),
        },
        Phase::Closing(step) => match teardown_after(step) {
            Some(next) => (Phase::Closing(next), teardown_task(next)),
            None => (Phase::Closed, Task::Discard),
        },
        _ => (phase, Task::Nothing),
    }
}

/// The phase to enter and the action to take when the session is to end.
pub open spec fn closed_down(phase: Phase) -> (Phase, Task) {
    match phase {
        Phase::Established => (
            Phase::Closing(TeardownStep::SendEof),
            teardown_task(TeardownStep::SendEof),
        ),
        _ => (phase, Task::Nothing),
    }
}

/// A connection never goes back to an earlier state.
pub proof fn lemma_states_in_order(phase: Phase, profile: ConnectionProfile, outcome: Outcome)
    ensures
        rank(state_of(phase)) <= rank(state_of(begun(phase, profile).0)),
        rank(state_of(phase)) <= rank(state_of(advanced(phase, profile, outcome).0)),
        rank(state_of(phase)) <= rank(state_of(closed_down(phase).0)),
        rank(state_of(advanced(phase, profile, outcome).0)) <= rank(state_of(phase)) + 1
            || advanced(phase, profile, outcome).0 == Phase::Closed,
{
}

/// A session is registered only when its last step is done: with any other
/// outcome, at any step, the attempt ends closed with a failure, and nothing
/// is registered.
pub proof fn lemma_registered_only_when_made(
    phase: Phase,
    profile: ConnectionProfile,
    outcome: Outcome,
)
    ensures
        advanced(phase, profile, outcome).1 is Register <==> phase == Phase::Running(
            Stage::StartShell,
        ) && outcome is Done,
        advanced(phase, profile, outcome).0 == Phase::Established <==> phase
            == Phase::Established || advanced(phase, profile, outcome).1 is Register,
        phase is Running && !(outcome is Done) ==> advanced(phase, profile, outcome).0
            == Phase::Closed && advanced(phase, profile, outcome).1 is Fail,
        advanced(phase, profile, outcome).1 is Fail ==> advanced(phase, profile, outcome).0
            == Phase::Closed,
{
}

/// A socket that cannot be had in time, or at all, ends the attempt with a
/// failure of transport.
pub proof fn lemma_unreachable_is_transport(profile: ConnectionProfile, outcome: Outcome)
    requires
        !(outcome is Done),
    ensures
        advanced(Phase::Running(Stage::OpenSocket), profile, outcome).0 == Phase::Closed,
        advanced(Phase::Running(Stage::OpenSocket), profile, outcome).1 is Fail,
        advanced(Phase::Running(Stage::OpenSocket), profile, outcome).1->Fail_0.kind()
            == ErrorKind::Transport,
{
}

/// A profile that names no way to sign in is never signed in with: the
/// attempt ends after the handshake with a failure of configuration, which is
/// no failure of authentication.
pub proof fn lemma_unknown_auth_type(phase: Phase, profile: ConnectionProfile, outcome: Outcome)
    requires
        auth_method_of(profile.auth_type) is None,
    ensures
        !(advanced(phase, profile, outcome).1 is AuthPassword),
        !(advanced(phase, profile, outcome).1 is AuthKeyFile),
        !(advanced(phase, profile, outcome).1 is AuthAgent),
        advanced(phase, profile, outcome).0 != Phase::Running(Stage::Authenticate),
        advanced(Phase::Running(Stage::Handshake), profile, Outcome::Done) == (
            Phase::Closed,
            Task::Fail(SshFailure::InvalidAuthType),
        ),
        SshFailure::InvalidAuthType.kind() == ErrorKind::Configuration,
{
}

/// Each kind of step fails in its own way: the failures of signing in, of
/// the channel, of the terminal and of the shell are told apart.
pub proof fn lemma_failures_told_apart(profile: ConnectionProfile, outcome: Outcome)
    ensures
        failure_of(Stage::OpenSocket, profile, outcome) is ConnectionFailed,
        failure_of(Stage::Handshake, profile, outcome) is HandshakeFailed,
        failure_of(Stage::Authenticate, profile, outcome) is AuthFailed,
        failure_of(Stage::CheckAuthenticated, profile, outcome) is AuthFailed,
        failure_of(Stage::OpenChannel, profile, outcome) is ChannelFailed,
        failure_of(Stage::RequestPty, profile, outcome) is PtyRequestFailed,
        failure_of(Stage::StartShell, profile, outcome) is ShellFailed,
{
}

/// The teardown runs through all its steps, however each of them ends:
/// end of stream is sent and awaited, the channel closed and its closing
/// awaited, and then the connection is let go.
pub proof fn lemma_teardown_runs_through(
    profile: ConnectionProfile,
    a: Outcome,
    b: Outcome,
    c: Outcome,
    d: Outcome,
)
    ensures
        closed_down(Phase::Established) == (Phase::Closing(TeardownStep::SendEof), Task::SendEof),
        advanced(Phase::Closing(TeardownStep::SendEof), profile, a) == (
            Phase::Closing(TeardownStep::WaitEof),
            Task::WaitEof,
        ),
        advanced(Phase::Closing(TeardownStep::WaitEof), profile, b) == (
            Phase::Closing(TeardownStep::CloseChannel),
            Task::CloseChannel,
        ),
        advanced(Phase::Closing(TeardownStep::CloseChannel), profile, c) == (
            Phase::Closing(TeardownStep::WaitClose),
            Task::WaitClose,
        ),
        advanced(Phase::Closing(TeardownStep::WaitClose), profile, d) == (
            Phase::Closed,
            Task::Discard,
        ),
{
}

/// The phase that a connection is in after the outcomes of its actions, one
/// after the other.
pub open spec fn run(phase: Phase, profile: ConnectionProfile, outcomes: Seq<Outcome>) -> Phase
    decreases outcomes.len(),
{
    if outcomes.len() == 0 {
        phase
    } else {
        run(advanced(phase, profile, outcomes[0]).0, profile, outcomes.drop_first())
    }
}

/// How many steps are still to be done when a step is under way.
pub open spec fn steps_left(stage: Stage) -> nat {
    match stage {
        Stage::OpenSocket => 10,
        Stage::SetNonBlocking => 9,
        Stage::CreateSession => 8,
        Stage::CloneStream => 7,
        Stage::Handshake => 6,
        Stage::Authenticate => 5,
        Stage::CheckAuthenticated => 4,
        Stage::OpenChannel => 3,
        Stage::RequestPty => 2,
        Stage::StartShell => 1,
    }
}

/// Once a connection is closing or closed, no outcome makes a session of it.
pub proof fn lemma_closing_stays_closing(
    phase: Phase,
    profile: ConnectionProfile,
    outcomes: Seq<Outcome>,
)
    requires
        phase is Closing || phase == Phase::Closed,
    ensures
        run(phase, profile, outcomes) is Closing || run(phase, profile, outcomes) == Phase::Closed,
    decreases outcomes.len(),
{
    if outcomes.len() > 0 {
        lemma_closing_stays_closing(
            advanced(phase, profile, outcomes[0]).0,
            profile,
            outcomes.drop_first(),
        );
    }
}

/// A session stands only when every step that was still to be done is
/// done: each of them ended well, in its turn, and the profile names a way
/// to sign in if signing in was still to come.
pub proof fn lemma_session_needs_every_step(
    stage: Stage,
    profile: ConnectionProfile,
    outcomes: Seq<Outcome>,
)
    requires
        run(Phase::Running(stage), profile, outcomes) == Phase::Established,
    ensures
        outcomes.len() >= steps_left(stage),
        forall|i: int| 0 <= i < steps_left(stage) ==> (#[trigger] outcomes[i]) is Done,
        steps_left(stage) > 5 ==> auth_method_of(profile.auth_type) is Some,
    decreases outcomes.len(),
{
    if outcomes.len() == 0 {
    } else {
        let next = advanced(Phase::Running(stage), profile, outcomes[0]).0;
        let rest = outcomes.drop_first();
        if !(outcomes[0] is Done) {
            lemma_closing_stays_closing(next, profile, rest);
        } else {
            match next {
                Phase::Running(following) => {
                    lemma_session_needs_every_step(following, profile, rest);
                    assert forall|i: int| 0 <= i < steps_left(stage) implies (
                    #[trigger] outcomes[i]) is Done by {
                        if i > 0 {
                            assert(outcomes[i] == rest[i - 1]);
                        }
                    }
                },
                Phase::Closed => {
                    lemma_closing_stays_closing(next, profile, rest);
                },
                _ => {},
            }
        }
    }
}

/// Where every step ends well and the profile names a way to sign in, the
/// ten steps make a session.
pub proof fn lemma_every_step_done_makes_session(profile: ConnectionProfile)
    requires
        auth_method_of(profile.auth_type) is Some,
    ensures
        run(
            Phase::Running(Stage::OpenSocket),
            profile,
            Seq::new(10, |i: int| Outcome::Done),
        ) == Phase::Established,
{
    lemma_done_from(Stage::OpenSocket, profile, Seq::new(10, |i: int| Outcome::Done));
}

proof fn lemma_done_from(stage: Stage, profile: ConnectionProfile, outcomes: Seq<Outcome>)
    requires
        auth_method_of(profile.auth_type) is Some,
        outcomes.len() == steps_left(stage),
        forall|i: int| 0 <= i < outcomes.len() ==> (#[trigger] outcomes[i]) is Done,
    ensures
        run(Phase::Running(stage), profile, outcomes) == Phase::Established,
    decreases outcomes.len(),
{
    let rest = outcomes.drop_first();
    assert(outcomes[0] is Done);
    assert forall|i: int| 0 <= i < rest.len() implies (#[trigger] rest[i]) is Done by {
        assert(rest[i] == outcomes[i + 1]);
    }
    match stage_after(stage) {
        Some(following) => {
            lemma_done_from(following, profile, rest);
        },
        None => {
            assert(rest.len() == 0);
            assert(run(Phase::Established, profile, rest) == Phase::Established);
        },
    }
}

/// One connection's way through its life, for the profile it was begun
/// with.
#[derive(Debug)]
pub struct SshConnection {
    config: ConnectionConfig,
    phase: Phase,
}

fn next_stage(stage: Stage) -> (r: Option<Stage>)
    ensures
        r == stage_after(stage),
{
    match stage {
        Stage::OpenSocket => Some(Stage::SetNonBlocking),
        Stage::SetNonBlocking => Some(Stage::CreateSession),
        Stage::CreateSession => Some(Stage::CloneStream),
        Stage::CloneStream => Some(Stage::Handshake),
        Stage::Handshake => Some(Stage::Authenticate),
        Stage::Authenticate => Some(Stage::CheckAuthenticated),
        Stage::CheckAuthenticated => Some(Stage::OpenChannel),
        Stage::OpenChannel => Some(Stage::RequestPty),
        Stage::RequestPty => Some(Stage::StartShell),
        Stage::StartShell => None,
    }
}

fn teardown_action(step: TeardownStep) -> (r: Action)
    ensures
        r@ == teardown_task(step),
{
    match step {
        TeardownStep::SendEof => Action::SendEof,
        TeardownStep::WaitEof => Action::WaitEof,
        TeardownStep::CloseChannel => Action::CloseChannel,
        TeardownStep::WaitClose => Action::WaitClose,
    }
}

/// The address of the profile's host.
pub fn address(config: &ConnectionConfig) -> (r: String)
    ensures
        r@ == address_of(config@),
{
    let mut out = String::from_str(config.host.as_str());
    out.append(":");
    let port = decimal_string(config.port as u64);
    out.append(port.as_str());
    proof {
        reveal_strlit(":");
        assert(":"@ =~= seq![':']);
    }
    out
}

fn stage_action(stage: Stage, config: &ConnectionConfig) -> (r: Action)
    ensures
        r@ == stage_task(stage, config@),
{
    match stage {
        Stage::OpenSocket => Action::OpenSocket {
            address: address(config),
            timeout_secs: CONNECT_TIMEOUT_SECS,
        },
        Stage::SetNonBlocking => Action::SetNonBlocking,
        Stage::CreateSession => Action::CreateSession,
        Stage::CloneStream => Action::CloneStream,
        Stage::Handshake => Action::Handshake,
        Stage::Authenticate => match config.auth_method() {
            Some(AuthMethod::Password) => Action::AuthPassword {
                username: config.username.clone(),
                password: config.auth_value.clone(),
            },
            Some(AuthMethod::Key) => Action::AuthKeyFile {
                username: config.username.clone(),
                key_path: config.auth_value.clone(),
            },
            Some(AuthMethod::Agent) => Action::AuthAgent { username: config.username.clone() },
            None => Action::Fail(SshError::InvalidAuthType),
        },
        Stage::CheckAuthenticated => Action::CheckAuthenticated,
        Stage::OpenChannel => Action::OpenChannel,
        Stage::RequestPty => Action::RequestPty {
            term: String::from_str("xterm-256color"),
            cols: INITIAL_COLS,
            rows: INITIAL_ROWS,
        },
        Stage::StartShell => Action::StartShell,
    }
}

fn detail(outcome: &StepOutcome) -> (r: String)
    ensures
        r@ == detail_of(outcome@),
{
    match outcome {
        StepOutcome::Done => String::new(),
        StepOutcome::Failed(e) => e.clone(),
        StepOutcome::TimedOut => String::from_str("Connection timeout"),
        StepOutcome::JoinFailed(e) => prefixed("Task join error: ", e.as_str()),
    }
}

fn failure(stage: Stage, config: &ConnectionConfig, outcome: &StepOutcome) -> (r: SshError)
    ensures
        r@ == failure_of(stage, config@, outcome@),
{
    let text = detail(outcome);
    match stage {
        Stage::OpenSocket => match outcome {
            StepOutcome::Failed(e) => SshError::ConnectionFailed(
                prefixed("TCP connect failed: ", e.as_str()),
            ),
            _ => SshError::ConnectionFailed(text),
        },
        Stage::SetNonBlocking => SshError::ConnectionFailed(
            prefixed("Failed to set non-blocking: ", text.as_str()),
        ),
        Stage::CreateSession => SshError::SessionCreationFailed(text),
        Stage::CloneStream => SshError::CloneFailed(text),
        Stage::Handshake => SshError::HandshakeFailed(text),
        Stage::Authenticate => match config.auth_method() {
            Some(AuthMethod::Key) => SshError::AuthFailed(
                prefixed("Key auth failed: ", text.as_str()),
            ),
            Some(AuthMethod::Agent) => SshError::AuthFailed(
                prefixed("Agent auth failed: ", text.as_str()),
            ),
            _ => SshError::AuthFailed(text),
        },
        Stage::CheckAuthenticated => SshError::AuthFailed(
            String::from_str("Authentication failed"),
        ),
        Stage::OpenChannel => SshError::ChannelFailed(text),
        Stage::RequestPty => SshError::PtyRequestFailed(text),
        Stage::StartShell => SshError::ShellFailed(text),
    }
}

impl SshConnection {
    /// How far the connection has come.
    pub closed spec fn phase(&self) -> Phase {
        self.phase
    }

    /// The profile that the connection is for.
    pub closed spec fn profile(&self) -> ConnectionProfile {
        self.config@
    }

    /// A connection that is not begun.
    pub fn new(config: ConnectionConfig) -> (r: SshConnection)
        ensures
            r.phase() == Phase::NotStarted,
            r.profile() == config@,
    {
        SshConnection { config, phase: Phase::NotStarted }
    }

    /// How far the connection has come.
    pub fn current_phase(&self) -> (r: Phase)
        ensures
            r == self.phase(),
    {
        self.phase
    }

    /// The state of the connection.
    pub fn state(&self) -> (r: ConnectionState)
        ensures
            r == state_of(self.phase()),
    {
        match self.phase {
            Phase::NotStarted => ConnectionState::Disconnected,
            Phase::Running(Stage::OpenSocket) => ConnectionState::Connecting,
            Phase::Running(Stage::SetNonBlocking) => ConnectionState::Connecting,
            Phase::Running(Stage::CreateSession) => ConnectionState::Handshaking,
            Phase::Running(Stage::CloneStream) => ConnectionState::Handshaking,
            Phase::Running(Stage::Handshake) => ConnectionState::Handshaking,
            Phase::Running(Stage::Authenticate) => ConnectionState::Authenticating,
            Phase::Running(Stage::CheckAuthenticated) => ConnectionState::Authenticating,
            Phase::Running(Stage::OpenChannel) => ConnectionState::ChannelOpen,
            Phase::Running(Stage::RequestPty) => ConnectionState::ChannelOpen,
            Phase::Running(Stage::StartShell) => ConnectionState::ChannelOpen,
            Phase::Established => ConnectionState::ShellActive,
            Phase::Closing(_) => ConnectionState::Closing,
            Phase::Closed => ConnectionState::Closed,
        }
    }

    /// Begins the connection: the socket is to be opened. On a connection
    /// that was begun before, nothing happens.
    pub fn begin(&mut self) -> (r: Action)
        ensures
            (final(self).phase(), r@) == begun(old(self).phase(), old(self).profile()),
            final(self).profile() == old(self).profile(),
    {
        match self.phase {
            Phase::NotStarted => {
                self.phase = Phase::Running(Stage::OpenSocket);
                stage_action(Stage::OpenSocket, &self.config)
            },
            _ => Action::Nothing,
        }
    }

    /// Takes the outcome of the action that was handed out last, and hands
    /// out the next.
    pub fn advance(&mut self, outcome: StepOutcome) -> (r: Action)
        ensures
            (final(self).phase(), r@) == advanced(
                old(self).phase(),
                old(self).profile(),
                outcome@,
            ),
            final(self).profile() == old(self).profile(),
    {
        match self.phase {
            Phase::Running(stage) => match outcome {
                StepOutcome::Done => match next_stage(stage) {
                    Some(next) => {
                        let action = stage_action(next, &self.config);
                        match action {
                            Action::Fail(_) => {
                                self.phase = Phase::Closed;
                            },
                            _ => {
                                self.phase = Phase::Running(next);
                            },
                        }
                        action
                    },
                    None => {
                        self.phase = Phase::Established;
                        Action::Register
                    },
                },
                _ => {
                    let error = failure(stage, &self.config, &outcome);
                    self.phase = Phase::Closed;
                    Action::Fail(error)
                },
            },
            Phase::Closing(step) => {
                let next = match step {
                    TeardownStep::SendEof => Some(TeardownStep::WaitEof),
                    TeardownStep::WaitEof => Some(TeardownStep::CloseChannel),
                    TeardownStep::CloseChannel => Some(TeardownStep::WaitClose),
                    TeardownStep::WaitClose => None,
                };
                match next {
                    Some(step) => {
                        self.phase = Phase::Closing(step);
                        teardown_action(step)
                    },
                    None => {
                        self.phase = Phase::Closed;
                        Action::Discard
                    },
                }
            },
            _ => Action::Nothing,
        }
    }

    /// Begins the teardown of a session that stands: end of stream is to be
    /// sent. In any other phase nothing happens.
    pub fn close(&mut self) -> (r: Action)
        ensures
            (final(self).phase(), r@) == closed_down(old(self).phase()),
            final(self).profile() == old(self).profile(),
    {
        match self.phase {
            Phase::Established => {
                self.phase = Phase::Closing(TeardownStep::SendEof);
                Action::SendEof
            },
            _ => Action::Nothing,
        }
    }
}

/// What one attempt to read from the channel gave.
#[derive(Debug, PartialEq, Eq)]
pub enum ReadOutcome {
    /// The bytes that were read; none at the end of the stream.
    Data(Vec<u8>),
    /// Nothing is there to read now.
    WouldBlock,
    /// Reading failed; the text says why.
    Failed(String),
}

/// The output that an attempt to read amounts to: the text of the bytes
/// read, with U+FFFD for what is not UTF-8; the empty text where nothing was
/// there; a failure only where reading failed.
pub open spec fn output_of(outcome: ReadOutcome) -> Result<Seq<char>, SshFailure> {
    match outcome {
        ReadOutcome::Data(bytes) => if bytes@.len() == 0 {
            Ok(Seq::empty())
        } else {
            Ok(utf8_lossy(bytes@))
        },
        ReadOutcome::WouldBlock => Ok(Seq::empty()),
        ReadOutcome::Failed(e) => Err(SshFailure::ReadFailed(e@)),
    }
}

/// Where nothing is there to read, the output is the empty text, and no
/// failure.
pub proof fn lemma_no_data_is_empty_output(outcome: ReadOutcome)
    requires
        outcome is WouldBlock || (outcome is Data && outcome->Data_0@.len() == 0),
    ensures
        output_of(outcome) == Ok::<Seq<char>, SshFailure>(Seq::empty()),
{
}

/// The output that an attempt to read amounts to.
pub fn read_result(outcome: ReadOutcome) -> (r: Result<String, SshError>)
    ensures
        match r {
            Ok(text) => output_of(outcome) == Ok::<Seq<char>, SshFailure>(text@),
            Err(e) => output_of(outcome) == Err::<Seq<char>, SshFailure>(e@),
        },
        outcome is Data && valid_utf8(outcome->Data_0@) ==> r is Ok && r->Ok_0@ == decode_utf8(
            outcome->Data_0@,
        ),
{
    match outcome {
        ReadOutcome::Data(bytes) => {
            if bytes.len() == 0 {
                proof {
                    reveal_with_fuel(decode_utf8, 1);
                    assert(decode_utf8(bytes@) =~= Seq::<char>::empty());
                }
                Ok(String::new())
            } else {
                Ok(lossy_text(bytes.as_slice()))
            }
        },
        ReadOutcome::WouldBlock => Ok(String::new()),
        ReadOutcome::Failed(e) => Err(SshError::ReadFailed(e)),
    }
}

/// What a write and its flush amount to.
pub fn write_result(outcome: Result<(), String>) -> (r: Result<(), SshError>)
    ensures
        match outcome {
            Ok(_) => r is Ok,
            Err(e) => r is Err && r->Err_0@ == SshFailure::WriteFailed(e@),
        },
{
    match outcome {
        Ok(_) => Ok(()),
        Err(e) => Err(SshError::WriteFailed(e)),
    }
}

/// What a request for a new terminal size amounts to.
pub fn resize_result(outcome: Result<(), String>) -> (r: Result<(), SshError>)
    ensures
        match outcome {
            Ok(_) => r is Ok,
            Err(e) => r is Err && r->Err_0@ == SshFailure::ResizeFailed(e@),
        },
{
    match outcome {
        Ok(_) => Ok(()),
        Err(e) => Err(SshError::ResizeFailed(e)),
    }
}

/// `Uuid::new_v4`, written as `Uuid`'s `to_string` writes it: a random
/// identifier. Nothing is known of its value.
#[verifier::external_body]
fn new_session_id() -> String {
    uuid::Uuid::new_v4().to_string()
}

/// How often an identifier is drawn for a new session before the attempt is
/// given up.
pub const MAX_ID_DRAWS: usize = 8;

/// The registry of live sessions: each under its identifier, which is the
/// only handle to it. The registry remembers every identifier that it has
/// handed out, so that none is handed out again.
pub struct SshManager<C> {
    connections: NameTable<C>,
    issued: NameTable<()>,
}

/// The registry as a mathematical value.
pub ghost struct RegistryState<C> {
    /// The live sessions by identifier.
    pub sessions: Map<Seq<char>, C>,
    /// The identifiers handed out so far, those of sessions that have ended
    /// among them.
    pub issued: Set<Seq<char>>,
}

impl<C> RegistryState<C> {
    /// The identifier is new to the registry: no live session has it, and
    /// none ever had.
    pub open spec fn is_new(self, session_id: Seq<char>) -> bool {
        !self.sessions.contains_key(session_id) && !self.issued.contains(session_id)
    }

    /// Every live session has an identifier that was handed out.
    pub open spec fn well_formed(self) -> bool {
        self.sessions.dom().subset_of(self.issued)
    }

    /// The registry with a session entered under an identifier.
    pub open spec fn with_session(self, session_id: Seq<char>, connection: C) -> RegistryState<C> {
        RegistryState {
            sessions: self.sessions.insert(session_id, connection),
            issued: self.issued.insert(session_id),
        }
    }

    /// The registry with the session of an identifier taken out. The
    /// identifier stays among those handed out.
    pub open spec fn without_session(self, session_id: Seq<char>) -> RegistryState<C> {
        RegistryState { sessions: self.sessions.remove(session_id), issued: self.issued }
    }
}

/// An identifier under which a session was entered is never new again,
/// whether the session is live or has been taken out; no identifier that
/// was handed out becomes new by what happens to another; and entering a
/// session leaves every other session as it was.
pub proof fn lemma_identifier_is_never_new_again<C>(
    state: RegistryState<C>,
    session_id: Seq<char>,
    connection: C,
    other: Seq<char>,
)
    requires
        state.well_formed(),
    ensures
        state.with_session(session_id, connection).well_formed(),
        state.without_session(session_id).well_formed(),
        !state.with_session(session_id, connection).is_new(session_id),
        !state.with_session(session_id, connection).without_session(session_id).is_new(
            session_id,
        ),
        !state.is_new(other) ==> !state.with_session(session_id, connection).is_new(other)
            && !state.without_session(session_id).is_new(other),
        other != session_id ==> lookup(
            state.with_session(session_id, connection).sessions,
            other,
        ) == lookup(state.sessions, other),
{
    if !state.is_new(other) {
        assert(state.issued.contains(other)) by {
            if state.sessions.contains_key(other) {
                assert(state.sessions.dom().contains(other));
            }
        }
    }
}

/// Taking out an identifier that stands for no session changes nothing.
pub proof fn lemma_unknown_disconnect_changes_nothing<C>(
    state: RegistryState<C>,
    session_id: Seq<char>,
)
    requires
        !state.sessions.contains_key(session_id),
    ensures
        state.without_session(session_id) == state,
{
    assert(state.sessions.remove(session_id) =~= state.sessions);
}

impl<C> View for SshManager<C> {
    type V = RegistryState<C>;

    closed spec fn view(&self) -> RegistryState<C> {
        RegistryState { sessions: self.connections@, issued: self.issued@.dom() }
    }
}

impl<C> SshManager<C> {
    #[verifier::type_invariant]
    spec fn live_were_issued(&self) -> bool {
        self.connections@.dom().subset_of(self.issued@.dom())
    }

    /// A registry without sessions, which has handed out no identifier.
    pub fn new() -> (r: SshManager<C>)
        ensures
            r@.sessions == Map::<Seq<char>, C>::empty(),
            r@.issued == Set::<Seq<char>>::empty(),
            r@.well_formed(),
    {
        let r = SshManager { connections: NameTable::new(), issued: NameTable::new() };
        proof {
            assert(r@.issued =~= Set::<Seq<char>>::empty());
        }
        r
    }

    /// Enters a session under the given identifier if the identifier is new
    /// to the registry. One that is or was in use is refused: the registry
    /// stays as it was, and the session is handed back.
    pub fn register(&mut self, session_id: String, connection: C) -> (r: Result<String, C>)
        ensures
            old(self)@.is_new(session_id@) ==> r is Ok && r->Ok_0@ == session_id@ && final(self)@
                == old(self)@.with_session(session_id@, connection),
            !old(self)@.is_new(session_id@) ==> r == Err::<String, C>(connection) && final(self)@
                == old(self)@,
            old(self)@.well_formed() && final(self)@.well_formed(),
    {
        proof {
            use_type_invariant(&*self);
        }
        let live = self.connections.get(session_id.as_str()).is_some();
        let used = self.issued.get(session_id.as_str()).is_some();
        if live || used {
            Err(connection)
        } else {
            let mut connections: NameTable<C> = NameTable::new();
            core::mem::swap(&mut connections, &mut self.connections);
            let mut issued: NameTable<()> = NameTable::new();
            core::mem::swap(&mut issued, &mut self.issued);
            connections.insert(session_id.as_str(), connection);
            issued.insert(session_id.as_str(), ());
            self.issued = issued;
            self.connections = connections;
            proof {
                assert(self@.issued =~= old(self)@.issued.insert(session_id@));
            }
            Ok(session_id)
        }
    }

    /// Ends an attempt to connect. A failure is handed on, and the registry
    /// stays as it was. A session that was made is registered under a random
    /// identifier that is new to the registry, and the identifier is
    /// returned. Identifiers are drawn until one is new, `MAX_ID_DRAWS` times
    /// at most; if none is, the session is handed back to be taken down.
    pub fn connect(&mut self, made: Result<C, SshError>) -> (r: Result<String, (SshError, Option<C>)>)
        ensures
            match made {
                Ok(connection) => match r {
                    Ok(session_id) => old(self)@.is_new(session_id@) && final(self)@ == old(
                        self,
                    )@.with_session(session_id@, connection),
                    Err((e, left)) => e@ == SshFailure::SessionIdTaken && left == Some(connection)
                        && final(self)@ == old(self)@,
                },
                Err(e) => r == Err::<String, (SshError, Option<C>)>((e, None)) && final(self)@
                    == old(self)@,
            },
            made is Ok && old(self)@.sessions.dom() =~= Set::<Seq<char>>::empty() && old(
                self,
            )@.issued =~= Set::<Seq<char>>::empty() ==> r is Ok,
            old(self)@.well_formed() && final(self)@.well_formed(),
    {
        proof {
            use_type_invariant(&*self);
        }
        match made {
            Ok(connection) => {
                let ghost nothing_taken = old(self)@.sessions.dom() =~= Set::<Seq<char>>::empty()
                    && old(self)@.issued =~= Set::<Seq<char>>::empty();
                let mut pending = connection;
                let mut draws: usize = 0;
                while draws < MAX_ID_DRAWS
                    invariant
                        draws <= MAX_ID_DRAWS,
                        made == Ok::<C, SshError>(connection),
                        pending == connection,
                        self@ == old(self)@,
                        nothing_taken == (old(self)@.sessions.dom() =~= Set::<Seq<char>>::empty()
                            && old(self)@.issued =~= Set::<Seq<char>>::empty()),
                        draws > 0 ==> !nothing_taken,
                    decreases MAX_ID_DRAWS - draws,
                {
                    let session_id = new_session_id();
                    match self.register(session_id, pending) {
                        Ok(session_id) => {
                            return Ok(session_id);
                        },
                        Err(back) => {
                            pending = back;
                        },
                    }
                    draws = draws + 1;
                }
                Err((SshError::SessionIdTaken, Some(pending)))
            },
            Err(e) => Err((e, None)),
        }
    }

    /// Takes a session out of the registry and hands it back to be taken
    /// down. An identifier that stands for no session changes nothing. The
    /// identifier stays among those handed out, and is not given again.
    pub fn disconnect(&mut self, session_id: &str) -> (r: Option<C>)
        ensures
            final(self)@ == old(self)@.without_session(session_id@),
            r == lookup(old(self)@.sessions, session_id@),
            !old(self)@.sessions.contains_key(session_id@) ==> r is None && final(self)@ == old(
                self,
            )@,
            old(self)@.well_formed() && final(self)@.well_formed(),
    {
        proof {
            use_type_invariant(&*self);
        }
        let mut connections: NameTable<C> = NameTable::new();
        core::mem::swap(&mut connections, &mut self.connections);
        let removed = connections.remove(session_id);
        proof {
            if removed is None {
                assert(connections@ =~= old(self)@.sessions);
            }
        }
        self.connections = connections;
        removed
    }

    /// The session to write to and the bytes to write: those of the command,
    /// with nothing added.
    pub fn send_command(&self, session_id: &str, command: &str) -> (r: Result<
        (&C, Vec<u8>),
        SshError,
    >)
        ensures
            match r {
                Ok((connection, bytes)) => lookup(self@.sessions, session_id@) == Some(*connection)
                    && bytes@ == encode_utf8(command@),
                Err(e) => lookup(self@.sessions, session_id@) is None && e@ == SshFailure::SessionNotFound,
            },
    {
        match self.connections.get(session_id) {
            Some(connection) => Ok((connection, command.as_bytes_vec())),
            None => Err(SshError::SessionNotFound),
        }
    }

    /// The session to read from.
    pub fn read_output(&self, session_id: &str) -> (r: Result<&C, SshError>)
        ensures
            match r {
                Ok(connection) => lookup(self@.sessions, session_id@) == Some(*connection),
                Err(e) => lookup(self@.sessions, session_id@) is None && e@ == SshFailure::SessionNotFound,
            },
    {
        match self.connections.get(session_id) {
            Some(connection) => Ok(connection),
            None => Err(SshError::SessionNotFound),
        }
    }

    /// The session whose terminal is to be resized, and the new size.
    pub fn resize_terminal(&self, session_id: &str, cols: u32, rows: u32) -> (r: Result<
        (&C, u32, u32),
        SshError,
    >)
        ensures
            match r {
                Ok((connection, c, r)) => lookup(self@.sessions, session_id@) == Some(*connection) && c
                    == cols && r == rows,
                Err(e) => lookup(self@.sessions, session_id@) is None && e@ == SshFailure::SessionNotFound,
            },
    {
        match self.connections.get(session_id) {
            Some(connection) => Ok((connection, cols, rows)),
            None => Err(SshError::SessionNotFound),
        }
    }
}

} // verus!
