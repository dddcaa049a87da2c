use vstd::prelude::*;

verus! {

// One authenticated session serves a whole invocation. Opening it is a fixed
// sequence of steps with a distinct failure each; running a command is one
// fresh channel per call whose nonzero exit status is data for the caller,
// not a transport failure. The outside work (the key-file test, the TCP
// stream, the protocol library's calls) is performed by the embedding
// application, which drives the state machine below and reports each step's
// outcome; everything decided on those outcomes is verified here.

/// What one remote command produced. A nonzero exit status is a successful
/// protocol result carrying failure information; only transport-level trouble
/// is an error.
pub struct RemoteCommandResult {
    /// Full standard output, read to completion.
    pub stdout: String,
    /// The command's exit status.
    pub exit_code: i32,
    /// Standard error, drained only after a nonzero exit status.
    pub stderr: String,
}

impl RemoteCommandResult {
    /// Standard error is populated only when the exit status is nonzero.
    pub open spec fn wf(self) -> bool {
        self.stderr@.len() > 0 ==> self.exit_code != 0
    }

    /// Whether the command exited with status zero.
    pub fn is_success(&self) -> (r: bool)
        ensures
            r == (self.exit_code == 0),
    {
        self.exit_code == 0
    }
}

/// Assembles the result of one executed command from what the channel
/// reported: the exit status, the standard output read to completion, and
/// whatever standard error was drained after a failing status. On exit status
/// zero the standard error is discarded unread.
pub fn finish_run(exit_code: i32, stdout: String, stderr: String) -> (r: RemoteCommandResult)
    ensures
        r.exit_code == exit_code,
        r.stdout@ == stdout@,
        exit_code == 0 ==> r.stderr@.len() == 0,
        exit_code != 0 ==> r.stderr@ == stderr@,
        r.wf(),
{
    if exit_code == 0 {
        RemoteCommandResult { stdout, exit_code, stderr: String::new() }
    } else {
        RemoteCommandResult { stdout, exit_code, stderr }
    }
}

/// A transport-level failure while running one command: the channel itself
/// misbehaved. Distinct from a nonzero exit status, which is data.
#[derive(Clone, Copy, PartialEq, Eq, Structural, Debug)]
pub enum CommandError {
    /// No channel could be opened on the session.
    ChannelOpen,
    /// The command could not be written to the channel.
    Exec,
    /// Standard output could not be read to completion.
    ReadStdout,
    /// The channel did not close cleanly.
    CloseChannel,
    /// No exit status could be read after the close.
    ExitStatus,
    /// Standard error could not be drained after a nonzero status.
    ReadStderr,
}

/// The steps a connection attempt passes through, in order.
#[derive(Clone, Copy, PartialEq, Eq, Structural, Debug)]
pub enum ConnectPhase {
    /// Confirm the private key file exists, before anything touches the
    /// network.
    KeyCheck,
    /// Resolve the address and open the TCP stream.
    TcpConnect,
    /// Perform the protocol handshake.
    Handshake,
    /// Authenticate with the user and key file.
    Auth,
    /// The session is live; commands may be run.
    Established,
}

/// The outside action one phase asks the embedding application to perform.
#[derive(Clone, Copy, PartialEq, Eq, Structural, Debug)]
pub enum ConnectAction {
    /// Test that the key file exists on the local filesystem.
    CheckKeyFile,
    /// Resolve and connect the TCP stream.
    OpenTcp,
    /// Run the protocol handshake on the stream.
    SshHandshake,
    /// Present the user name and key file.
    Authenticate,
}

/// A distinct, reportable failure for each connection step; none is retried.
#[derive(Clone, Copy, PartialEq, Eq, Structural, Debug)]
pub enum ConnectError {
    /// The private key file does not exist.
    KeyNotFound,
    /// Resolution or the TCP connection failed.
    ConnectFailed,
    /// The protocol handshake failed.
    HandshakeFailed,
    /// The server rejected the authentication.
    AuthRejected,
}

/// Actions that reach the network; testing the key file does not.
pub open spec fn is_network_action(a: ConnectAction) -> bool {
    !(a is CheckKeyFile)
}

/// The action each phase performs; none once the session is established.
pub open spec fn phase_action(p: ConnectPhase) -> Option<ConnectAction> {
    match p {
        ConnectPhase::KeyCheck => Some(ConnectAction::CheckKeyFile),
        ConnectPhase::TcpConnect => Some(ConnectAction::OpenTcp),
        ConnectPhase::Handshake => Some(ConnectAction::SshHandshake),
        ConnectPhase::Auth => Some(ConnectAction::Authenticate),
        ConnectPhase::Established => None,
    }
}

/// Where one phase goes on the reported outcome of its action: forward on
/// success, its own failure otherwise.
pub open spec fn advance_spec(p: ConnectPhase, ok: bool) -> Result<ConnectPhase, ConnectError> {
    match p {
        ConnectPhase::KeyCheck => if ok {
            Ok(ConnectPhase::TcpConnect)
        } else {
            Err(ConnectError::KeyNotFound)
        },
        ConnectPhase::TcpConnect => if ok {
            Ok(ConnectPhase::Handshake)
        } else {
            Err(ConnectError::ConnectFailed)
        },
        ConnectPhase::Handshake => if ok {
            Ok(ConnectPhase::Auth)
        } else {
            Err(ConnectError::HandshakeFailed)
        },
        ConnectPhase::Auth => if ok {
            Ok(ConnectPhase::Established)
        } else {
            Err(ConnectError::AuthRejected)
        },
        ConnectPhase::Established => Ok(ConnectPhase::Established),
    }
}

/// The outside action the driver must perform next, if any.
pub fn connect_action(p: &ConnectPhase) -> (a: Option<ConnectAction>)
    ensures
        a == phase_action(*p),
{
    match p {
        ConnectPhase::KeyCheck => Some(ConnectAction::CheckKeyFile),
        ConnectPhase::TcpConnect => Some(ConnectAction::OpenTcp),
        ConnectPhase::Handshake => Some(ConnectAction::SshHandshake),
        ConnectPhase::Auth => Some(ConnectAction::Authenticate),
        ConnectPhase::Established => None,
    }
}

/// Advances the connection attempt on the reported outcome of the current
/// phase's action.
pub fn connect_advance(p: ConnectPhase, ok: bool) -> (r: Result<ConnectPhase, ConnectError>)
    ensures
        r == advance_spec(p, ok),
{
    match p {
        ConnectPhase::KeyCheck => if ok {
            Ok(ConnectPhase::TcpConnect)
        } else {
            Err(ConnectError::KeyNotFound)
        },
        ConnectPhase::TcpConnect => if ok {
            Ok(ConnectPhase::Handshake)
        } else {
            Err(ConnectError::ConnectFailed)
        },
        ConnectPhase::Handshake => if ok {
            Ok(ConnectPhase::Auth)
        } else {
            Err(ConnectError::HandshakeFailed)
        },
        ConnectPhase::Auth => if ok {
            Ok(ConnectPhase::Established)
        } else {
            Err(ConnectError::AuthRejected)
        },
        ConnectPhase::Established => Ok(ConnectPhase::Established),
    }
}

/// Where a run from phase `p` ends when the listed step outcomes come back in
/// order: the phase reached when the outcomes run out, or the first failure.
pub open spec fn run_outcome(p: ConnectPhase, outcomes: Seq<bool>) -> Result<
    ConnectPhase,
    ConnectError,
>
    decreases outcomes.len(),
{
    if outcomes.len() == 0 || p is Established {
        Ok(p)
    } else {
        match advance_spec(p, outcomes[0]) {
            Ok(q) => run_outcome(q, outcomes.drop_first()),
            Err(e) => Err(e),
        }
    }
}

/// The outside actions such a run performs, in order.
pub open spec fn run_actions(p: ConnectPhase, outcomes: Seq<bool>) -> Seq<ConnectAction>
    decreases outcomes.len(),
{
    if outcomes.len() == 0 || p is Established {
        Seq::empty()
    } else {
        let head = match phase_action(p) {
            Some(a) => seq![a],
            None => Seq::empty(),
        };
        match advance_spec(p, outcomes[0]) {
            Ok(q) => head + run_actions(q, outcomes.drop_first()),
            Err(_) => head,
        }
    }
}

/// Every connection attempt begins with the key-file check.
pub proof fn lemma_connect_first_action(outcomes: Seq<bool>)
    requires
        outcomes.len() > 0,
    ensures
        run_actions(ConnectPhase::KeyCheck, outcomes).len() > 0,
        run_actions(ConnectPhase::KeyCheck, outcomes)[0] == ConnectAction::CheckKeyFile,
{
}

/// A key file that does not exist fails the connection attempt before any
/// network action: the run ends with `KeyNotFound` and the only action
/// performed was the local key-file check.
pub proof fn lemma_failed_key_check_stops_run(outcomes: Seq<bool>)
    requires
        outcomes.len() > 0,
        !outcomes[0],
    ensures
        run_outcome(ConnectPhase::KeyCheck, outcomes) == Result::<
            ConnectPhase,
            ConnectError,
        >::Err(ConnectError::KeyNotFound),
        forall|i: int|
            0 <= i < run_actions(ConnectPhase::KeyCheck, outcomes).len() ==> !is_network_action(
                #[trigger] run_actions(ConnectPhase::KeyCheck, outcomes)[i],
            ),
{
    assert(run_actions(ConnectPhase::KeyCheck, outcomes) =~= seq![ConnectAction::CheckKeyFile]);
}

} // verus!
