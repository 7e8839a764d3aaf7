//! The decisions of connecting to the server: one attempt, then on a
//! refused connection one start of the server and one more attempt.
use vstd::prelude::*;
use vstd::string::StringExecFns;

use crate::error::AdbError;

verus! {

/// Where a connection attempt stands.
#[derive(Debug, Clone, Copy, PartialEq, Eq, Structural)]
pub enum ConnectStage {
    /// The first socket is being opened.
    FirstAttempt,
    /// The first socket was refused and the server is being started.
    StartingServer,
    /// The server has started and the socket is being opened once more.
    Retrying,
    /// A socket is open.
    Connected,
    /// The attempt is over and failed.
    Failed,
}

/// What the caller observed after the last action.
#[derive(Debug)]
pub enum ConnectEvent {
    /// The socket opened.
    Opened,
    /// The operating system refused the connection.
    Refused { message: String },
    /// The socket failed to open for another reason.
    ConnectFailed { message: String },
    /// The server process ran and exited.
    ServerExited { success: bool, stderr: String },
    /// The server process could not be launched.
    ServerNotLaunched { message: String },
}

/// What the caller must do next.
#[derive(Debug)]
pub enum ConnectAction {
    /// Open a socket to the server.
    OpenSocket,
    /// Run the server executable with `start-server` and wait for it.
    StartServer,
    /// Use the socket that just opened.
    Ready,
    /// Stop with this error.
    GiveUp(AdbError),
}

/// The next stage after `event` in `stage`.
pub open spec fn next_stage(stage: ConnectStage, event: ConnectEvent) -> ConnectStage {
    match (stage, event) {
        (ConnectStage::FirstAttempt, ConnectEvent::Opened) => ConnectStage::Connected,
        (ConnectStage::FirstAttempt, ConnectEvent::Refused { .. }) => ConnectStage::StartingServer,
        (ConnectStage::StartingServer, ConnectEvent::ServerExited { success, .. }) => if success {
            ConnectStage::Retrying
        } else {
            ConnectStage::Failed
        },
        (ConnectStage::Retrying, ConnectEvent::Opened) => ConnectStage::Connected,
        _ => ConnectStage::Failed,
    }
}

/// The action that goes with `event` in `stage`.
pub open spec fn next_action_ok(stage: ConnectStage, event: ConnectEvent, a: ConnectAction) -> bool {
    match (stage, event) {
        (ConnectStage::FirstAttempt, ConnectEvent::Opened) => a is Ready,
        (ConnectStage::FirstAttempt, ConnectEvent::Refused { .. }) => a is StartServer,
        (ConnectStage::FirstAttempt, ConnectEvent::ConnectFailed { message }) => a matches ConnectAction::GiveUp(
            AdbError::TcpConnectError { refused, message: m },
        ) && !refused && m@ == message@,
        (ConnectStage::StartingServer, ConnectEvent::ServerExited { success, stderr }) => if success {
            a is OpenSocket
        } else {
            a matches ConnectAction::GiveUp(AdbError::ServerBootstrapFailed { stderr: e }) && e@
                == stderr@
        },
        (ConnectStage::StartingServer, ConnectEvent::ServerNotLaunched { message }) => a matches ConnectAction::GiveUp(
            AdbError::StartAdbFailed { message: m },
        ) && m@ == message@,
        (ConnectStage::Retrying, ConnectEvent::Opened) => a is Ready,
        (ConnectStage::Retrying, ConnectEvent::Refused { message }) => a matches ConnectAction::GiveUp(
            AdbError::TcpConnectError { refused, message: m },
        ) && refused && m@ == message@,
        (ConnectStage::Retrying, ConnectEvent::ConnectFailed { message }) => a matches ConnectAction::GiveUp(
            AdbError::TcpConnectError { refused, message: m },
        ) && !refused && m@ == message@,
        _ => a matches ConnectAction::GiveUp(AdbError::UnknownError { .. }),
    }
}

/// One step of connecting. The server is started only after the first
/// attempt is refused, so at most once per connection; every other failure
/// ends the attempt with a typed error.
pub fn connect_step(stage: ConnectStage, event: ConnectEvent) -> (r: (ConnectStage, ConnectAction))
    ensures
        r.0 == next_stage(stage, event),
        next_action_ok(stage, event, r.1),
        r.1 is StartServer <==> stage == ConnectStage::FirstAttempt && event is Refused,
        r.0 != ConnectStage::FirstAttempt,
        r.1 is Ready <==> r.0 == ConnectStage::Connected,
        r.1 is GiveUp <==> r.0 == ConnectStage::Failed,
{
    match (stage, event) {
        (ConnectStage::FirstAttempt, ConnectEvent::Opened) => (ConnectStage::Connected, ConnectAction::Ready),
        (ConnectStage::FirstAttempt, ConnectEvent::Refused { .. }) => (
            ConnectStage::StartingServer,
            ConnectAction::StartServer,
        ),
        (ConnectStage::FirstAttempt, ConnectEvent::ConnectFailed { message }) => (
            ConnectStage::Failed,
            ConnectAction::GiveUp(AdbError::TcpConnectError { refused: false, message }),
        ),
        (ConnectStage::StartingServer, ConnectEvent::ServerExited { success, stderr }) => {
            if success {
                (ConnectStage::Retrying, ConnectAction::OpenSocket)
            } else {
                (ConnectStage::Failed, ConnectAction::GiveUp(AdbError::ServerBootstrapFailed { stderr }))
            }
        },
        (ConnectStage::StartingServer, ConnectEvent::ServerNotLaunched { message }) => (
            ConnectStage::Failed,
            ConnectAction::GiveUp(AdbError::StartAdbFailed { message }),
        ),
        (ConnectStage::Retrying, ConnectEvent::Opened) => (ConnectStage::Connected, ConnectAction::Ready),
        (ConnectStage::Retrying, ConnectEvent::Refused { message }) => (
            ConnectStage::Failed,
            ConnectAction::GiveUp(AdbError::TcpConnectError { refused: true, message }),
        ),
        (ConnectStage::Retrying, ConnectEvent::ConnectFailed { message }) => (
            ConnectStage::Failed,
            ConnectAction::GiveUp(AdbError::TcpConnectError { refused: false, message }),
        ),
        _ => (
            ConnectStage::Failed,
            ConnectAction::GiveUp(
                AdbError::UnknownError { message: String::from_str("unexpected connection event") },
            ),
        ),
    }
}

/// The stage reached from the first attempt after `events`.
pub open spec fn stage_after(events: Seq<ConnectEvent>) -> ConnectStage
    decreases events.len(),
{
    if events.len() == 0 {
        ConnectStage::FirstAttempt
    } else {
        next_stage(stage_after(events.drop_last()), events.last())
    }
}

/// How many times the server is started along `events`.
pub open spec fn server_starts(events: Seq<ConnectEvent>) -> nat
    decreases events.len(),
{
    if events.len() == 0 {
        0
    } else {
        server_starts(events.drop_last()) + if stage_after(events.drop_last())
            == ConnectStage::FirstAttempt && events.last() is Refused {
            1nat
        } else {
            0nat
        }
    }
}

/// Whatever the events, one connection starts the server at most once,
/// and never goes back to its first attempt.
pub proof fn lemma_server_started_at_most_once(events: Seq<ConnectEvent>)
    ensures
        server_starts(events) <= 1,
        events.len() > 0 ==> stage_after(events) != ConnectStage::FirstAttempt,
        events.len() > 1 ==> server_starts(events) == server_starts(events.take(1)),
    decreases events.len(),
{
    if events.len() > 0 {
        lemma_server_started_at_most_once(events.drop_last());
        if events.len() > 1 {
            assert(events.drop_last().take(1) =~= events.take(1));
        }
    }
}

} // verus!
