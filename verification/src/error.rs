//! The failures of the bridge and what each of them leads to.

use vstd::prelude::*;

verus! {

/// A failure, by kind.
#[derive(Clone, Copy, Debug, PartialEq, Eq, Structural)]
pub enum BridgeError {
    /// TCP, TLS or mail-protocol I/O failed. `transient` tells a passing
    /// network fault from one that will not go away, such as a refused login.
    Transport { transient: bool },
    /// A malformed IRC line or an unexpected mail-protocol response.
    Protocol,
    /// Static configuration that is malformed or missing.
    Config,
}

/// What went wrong outside the bridge, as the caller saw it happen.
#[derive(Clone, Copy, Debug, PartialEq, Eq, Structural)]
pub enum Fault {
    /// The peer refused the connection.
    ConnectionRefused,
    /// The peer reset the connection.
    ConnectionReset,
    /// The connection was aborted.
    ConnectionAborted,
    /// The socket is not connected.
    NotConnected,
    /// The peer closed its end while the bridge was writing.
    BrokenPipe,
    /// An operation timed out.
    TimedOut,
    /// An operation was interrupted.
    Interrupted,
    /// The stream ended in the middle of a message.
    UnexpectedEof,
    /// The mail session lost its connection.
    ConnectionLost,
    /// The TLS handshake failed.
    Handshake,
    /// The mail server said no: a refused login, or a mailbox it does not
    /// have.
    Refused,
    /// The mail server answered what the protocol does not allow.
    BadResponse,
    /// Any other I/O failure.
    Other,
}

/// Whether a fault is of the kind that passes by itself: the network let
/// the bridge down, and the same step may well succeed later.
pub open spec fn passes(fault: Fault) -> bool {
    fault is ConnectionRefused || fault is ConnectionReset || fault is ConnectionAborted
        || fault is NotConnected || fault is BrokenPipe || fault is TimedOut
        || fault is Interrupted || fault is UnexpectedEof || fault is ConnectionLost
}

/// The failure that a fault amounts to. A response outside the protocol is a
/// protocol error; everything else is a transport failure, transient if the
/// fault passes.
pub open spec fn fault_error(fault: Fault) -> BridgeError {
    if fault is BadResponse {
        BridgeError::Protocol
    } else {
        BridgeError::Transport { transient: passes(fault) }
    }
}

/// Classifies a fault.
pub fn classify(fault: Fault) -> (error: BridgeError)
    ensures
        error == fault_error(fault),
{
    match fault {
        Fault::BadResponse => BridgeError::Protocol,
        Fault::Handshake | Fault::Refused | Fault::Other => BridgeError::Transport {
            transient: false,
        },
        _ => BridgeError::Transport { transient: true },
    }
}

/// When a failure happens, for the policy below.
#[derive(Clone, Copy, Debug, PartialEq, Eq, Structural)]
pub enum Phase {
    /// While configuration is loaded and the first connections are made.
    Startup,
    /// While the poll loop or the session loop runs.
    Steady,
    /// While a relayed message is sent as an email.
    Dispatch,
}

/// What a failure leads to.
#[derive(Clone, Copy, Debug, PartialEq, Eq, Structural)]
pub enum Disposition {
    /// The loop ends with the failure.
    Abort,
    /// The same step is tried again after a pause.
    Retry,
    /// The failure is reported; the bridge goes on.
    Report,
}

/// A failure policy for callers that want to outlast passing faults.
///
/// The poll step and the session step themselves end on every failure. A
/// caller may ask this policy first and hand a failure on to the step only
/// where the answer is `Abort`. A configuration error always ends the
/// bridge. A failed send of a relayed email is reported and nothing more. Of
/// the rest, only a transient transport failure in steady state is tried
/// again.
pub open spec fn disposition(error: BridgeError, phase: Phase) -> Disposition {
    match error {
        BridgeError::Config => Disposition::Abort,
        BridgeError::Protocol => match phase {
            Phase::Dispatch => Disposition::Report,
            _ => Disposition::Abort,
        },
        BridgeError::Transport { transient } => match phase {
            Phase::Startup => Disposition::Abort,
            Phase::Steady => if transient {
                Disposition::Retry
            } else {
                Disposition::Abort
            },
            Phase::Dispatch => Disposition::Report,
        },
    }
}

/// Decides what a failure leads to.
pub fn decide(error: BridgeError, phase: Phase) -> (d: Disposition)
    ensures
        d == disposition(error, phase),
{
    match error {
        BridgeError::Config => Disposition::Abort,
        BridgeError::Protocol => match phase {
            Phase::Dispatch => Disposition::Report,
            _ => Disposition::Abort,
        },
        BridgeError::Transport { transient } => match phase {
            Phase::Startup => Disposition::Abort,
            Phase::Steady => if transient {
                Disposition::Retry
            } else {
                Disposition::Abort
            },
            Phase::Dispatch => Disposition::Report,
        },
    }
}

/// The policy, rule by rule: a configuration error always ends the bridge;
/// so does every failure at startup; a failed send is reported, no more;
/// and nothing but a transient transport failure in steady state is tried
/// again.
pub proof fn lemma_policy_rules(error: BridgeError, phase: Phase)
    ensures
        error is Config ==> disposition(error, phase) == Disposition::Abort,
        phase == Phase::Startup ==> disposition(error, phase) == Disposition::Abort,
        phase == Phase::Dispatch && !(error is Config) ==> disposition(error, phase)
            == Disposition::Report,
        disposition(error, phase) == Disposition::Retry <==> phase == Phase::Steady && error
            == (BridgeError::Transport { transient: true }),
{
}

} // verus!
