//! Making and ending a connection: why connecting can fail, and the signal
//! by which the owner of a connection tells its pump to stop.

use vstd::prelude::*;
use vstd::string::StringExecFns;

verus! {

/// Why no connection was made.
#[derive(Debug, PartialEq, Eq)]
pub enum ConnectError {
    /// The address could not be reached; the system's reason is given.
    Unreachable(String),
    /// The connection was made but could not be put in nonblocking mode,
    /// without which the pump could never look for the shutdown signal.
    NonblockingSetup,
}

/// A [`ConnectError`] as a value of mathematics.
pub enum ConnectErrorView {
    Unreachable(Seq<char>),
    NonblockingSetup,
}

impl View for ConnectError {
    type V = ConnectErrorView;

    open spec fn view(&self) -> ConnectErrorView {
        match self {
            ConnectError::Unreachable(reason) => ConnectErrorView::Unreachable(reason@),
            ConnectError::NonblockingSetup => ConnectErrorView::NonblockingSetup,
        }
    }
}

/// The text that describes a failure to connect.
pub open spec fn connect_error_text(error: ConnectErrorView) -> Seq<char> {
    match error {
        ConnectErrorView::Unreachable(reason) => "Error on connection: "@ + reason,
        ConnectErrorView::NonblockingSetup => "Couldn't set socket to nonblocking mode"@,
    }
}

impl ConnectError {
    /// The error in words.
    pub fn message(&self) -> (text: String)
        ensures
            text@ == connect_error_text(self@),
    {
        match self {
            ConnectError::Unreachable(reason) => String::from_str("Error on connection: ").concat(
                reason.as_str(),
            ),
            ConnectError::NonblockingSetup => String::from_str(
                "Couldn't set socket to nonblocking mode",
            ),
        }
    }
}

/// What comes of connecting: the address is reached first, and the
/// connection is then put in nonblocking mode. `reached` holds the
/// system's reason where the first step failed; `nonblocking_set` says
/// whether the second succeeded and is not looked at where the first did
/// not.
pub fn connect_outcome(reached: Result<(), String>, nonblocking_set: bool) -> (outcome: Result<
    (),
    ConnectError,
>)
    ensures
        match reached {
            Err(reason) => outcome matches Err(error) && error@ == ConnectErrorView::Unreachable(
                reason@,
            ),
            Ok(_) => if nonblocking_set {
                outcome is Ok
            } else {
                outcome matches Err(error) && error@ == ConnectErrorView::NonblockingSetup
            },
        },
{
    match reached {
        Err(reason) => Err(ConnectError::Unreachable(reason)),
        Ok(_) => if nonblocking_set {
            Ok(())
        } else {
            Err(ConnectError::NonblockingSetup)
        },
    }
}

/// The shutdown signal of one connection: raised by the owner, looked at
/// by the pump once per iteration.
pub struct ShutdownSignal {
    requested: bool,
}

impl View for ShutdownSignal {
    type V = bool;

    /// Whether shutdown has been asked for.
    closed spec fn view(&self) -> bool {
        self.requested
    }
}

impl ShutdownSignal {
    /// A signal that has not been raised.
    pub fn new() -> (signal: Self)
        ensures
            !signal@,
    {
        ShutdownSignal { requested: false }
    }

    /// Asks the pump to stop. Once asked it stays asked.
    pub fn signal_shutdown(&mut self)
        ensures
            final(self)@,
    {
        self.requested = true;
    }

    /// Whether shutdown was asked for. Looking does not change the signal.
    pub fn poll(&self) -> (requested: bool)
        ensures
            requested == self@,
    {
        self.requested
    }

    /// Ends the connection from the owner's side, after the owner tried to
    /// shut the socket down in both directions. Where that succeeded the
    /// pump is told to stop and the answer is `true`; where it failed the
    /// signal is left as it was and the answer is `false`.
    pub fn disconnect(&mut self, socket_shut_down: bool) -> (disconnected: bool)
        ensures
            disconnected == socket_shut_down,
            final(self)@ == (old(self)@ || socket_shut_down),
    {
        if socket_shut_down {
            self.signal_shutdown();
        }
        socket_shut_down
    }
}

} // verus!
