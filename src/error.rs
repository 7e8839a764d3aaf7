use vstd::prelude::*;

verus! {

/// Why a device target could not be chosen.
#[derive(Debug, Clone, Copy, PartialEq, Eq, Structural)]
pub enum SelectorFault {
    /// Neither a serial nor a transport id was given for a device command.
    NoTarget,
    /// Both a serial and a transport id were given for a device command.
    BothTargets,
    /// No online device matches the selector.
    NoMatchingDevice,
    /// More than one online device matches the selector.
    AmbiguousDevice,
}

/// Every failure of the client, typed by kind.
#[derive(Debug)]
pub enum AdbError {
    /// The server executable could not be launched at all.
    StartAdbFailed { message: String },
    /// The server executable ran and exited with a failure status.
    ServerBootstrapFailed { stderr: String },
    /// The TCP connection could not be opened.
    TcpConnectError { refused: bool, message: String },
    /// Writing a request to the socket failed.
    TcpWriteError { message: String },
    /// Reading from the socket failed at the operating-system level.
    TcpReadError { message: String },
    /// The peer closed the stream before the requested bytes arrived.
    ReadClosed,
    /// The peer closed the stream where a length prefix was expected.
    ConnectionClosed,
    /// A length prefix was not four hexadecimal digits.
    InvalidLength,
    /// A response was not well-formed text or not a number.
    ParseResponseError,
    /// A command is longer than a frame can carry.
    CommandTooLong,
    /// The server answered `FAIL` with this message.
    ResponseStatusError { content: String },
    /// The server answered with a status token other than `OKAY` or `FAIL`.
    UnexpectedStatus { token: Vec<u8> },
    /// The device target is missing, doubled, absent or ambiguous.
    SelectorInvariantError { fault: SelectorFault },
    /// Any other failure of the operating system.
    UnknownError { message: String },
}

} // verus!
