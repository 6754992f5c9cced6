//! The values that cross the reactor's boundaries.

use vstd::prelude::*;

verus! {

/// Names one timer. The protocol mints it; the reactor only hands it back.
#[derive(Clone, Copy, Debug, PartialEq, Eq, Hash, Structural)]
pub struct TimerHandle {
    pub id: u64,
}

/// Names one websocket connection. Timer handles and connection handles are
/// different types and live in separate tables, so equal numbers never clash.
#[derive(Clone, Copy, Debug, PartialEq, Eq, Hash, Structural)]
pub struct WSHandle {
    pub id: u64,
}

impl TimerHandle {
    pub fn new(id: u64) -> (handle: TimerHandle)
        ensures
            handle.id == id,
    {
        TimerHandle { id }
    }
}

impl WSHandle {
    pub fn new(id: u64) -> (handle: WSHandle)
        ensures
            handle.id == id,
    {
        WSHandle { id }
    }
}

/// What the protocol asks of the reactor.
#[derive(Clone, Debug, PartialEq, Eq)]
pub enum IOAction {
    /// Start a timer that runs for the given number of milliseconds.
    StartTimer(TimerHandle, u64),
    /// Forget a timer, so that its expiry is never reported.
    CancelTimer(TimerHandle),
    /// Open a connection to the given URL.
    WebSocketOpen(WSHandle, String),
    /// Send a text payload over a connection.
    WebSocketSendMessage(WSHandle, String),
    /// Close a connection.
    WebSocketClose(WSHandle),
}

/// What the reactor tells the protocol.
#[derive(Clone, Debug, PartialEq, Eq)]
pub enum IOEvent {
    TimerExpired(TimerHandle),
    WebSocketConnectionMade(WSHandle),
    WebSocketMessageReceived(WSHandle, String),
    WebSocketConnectionLost(WSHandle),
}

/// One item of a connection's outbound queue.
#[derive(Clone, Debug, PartialEq, Eq)]
pub enum WSControl {
    /// A text payload to write.
    Data(String),
    /// A request to close the connection.
    Close,
}

/// One websocket frame, as read from or written to the wire.
#[derive(Clone, Debug, PartialEq, Eq)]
pub enum Frame {
    Text(String),
    Binary(Vec<u8>),
    Ping(Vec<u8>),
    Pong(Vec<u8>),
    Close,
}

/// How far a registered connection has come.
#[derive(Clone, Copy, Debug, PartialEq, Eq, Structural)]
pub enum Link {
    /// The outbound queue exists, the connection is being established.
    Connecting,
    /// The connection is made and both forwarding loops run.
    Established,
}

/// Work that the reactor hands to the runtime.
#[derive(Clone, Debug, PartialEq, Eq)]
pub enum IOEffect {
    /// Wait for the given number of milliseconds, then report
    /// `TimerExpired` for the handle.
    Sleep(TimerHandle, u64),
    /// Create the outbound queue of the handle and connect to the URL; report
    /// `WebSocketConnectionMade` on success and a connect failure otherwise.
    Connect(WSHandle, String),
    /// Put the item on the outbound queue of the handle.
    Enqueue(WSHandle, WSControl),
}

/// Why the reactor refused or gave up an operation.
#[derive(Clone, Copy, Debug, PartialEq, Eq, Structural)]
pub enum IOError {
    /// A send or close named a connection that is not registered.
    UnknownHandle(WSHandle),
    /// The connection of the handle could not be established.
    ConnectFailed(WSHandle),
}

/// Everything that can reach the reactor, in one type.
#[derive(Clone, Debug, PartialEq, Eq)]
pub enum Input {
    /// An action of the protocol.
    Action(IOAction),
    /// A report of a task of the runtime, phrased as the event it proposes.
    Report(IOEvent),
    /// The runtime could not establish the connection of the handle.
    ConnectFailed(WSHandle),
}

/// What the reactor answers to one input.
#[derive(Clone, Debug, PartialEq, Eq)]
pub enum Output {
    /// Work for the runtime.
    Effect(IOEffect),
    /// An event for the protocol.
    Event(IOEvent),
    /// An error for whoever handed the input in.
    Error(IOError),
    /// Nothing to do and nothing to tell.
    Nothing,
}

impl IOEvent {
    /// Whether this event is a message received on the given connection.
    pub open spec fn is_message_on(self, handle: WSHandle) -> bool {
        match self {
            IOEvent::WebSocketMessageReceived(h, _) => h == handle,
            _ => false,
        }
    }
}

impl IOError {
    /// A short description of the error.
    pub fn message(&self) -> (text: &'static str)
        ensures
            text@ == (match *self {
                IOError::UnknownHandle(_) => "unknown websocket handle"@,
                IOError::ConnectFailed(_) => "websocket connection failed"@,
            }),
    {
        match self {
            IOError::UnknownHandle(_) => "unknown websocket handle",
            IOError::ConnectFailed(_) => "websocket connection failed",
        }
    }
}

} // verus!
