//! The decisions of the transport link: which kind of connection to try,
//! when an opening socket is ready, what a received message is worth, and
//! who may read or write. The byte transfer itself is the caller's.

use vstd::prelude::*;

verus! {

/// Time between two looks at a socket that is still opening, in
/// milliseconds.
pub const OPEN_POLL_MS: u32 = 10;

/// Time left to the device between a request and the read of its reply,
/// in milliseconds.
pub const EXCHANGE_WAIT_MS: u32 = 10;

/// The two kinds of connection behind a link.
#[derive(Clone, Copy, Debug, PartialEq, Eq, Structural)]
pub enum LinkKind {
    /// A message-oriented socket stream.
    Socket,
    /// A byte-oriented serial device handed out by the host.
    Serial,
}

/// Why an operation on the link failed.
#[derive(Clone, Copy, Debug, PartialEq, Eq, Structural)]
pub enum LinkError {
    /// No connection was made, or it was closed on this side.
    NotConnected,
    /// The far end closed the connection.
    Closed,
    /// The far end is closing the connection.
    Closing,
    /// A message arrived that does not carry bytes.
    UnexpectedMessage,
    /// The direction is in use: its lock is held.
    Busy,
}

/// Where a socket stands while it opens.
#[derive(Clone, Copy, Debug, PartialEq, Eq, Structural)]
pub enum SocketState {
    Connecting,
    Open,
    Closing,
    Closed,
}

/// What to do with a socket that was asked to open.
#[derive(Clone, Copy, Debug, PartialEq, Eq, Structural)]
pub enum OpenStep {
    /// Look again after this many milliseconds.
    Wait(u32),
    /// The socket is open.
    Ready,
    /// The socket will not open.
    Fail(LinkError),
}

/// What to do next while connecting.
#[derive(Clone, Copy, Debug, PartialEq, Eq, Structural)]
pub enum ConnectStep {
    /// Try to open a connection of this kind.
    Try(LinkKind),
    /// The connection of this kind stands.
    Established(LinkKind),
    /// Neither kind could be opened.
    Failed,
}

/// The steps of a request with its reply.
#[derive(Clone, Copy, Debug, PartialEq, Eq, Structural)]
pub enum ExchangeStep {
    /// Write the request.
    Write,
    /// Leave the device this many milliseconds to answer.
    Wait(u32),
    /// Read once.
    Read,
    /// What was read is the reply.
    Done,
    /// A step failed; its error is the outcome, and nothing more is done.
    Abort,
}

/// What a socket handed over on a read.
#[derive(Debug, PartialEq, Eq)]
pub enum Incoming {
    /// A binary message.
    Bytes(Vec<u8>),
    /// A message of another type.
    Text,
    /// The end of the stream.
    End,
}

/// Decides on a socket that was asked to open: wait while it connects, go
/// on when it is open, give up when it closes.
pub fn socket_open_step(state: SocketState) -> (r: OpenStep)
    ensures
        r == match state {
            SocketState::Connecting => OpenStep::Wait(OPEN_POLL_MS),
            SocketState::Open => OpenStep::Ready,
            SocketState::Closing => OpenStep::Fail(LinkError::Closing),
            SocketState::Closed => OpenStep::Fail(LinkError::Closed),
        },
{
    match state {
        SocketState::Connecting => OpenStep::Wait(OPEN_POLL_MS),
        SocketState::Open => OpenStep::Ready,
        SocketState::Closing => OpenStep::Fail(LinkError::Closing),
        SocketState::Closed => OpenStep::Fail(LinkError::Closed),
    }
}

/// Decides the next step of connecting, given the kind that was tried last,
/// if any, and whether that attempt succeeded: the socket comes first, and
/// the serial device is asked for only when the socket failed.
pub fn connect_step(tried: Option<LinkKind>, succeeded: bool) -> (r: ConnectStep)
    ensures
        r == match tried {
            None => ConnectStep::Try(LinkKind::Socket),
            Some(kind) => if succeeded {
                ConnectStep::Established(kind)
            } else if kind == LinkKind::Socket {
                ConnectStep::Try(LinkKind::Serial)
            } else {
                ConnectStep::Failed
            },
        },
{
    match tried {
        None => ConnectStep::Try(LinkKind::Socket),
        Some(kind) => {
            if succeeded {
                ConnectStep::Established(kind)
            } else {
                match kind {
                    LinkKind::Socket => ConnectStep::Try(LinkKind::Serial),
                    LinkKind::Serial => ConnectStep::Failed,
                }
            }
        },
    }
}

/// Decides the next step of a request with its reply, given the step that
/// was taken last, if any, and whether it succeeded: write, wait a fixed
/// time, read once. The first step that fails ends the exchange, so a
/// request that could not be written is not waited for.
pub fn exchange_step(last: Option<ExchangeStep>, succeeded: bool) -> (r: ExchangeStep)
    ensures
        r == match last {
            None => ExchangeStep::Write,
            Some(ExchangeStep::Done) => ExchangeStep::Done,
            Some(ExchangeStep::Abort) => ExchangeStep::Abort,
            Some(step) => if !succeeded {
                ExchangeStep::Abort
            } else {
                match step {
                    ExchangeStep::Write => ExchangeStep::Wait(EXCHANGE_WAIT_MS),
                    ExchangeStep::Wait(_) => ExchangeStep::Read,
                    _ => ExchangeStep::Done,
                }
            },
        },
{
    match last {
        None => ExchangeStep::Write,
        Some(ExchangeStep::Done) => ExchangeStep::Done,
        Some(ExchangeStep::Abort) => ExchangeStep::Abort,
        Some(step) => {
            if !succeeded {
                ExchangeStep::Abort
            } else {
                match step {
                    ExchangeStep::Write => ExchangeStep::Wait(EXCHANGE_WAIT_MS),
                    ExchangeStep::Wait(_) => ExchangeStep::Read,
                    _ => ExchangeStep::Done,
                }
            }
        },
    }
}

/// Decides what a read from the socket returns: the bytes of a binary
/// message, and a failure for any other message or the end of the stream.
pub fn accept_message(incoming: Incoming) -> (r: Result<Vec<u8>, LinkError>)
    ensures
        match incoming {
            Incoming::Bytes(bytes) => r is Ok && r->Ok_0@ == bytes@,
            Incoming::Text => r == Err::<Vec<u8>, LinkError>(LinkError::UnexpectedMessage),
            Incoming::End => r == Err::<Vec<u8>, LinkError>(LinkError::Closed),
        },
{
    match incoming {
        Incoming::Bytes(bytes) => Ok(bytes),
        Incoming::Text => Err(LinkError::UnexpectedMessage),
        Incoming::End => Err(LinkError::Closed),
    }
}

/// The link as a mathematical value.
pub struct LinkState {
    /// The kind of the connection that stands, if one does.
    pub kind: Option<LinkKind>,
    /// Whether a read is in progress.
    pub reading: bool,
    /// Whether a write is in progress.
    pub writing: bool,
}

impl LinkState {
    /// A link without a connection.
    pub open spec fn closed() -> LinkState {
        LinkState { kind: None, reading: false, writing: false }
    }

    /// A socket guards each direction with a lock of its own; a serial
    /// device has none.
    pub open spec fn locks(self) -> bool {
        self.kind == Some(LinkKind::Socket)
    }
}

/// The one link of the process: at most one connection, of one kind, and
/// for a socket one lock per direction.
pub struct Link {
    kind: Option<LinkKind>,
    reading: bool,
    writing: bool,
}

impl View for Link {
    type V = LinkState;

    closed spec fn view(&self) -> LinkState {
        LinkState { kind: self.kind, reading: self.reading, writing: self.writing }
    }
}

impl Link {
    /// A link without a connection.
    pub fn new() -> (r: Link)
        ensures
            r@ == LinkState::closed(),
    {
        Link { kind: None, reading: false, writing: false }
    }

    /// The kind of the connection that stands, if one does.
    pub fn kind(&self) -> (r: Option<LinkKind>)
        ensures
            r == self@.kind,
    {
        self.kind
    }

    /// Notes that a connection of the given kind was made. It takes the
    /// place of any connection before it, and nothing is in progress on it.
    pub fn open(&mut self, kind: LinkKind)
        ensures
            final(self)@ == (LinkState { kind: Some(kind), reading: false, writing: false }),
    {
        self.kind = Some(kind);
        self.reading = false;
        self.writing = false;
    }

    /// Asks for the read direction. Without a connection nothing is read.
    /// On a socket a read that is still in progress holds the lock, and
    /// asking again fails at once. Writing is not looked at.
    pub fn begin_read(&mut self) -> (r: Result<(), LinkError>)
        ensures
            r == (if old(self)@.kind is None {
                Err::<(), LinkError>(LinkError::NotConnected)
            } else if old(self)@.locks() && old(self)@.reading {
                Err::<(), LinkError>(LinkError::Busy)
            } else {
                Ok::<(), LinkError>(())
            }),
            final(self)@ == (if r is Ok {
                LinkState { reading: true, ..old(self)@ }
            } else {
                old(self)@
            }),
    {
        match self.kind {
            None => Err(LinkError::NotConnected),
            Some(kind) => {
                if self.reading && matches!(kind, LinkKind::Socket) {
                    Err(LinkError::Busy)
                } else {
                    self.reading = true;
                    Ok(())
                }
            },
        }
    }

    /// Gives the read direction back.
    pub fn end_read(&mut self)
        ensures
            final(self)@ == (LinkState { reading: false, ..old(self)@ }),
    {
        self.reading = false;
    }

    /// Asks for the write direction. Without a connection nothing is
    /// written. On a socket a write that is still in progress holds the
    /// lock, and asking again fails at once. Reading is not looked at.
    pub fn begin_write(&mut self) -> (r: Result<(), LinkError>)
        ensures
            r == (if old(self)@.kind is None {
                Err::<(), LinkError>(LinkError::NotConnected)
            } else if old(self)@.locks() && old(self)@.writing {
                Err::<(), LinkError>(LinkError::Busy)
            } else {
                Ok::<(), LinkError>(())
            }),
            final(self)@ == (if r is Ok {
                LinkState { writing: true, ..old(self)@ }
            } else {
                old(self)@
            }),
    {
        match self.kind {
            None => Err(LinkError::NotConnected),
            Some(kind) => {
                if self.writing && matches!(kind, LinkKind::Socket) {
                    Err(LinkError::Busy)
                } else {
                    self.writing = true;
                    Ok(())
                }
            },
        }
    }

    /// Gives the write direction back.
    pub fn end_write(&mut self)
        ensures
            final(self)@ == (LinkState { writing: false, ..old(self)@ }),
    {
        self.writing = false;
    }

    /// Gives the connection up. Closing a link that has none changes
    /// nothing.
    pub fn close(&mut self)
        ensures
            final(self)@ == LinkState::closed(),
    {
        self.kind = None;
        self.reading = false;
        self.writing = false;
    }
}

} // verus!
