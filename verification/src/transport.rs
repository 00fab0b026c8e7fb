//! What the library asks of the transport, and what the transport answers.
use vstd::prelude::*;
use crate::device::Error;

verus! {

/// What a failed transport call reported.
#[derive(Debug, PartialEq, Eq)]
pub enum Fault {
    /// An exception of the host platform, with its name.
    Dom(String),
    /// Anything else.
    Raw,
}

/// The answer of the transport to one request.
#[derive(Debug, PartialEq, Eq)]
pub enum Reply {
    /// The request went through. The bytes are those received, none for a
    /// request that only sends.
    Data(Vec<u8>),
    /// The device refused the transfer.
    Stall,
    /// The call failed.
    Failed(Fault),
}

/// A request of the firmware-update protocol.
#[derive(Clone, Copy, Debug, PartialEq, Eq, Structural)]
pub enum DfuRequest {
    Dnload,
    Upload,
    GetStatus,
    GetState,
}

/// One operation of the transport.
#[derive(Debug, PartialEq, Eq)]
pub enum Request {
    /// Send these bytes on the command channel.
    Send(Vec<u8>),
    /// Receive one chunk from the command channel.
    Receive,
    /// Receive a transfer of this many bytes from the file channel.
    ReceiveFile(u32),
    /// Receive a frame of at most this many bytes from the telemetry channel.
    ReceiveVis(usize),
    /// A control transfer that reads `length` bytes.
    ControlIn { request: DfuRequest, length: u16, value: u32 },
    /// A control transfer that writes `data`.
    ControlOut { request: DfuRequest, data: Vec<u8>, value: u32 },
}

/// The mathematical content of a [`Request`].
pub enum RequestView {
    Send(Seq<u8>),
    Receive,
    ReceiveFile(u32),
    ReceiveVis(usize),
    ControlIn { request: DfuRequest, length: u16, value: u32 },
    ControlOut { request: DfuRequest, data: Seq<u8>, value: u32 },
}

impl View for Request {
    type V = RequestView;

    open spec fn view(&self) -> RequestView {
        match self {
            Request::Send(bytes) => RequestView::Send(bytes@),
            Request::Receive => RequestView::Receive,
            Request::ReceiveFile(n) => RequestView::ReceiveFile(*n),
            Request::ReceiveVis(n) => RequestView::ReceiveVis(*n),
            Request::ControlIn { request, length, value } => RequestView::ControlIn {
                request: *request,
                length: *length,
                value: *value,
            },
            Request::ControlOut { request, data, value } => RequestView::ControlOut {
                request: *request,
                data: data@,
                value: *value,
            },
        }
    }
}

/// What the caller is to do next in an operation that ends with a `T`.
#[derive(Debug, PartialEq, Eq)]
pub enum Step<T> {
    /// Perform this request and hand back the reply.
    Ask(Request),
    /// The operation has ended.
    Done(Result<T, Error>),
}

} // verus!
