//! The session with one device: its identity, its kind, and whether the link
//! is still live.
use vstd::prelude::*;
use crate::text::same_text;
use crate::transport::{Fault, Reply, Request};

verus! {

/// Product id of a recorder that runs its application.
pub const PID_HOLTER: u16 = 0xBABA;

/// Product id of a recorder that runs its bootloader.
pub const PID_LOADER: u16 = 0xDEDA;

/// Why an operation on the device failed.
#[derive(Debug, PartialEq, Eq)]
pub enum Error {
    /// There is no live link to the device.
    NotConnected,
    /// The user selected no device.
    NotSelected,
    /// The platform denied access to the device.
    Security,
    /// The transport failed with an exception of this name.
    DomExp(String),
    /// The transport failed otherwise.
    RawJs,
    /// The operation is not valid for a device of this kind.
    DevTypeApi,
    /// The device refused a transfer of the requested size.
    EpStall,
    /// A message was malformed or too long.
    Protocol,
}

/// The error that a fault of the transport comes to.
pub open spec fn fault_error(fault: Fault) -> Error {
    match fault {
        Fault::Dom(name) => if name@ == "SecurityError"@ {
            Error::Security
        } else if name@ == "NotFoundError"@ {
            Error::NotSelected
        } else {
            Error::DomExp(name)
        },
        Fault::Raw => Error::RawJs,
    }
}

impl vstd::std_specs::convert::FromSpecImpl<Fault> for Error {
    open spec fn obeys_from_spec() -> bool {
        true
    }

    open spec fn from_spec(fault: Fault) -> Error {
        fault_error(fault)
    }
}

impl From<Fault> for Error {
    /// A denied access and an empty selection have errors of their own; any
    /// other exception keeps its name.
    fn from(e: Fault) -> (r: Error) {
        match e {
            Fault::Dom(name) => if same_text(name.as_str(), "SecurityError") {
                Error::Security
            } else if same_text(name.as_str(), "NotFoundError") {
                Error::NotSelected
            } else {
                Error::DomExp(name)
            },
            Fault::Raw => Error::RawJs,
        }
    }
}

/// The kind of a device, by the program that it runs.
#[derive(Clone, Copy, Debug, PartialEq, Eq, Structural)]
pub enum Type {
    /// The application.
    Holter,
    /// The bootloader.
    Loader,
}

impl Default for Type {
    fn default() -> (ty: Self)
        ensures
            ty == Type::Holter,
    {
        Type::Holter
    }
}

impl Type {
    /// The kind that a product id stands for.
    pub open spec fn spec_of_pid(pid: u16) -> Option<Type> {
        if pid == PID_HOLTER {
            Some(Type::Holter)
        } else if pid == PID_LOADER {
            Some(Type::Loader)
        } else {
            None
        }
    }

    /// The kind that a product id stands for, if it is one of a recorder.
    pub fn of_pid(pid: u16) -> (ty: Option<Type>)
        ensures
            ty == Type::spec_of_pid(pid),
    {
        if pid == PID_HOLTER {
            Some(Type::Holter)
        } else if pid == PID_LOADER {
            Some(Type::Loader)
        } else {
            None
        }
    }
}

/// The identity of a device.
#[allow(non_snake_case)]
#[derive(Debug, PartialEq, Eq)]
pub struct Desc {
    pub productName: String,
    pub serialNumber: String,
    pub manufacturerName: String,
    pub pid: u16,
    pub vid: u16,
}

/// The mathematical content of a [`Desc`].
#[allow(non_snake_case)]
pub struct DescView {
    pub productName: Seq<char>,
    pub serialNumber: Seq<char>,
    pub manufacturerName: Seq<char>,
    pub pid: u16,
    pub vid: u16,
}

impl View for Desc {
    type V = DescView;

    open spec fn view(&self) -> DescView {
        DescView {
            productName: self.productName@,
            serialNumber: self.serialNumber@,
            manufacturerName: self.manufacturerName@,
            pid: self.pid,
            vid: self.vid,
        }
    }
}

impl Default for Desc {
    fn default() -> (desc: Self)
        ensures
            desc@ == (DescView {
                productName: Seq::empty(),
                serialNumber: Seq::empty(),
                manufacturerName: Seq::empty(),
                pid: 0,
                vid: 0,
            }),
    {
        Desc {
            productName: String::new(),
            serialNumber: String::new(),
            manufacturerName: String::new(),
            pid: 0,
            vid: 0,
        }
    }
}

impl Clone for Desc {
    fn clone(&self) -> (r: Self)
        ensures
            r@ == self@,
    {
        Desc {
            productName: self.productName.clone(),
            serialNumber: self.serialNumber.clone(),
            manufacturerName: self.manufacturerName.clone(),
            pid: self.pid,
            vid: self.vid,
        }
    }
}

/// The state of the link to the device.
#[derive(Clone, Copy, Debug, PartialEq, Eq, Structural)]
pub enum Link {
    /// The transport holds a connection.
    Live,
    /// No connection, or one that failed.
    Disconnected,
}

/// What the library does with a device.
#[derive(Clone, Copy, Debug, PartialEq, Eq, Structural)]
pub enum Operation {
    /// A request and its reply on the command channel.
    Command,
    /// Writing a firmware image.
    DfuDownload,
    /// Reading the firmware image.
    DfuUpload,
    /// A transfer on the file channel.
    FileBlock,
    /// A frame of the telemetry channel.
    Vis,
}

impl Operation {
    /// The kind of device that the operation is for.
    pub open spec fn kind(self) -> Type {
        match self {
            Operation::DfuDownload | Operation::DfuUpload => Type::Loader,
            _ => Type::Holter,
        }
    }
}

/// The session with one device.
#[derive(Debug)]
pub struct Device {
    pub ty: Type,
    pub desc: Desc,
    pub link: Link,
}

impl Default for Device {
    /// A session without a device.
    fn default() -> (dev: Self)
        ensures
            dev.ty == Type::Holter,
            dev.link == Link::Disconnected,
            dev.desc@ == (DescView {
                productName: Seq::empty(),
                serialNumber: Seq::empty(),
                manufacturerName: Seq::empty(),
                pid: 0,
                vid: 0,
            }),
    {
        Device { ty: Type::default(), desc: Desc::default(), link: Link::Disconnected }
    }
}

impl Device {
    /// Whether the operation is let through: the device must be of the kind
    /// that the operation is for, and the link must be live. The kind is
    /// looked at first.
    pub open spec fn admits(self, op: Operation) -> Result<(), Error> {
        if self.ty != op.kind() {
            Err(Error::DevTypeApi)
        } else if self.link != Link::Live {
            Err(Error::NotConnected)
        } else {
            Ok(())
        }
    }

    /// The session after the transport answered: a failed call ends it. Data
    /// and a stall leave it as it was.
    pub open spec fn after(self, reply: Reply) -> Device {
        match reply {
            Reply::Failed(_) => Device { link: Link::Disconnected, ..self },
            _ => self,
        }
    }

    /// What a reply comes to: its bytes, or the error that stands for it.
    pub open spec fn outcome(reply: Reply) -> Result<Vec<u8>, Error> {
        match reply {
            Reply::Data(bytes) => Ok(bytes),
            Reply::Stall => Err(Error::EpStall),
            Reply::Failed(fault) => Err(fault_error(fault)),
        }
    }

    /// The session with a device that has just been connected and reset.
    pub fn request_device(desc: Desc) -> (dev: Device)
        requires
            Type::spec_of_pid(desc.pid) is Some,
        ensures
            dev.desc == desc,
            dev.link == Link::Live,
            Some(dev.ty) == Type::spec_of_pid(desc.pid),
    {
        let ty = if desc.pid == PID_HOLTER {
            Type::Holter
        } else {
            Type::Loader
        };
        Device { ty, desc, link: Link::Live }
    }

    /// The identity of the device, while the link is live.
    pub fn descriptor(&self) -> (desc: Option<&Desc>)
        ensures
            desc == if self.link == Link::Live {
                Some(&self.desc)
            } else {
                None
            },
    {
        match self.link {
            Link::Live => Some(&self.desc),
            Link::Disconnected => None,
        }
    }

    /// The kind of the device, while the link is live.
    pub fn _dev_type(&self) -> (ty: Option<Type>)
        ensures
            ty == if self.link == Link::Live {
                Some(self.ty)
            } else {
                None
            },
    {
        match self.link {
            Link::Live => Some(self.ty),
            Link::Disconnected => None,
        }
    }

    /// Whether the link is live.
    pub fn is_connected(&self) -> (live: bool)
        ensures
            live == (self.link == Link::Live),
    {
        match self.link {
            Link::Live => true,
            Link::Disconnected => false,
        }
    }

    /// Whether the device runs its bootloader.
    pub fn is_dfu_mode(&self) -> (dfu: bool)
        ensures
            dfu == (self.ty == Type::Loader),
    {
        match self.ty {
            Type::Loader => true,
            Type::Holter => false,
        }
    }

    /// Whether `dev` is the device of this session, connected again: the two
    /// identities are the same.
    pub fn is_reconnecting(&self, dev: &Self) -> (same: bool)
        ensures
            same == (self.desc@ == dev.desc@),
    {
        self.desc.productName == dev.desc.productName && self.desc.serialNumber
            == dev.desc.serialNumber && self.desc.manufacturerName == dev.desc.manufacturerName
            && self.desc.pid == dev.desc.pid && self.desc.vid == dev.desc.vid
    }

    /// Lets an operation through or refuses it, without touching the transport.
    pub fn gate(&self, op: Operation) -> (r: Result<(), Error>)
        ensures
            r == self.admits(op),
    {
        let kind = match op {
            Operation::DfuDownload | Operation::DfuUpload => Type::Loader,
            _ => Type::Holter,
        };
        if self.ty != kind {
            Err(Error::DevTypeApi)
        } else if !self.is_connected() {
            Err(Error::NotConnected)
        } else {
            Ok(())
        }
    }

    /// Takes the answer of the transport: its bytes, or the error that stands
    /// for it. A failed call ends the session. A stall is an error of its own
    /// and leaves the session as it was, so that the operation can be tried
    /// again.
    pub fn settle(&mut self, reply: Reply) -> (r: Result<Vec<u8>, Error>)
        ensures
            *final(self) == old(self).after(reply),
            r == Device::outcome(reply),
    {
        match reply {
            Reply::Data(bytes) => Ok(bytes),
            Reply::Stall => Err(Error::EpStall),
            Reply::Failed(fault) => {
                self.link = Link::Disconnected;
                Err(Error::from(fault))
            },
        }
    }

    /// Asks for one transfer of `tran_size` bytes from the file channel.
    pub fn recv_file_block(&self, tran_size: u32) -> (r: Result<Request, Error>)
        ensures
            match self.admits(Operation::FileBlock) {
                Ok(_) => r == Ok::<Request, Error>(Request::ReceiveFile(tran_size)),
                Err(e) => r == Err::<Request, Error>(e),
            },
    {
        match self.gate(Operation::FileBlock) {
            Ok(_) => Ok(Request::ReceiveFile(tran_size)),
            Err(e) => Err(e),
        }
    }

    /// Asks for one frame of at most `capacity` bytes from the telemetry channel.
    pub fn recv_vis(&self, capacity: usize) -> (r: Result<Request, Error>)
        ensures
            match self.admits(Operation::Vis) {
                Ok(_) => r == Ok::<Request, Error>(Request::ReceiveVis(capacity)),
                Err(e) => r == Err::<Request, Error>(e),
            },
    {
        match self.gate(Operation::Vis) {
            Ok(_) => Ok(Request::ReceiveVis(capacity)),
            Err(e) => Err(e),
        }
    }
}

/// Once a call of the transport has failed, the session is not live, it stays
/// so whatever the transport answers later, and every operation that is for a
/// device of its kind is refused as not connected.
pub proof fn lemma_failure_disconnects(dev: Device, failure: Reply, later: Seq<Reply>, op: Operation)
    requires
        failure is Failed,
        op.kind() == dev.ty,
    ensures
        after_all(dev.after(failure), later, later.len()).link == Link::Disconnected,
        after_all(dev.after(failure), later, later.len()).admits(op) == Err::<(), Error>(
            Error::NotConnected,
        ),
{
    lemma_stays_disconnected(dev.after(failure), later, later.len());
}

/// The session after the first `n` of `replies` were taken in turn.
pub open spec fn after_all(dev: Device, replies: Seq<Reply>, n: nat) -> Device
    decreases n,
{
    if n == 0 || n > replies.len() {
        dev
    } else {
        after_all(dev, replies, (n - 1) as nat).after(replies[n - 1])
    }
}

/// No answer of the transport brings a session back to life, nor changes the
/// kind of its device.
pub proof fn lemma_stays_disconnected(dev: Device, replies: Seq<Reply>, n: nat)
    requires
        dev.link == Link::Disconnected,
    ensures
        after_all(dev, replies, n).link == Link::Disconnected,
        after_all(dev, replies, n).ty == dev.ty,
    decreases n,
{
    if n > 0 && n <= replies.len() {
        lemma_stays_disconnected(dev, replies, (n - 1) as nat);
    }
}

} // verus!
