//! Firmware update: writing an image to the bootloader and reading one back.
use vstd::prelude::*;
use crate::device::{Device, Error, Operation};
use crate::transport::{DfuRequest, Reply, Request, RequestView, Step};

verus! {

/// Length in bytes of a packet of the image.
pub const PACKET_SIZE: usize = 64;

/// Length in bytes of a status report.
pub const STATUS_SIZE: u16 = 6;

/// Length in bytes of a state report.
pub const STATE_SIZE: u16 = 1;

/// The state in which the device has handed out its whole image.
pub const STATE_IDLE: u8 = 2;

/// Where the writing of an image stands.
#[derive(Clone, Copy, Debug, PartialEq, Eq, Structural)]
pub enum DownloadPhase {
    /// The state of the device was asked for.
    State,
    /// A packet of the image is on its way.
    Packet,
    /// The status after a packet was asked for.
    Status,
    /// The empty packet that ends the image is on its way.
    Last,
    /// The status after the empty packet was asked for.
    LastStatus,
}

/// The writing of an image, in progress.
#[derive(Debug)]
pub struct DfuDownload {
    /// The image.
    pub data: Vec<u8>,
    /// How many bytes of it have been handed to the transport.
    pub sent: usize,
    /// The number of the next packet.
    pub index: u32,
    pub phase: DownloadPhase,
    /// Whether a status report that tells of an error ends the writing.
    pub strict: bool,
}

/// The number of packets that hold `len` bytes.
pub open spec fn packets(len: int) -> int {
    (len + PACKET_SIZE - 1) / (PACKET_SIZE as int)
}

/// Where the packet that starts at `from` ends in an image of `len` bytes.
pub open spec fn packet_end(from: int, len: int) -> int {
    if len - from > PACKET_SIZE {
        from + PACKET_SIZE
    } else {
        len
    }
}

/// The request for a status report.
pub open spec fn status_request() -> RequestView {
    RequestView::ControlIn { request: DfuRequest::GetStatus, length: STATUS_SIZE, value: 0 }
}

/// The request for a state report.
pub open spec fn state_request() -> RequestView {
    RequestView::ControlIn { request: DfuRequest::GetState, length: STATE_SIZE, value: 0 }
}

/// The request for a packet of the image held by the device.
pub open spec fn upload_request() -> RequestView {
    RequestView::ControlIn { request: DfuRequest::Upload, length: PACKET_SIZE as u16, value: 0 }
}

/// Whether a status report lets a strict writer go on: it is complete and
/// its first byte tells of no error.
pub open spec fn status_ok(report: Seq<u8>) -> bool {
    report.len() >= STATUS_SIZE && report[0] == 0
}

impl DfuDownload {
    /// Packets are whole but for the last, and each has had its number.
    pub open spec fn wf(self) -> bool {
        &&& self.sent <= self.data@.len()
        &&& self.sent % PACKET_SIZE == 0 || self.sent == self.data@.len()
        &&& self.index as int == packets(self.sent as int)
        &&& packets(self.data@.len() as int) < u32::MAX
    }

    /// What follows once the device is ready for a packet: the next packet of
    /// the image under the next number, or the empty packet under that number
    /// once the image is through.
    pub open spec fn moves_on(self, post: DfuDownload, step: Step<()>) -> bool {
        if self.sent < self.data@.len() {
            let end = packet_end(self.sent as int, self.data@.len() as int);
            &&& post == (DfuDownload {
                sent: end as usize,
                index: (self.index + 1) as u32,
                phase: DownloadPhase::Packet,
                ..self
            })
            &&& step matches Step::Ask(request)
            &&& request@ == (RequestView::ControlOut {
                request: DfuRequest::Dnload,
                data: self.data@.subrange(self.sent as int, end),
                value: self.index,
            })
        } else {
            &&& post == (DfuDownload { phase: DownloadPhase::Last, ..self })
            &&& step matches Step::Ask(request)
            &&& request@ == (RequestView::ControlOut {
                request: DfuRequest::Dnload,
                data: Seq::empty(),
                value: self.index,
            })
        }
    }

    /// What follows a reply with data `report`.
    pub open spec fn follows(self, report: Seq<u8>, post: DfuDownload, step: Step<()>) -> bool {
        match self.phase {
            DownloadPhase::State => self.moves_on(post, step),
            DownloadPhase::Packet => {
                &&& post == (DfuDownload { phase: DownloadPhase::Status, ..self })
                &&& step matches Step::Ask(request)
                &&& request@ == status_request()
            },
            DownloadPhase::Status => if self.strict && !status_ok(report) {
                post == self && step == Step::<()>::Done(Err(Error::Protocol))
            } else {
                self.moves_on(post, step)
            },
            DownloadPhase::Last => {
                &&& post == (DfuDownload { phase: DownloadPhase::LastStatus, ..self })
                &&& step matches Step::Ask(request)
                &&& request@ == status_request()
            },
            DownloadPhase::LastStatus => {
                &&& post == self
                &&& if self.strict && !status_ok(report) {
                    step == Step::<()>::Done(Err(Error::Protocol))
                } else {
                    step == Step::<()>::Done(Ok(()))
                }
            },
        }
    }

    fn next_packet(&mut self) -> (step: Step<()>)
        requires
            old(self).wf(),
        ensures
            final(self).wf(),
            old(self).moves_on(*final(self), step),
    {
        let len = self.data.len();
        if self.sent < len {
            let end = if len - self.sent > PACKET_SIZE {
                self.sent + PACKET_SIZE
            } else {
                len
            };
            let packet = copy_range(&self.data, self.sent, end);
            let request = Request::ControlOut {
                request: DfuRequest::Dnload,
                data: packet,
                value: self.index,
            };
            proof {
                lemma_packets_grow(self.sent as int, len as int);
            }
            self.sent = end;
            self.index = self.index + 1;
            self.phase = DownloadPhase::Packet;
            Step::Ask(request)
        } else {
            self.phase = DownloadPhase::Last;
            Step::Ask(
                Request::ControlOut { request: DfuRequest::Dnload, data: Vec::new(), value: self.index },
            )
        }
    }

    /// Takes the answer of the transport and says what to do next. An answer
    /// without data ends the writing; a failed call ends the session too.
    pub fn step(&mut self, dev: &mut Device, reply: Reply) -> (step: Step<()>)
        requires
            old(self).wf(),
        ensures
            final(self).wf(),
            *final(dev) == old(dev).after(reply),
            match Device::outcome(reply) {
                Ok(report) => old(self).follows(report@, *final(self), step),
                Err(e) => *final(self) == *old(self) && step == Step::<()>::Done(Err(e)),
            },
    {
        let report = match dev.settle(reply) {
            Ok(report) => report,
            Err(e) => {
                return Step::Done(Err(e));
            },
        };
        let bad = self.strict && !(report.len() >= STATUS_SIZE as usize && report[0] == 0);
        match self.phase {
            DownloadPhase::State => self.next_packet(),
            DownloadPhase::Packet => {
                self.phase = DownloadPhase::Status;
                Step::Ask(
                    Request::ControlIn { request: DfuRequest::GetStatus, length: STATUS_SIZE, value: 0 },
                )
            },
            DownloadPhase::Status => if bad {
                Step::Done(Err(Error::Protocol))
            } else {
                self.next_packet()
            },
            DownloadPhase::Last => {
                self.phase = DownloadPhase::LastStatus;
                Step::Ask(
                    Request::ControlIn { request: DfuRequest::GetStatus, length: STATUS_SIZE, value: 0 },
                )
            },
            DownloadPhase::LastStatus => if bad {
                Step::Done(Err(Error::Protocol))
            } else {
                Step::Done(Ok(()))
            },
        }
    }
}

/// After one more packet there is one more packet, and no more than the
/// image has.
proof fn lemma_packets_grow(sent: int, len: int)
    requires
        0 <= sent < len,
        sent % (PACKET_SIZE as int) == 0,
    ensures
        packets(packet_end(sent, len)) == packets(sent) + 1,
        packets(packet_end(sent, len)) <= packets(len),
        packet_end(sent, len) % (PACKET_SIZE as int) == 0 || packet_end(sent, len) == len,
{
}

/// A copy of the bytes of `data` from `from` up to `to`.
fn copy_range(data: &Vec<u8>, from: usize, to: usize) -> (part: Vec<u8>)
    requires
        from <= to <= data@.len(),
    ensures
        part@ == data@.subrange(from as int, to as int),
{
    let mut part: Vec<u8> = Vec::new();
    let mut i = from;
    while i < to
        invariant
            from <= i <= to <= data@.len(),
            part@ == data@.subrange(from as int, i as int),
        decreases to - i,
    {
        part.push(data[i]);
        proof {
            assert(part@ =~= data@.subrange(from as int, i + 1));
        }
        i = i + 1;
    }
    part
}

impl Device {
    /// Opens the writing of the image `data` to the bootloader. It is refused
    /// where the device does not run its bootloader, where the link is not
    /// live, and where the image has more packets than can be numbered.
    pub fn send_recv_dfu(&self, data: Vec<u8>, strict: bool) -> (r: Result<
        (DfuDownload, Request),
        Error,
    >)
        ensures
            match self.admits(Operation::DfuDownload) {
                Err(e) => r == Err::<(DfuDownload, Request), Error>(e),
                Ok(_) => if packets(data@.len() as int) >= u32::MAX {
                    r == Err::<(DfuDownload, Request), Error>(Error::Protocol)
                } else {
                    &&& r matches Ok((download, first))
                    &&& download == (DfuDownload {
                        data,
                        sent: 0,
                        index: 0,
                        phase: DownloadPhase::State,
                        strict,
                    })
                    &&& download.wf()
                    &&& first@ == state_request()
                },
            },
    {
        match self.gate(Operation::DfuDownload) {
            Err(e) => Err(e),
            Ok(_) => {
                let len = data.len();
                let count = len / PACKET_SIZE + if len % PACKET_SIZE == 0 {
                    0
                } else {
                    1
                };
                if count >= u32::MAX as usize {
                    Err(Error::Protocol)
                } else {
                    Ok(
                        (
                            DfuDownload {
                                data,
                                sent: 0,
                                index: 0,
                                phase: DownloadPhase::State,
                                strict,
                            },
                            Request::ControlIn {
                                request: DfuRequest::GetState,
                                length: STATE_SIZE,
                                value: 0,
                            },
                        ),
                    )
                }
            },
        }
    }
}

/// The request that the writer of `data` makes at place `k` of its run, the
/// first being at place 0: the state is asked for; then each packet of the
/// image goes out under its number, followed by a request for the status; the
/// empty packet under the next number ends the image, and the status is asked
/// for once more.
pub open spec fn script_at(data: Seq<u8>, k: nat) -> RequestView {
    let count = packets(data.len() as int);
    let i = (k - 1) / 2;
    if k == 0 {
        state_request()
    } else if k % 2 == 0 {
        status_request()
    } else if i < count {
        RequestView::ControlOut {
            request: DfuRequest::Dnload,
            data: data.subrange(i * PACKET_SIZE, packet_end(i * PACKET_SIZE, data.len() as int)),
            value: i as u32,
        }
    } else {
        RequestView::ControlOut {
            request: DfuRequest::Dnload,
            data: Seq::empty(),
            value: count as u32,
        }
    }
}

/// The number of requests in the run of the writer of an image of `len` bytes.
pub open spec fn script_len(len: int) -> int {
    2 * packets(len) + 3
}

impl DfuDownload {
    /// The writer as it stands after it made the request at place `k` of its run.
    pub open spec fn at_place(self, k: nat) -> DfuDownload {
        let len = self.data@.len() as int;
        let count = packets(len);
        let i = (k - 1) / 2;
        if k == 0 {
            DfuDownload { sent: 0, index: 0, phase: DownloadPhase::State, ..self }
        } else if k <= 2 * count {
            DfuDownload {
                sent: packet_end(i * PACKET_SIZE, len) as usize,
                index: (i + 1) as u32,
                phase: if k % 2 == 1 {
                    DownloadPhase::Packet
                } else {
                    DownloadPhase::Status
                },
                ..self
            }
        } else {
            DfuDownload {
                sent: len as usize,
                index: count as u32,
                phase: if k == 2 * count + 1 {
                    DownloadPhase::Last
                } else {
                    DownloadPhase::LastStatus
                },
                ..self
            }
        }
    }
}

/// A writer that is not stopped by a status report goes through its run
/// request by request: whatever the device answers with, the request at the
/// next place follows, and after the last one the writing ends well.
pub proof fn lemma_download_run(
    writer: DfuDownload,
    k: nat,
    report: Seq<u8>,
    post: DfuDownload,
    step: Step<()>,
)
    requires
        writer.wf(),
        k < script_len(writer.data@.len() as int),
        writer == writer.at_place(k),
        !writer.strict || status_ok(report),
        writer.follows(report, post, step),
    ensures
        k + 1 < script_len(writer.data@.len() as int) ==> {
            &&& step matches Step::Ask(request)
            &&& request@ == script_at(writer.data@, k + 1)
            &&& post == writer.at_place(k + 1)
        },
        k + 1 == script_len(writer.data@.len() as int) ==> step == Step::<()>::Done(Ok(())),
{
    let len = writer.data@.len() as int;
    let count = packets(len);
    let size = PACKET_SIZE as int;
    if k == 0 {
    } else if k <= 2 * count {
        let i = (k - 1) / 2;
        assert(i < count);
        assert(i * size < len);
        if k % 2 == 0 {
            if writer.sent < len {
                assert(writer.sent == (i + 1) * size);
                assert((k + 1 - 1) / 2 == i + 1);
            } else {
                assert(count == i + 1);
            }
        }
    } else {
    }
}

/// Where the reading of the image stands.
#[derive(Clone, Copy, Debug, PartialEq, Eq, Structural)]
pub enum UploadPhase {
    /// The status of the device was asked for.
    Status,
    /// A packet of the image was asked for.
    Packet,
    /// The state after a packet was asked for.
    State,
}

/// The reading of the image, in progress.
#[derive(Debug)]
pub struct DfuUpload {
    /// The bytes of the image read so far.
    pub data: Vec<u8>,
    pub phase: UploadPhase,
}

/// What the reader does next, in mathematical terms.
pub enum UploadStep {
    /// It asks the transport for this.
    Ask(RequestView),
    /// It ends with the image.
    Image(Seq<u8>),
    /// It ends with an error.
    Fail(Error),
}

/// Whether `step` is what `shown` describes.
pub open spec fn shows(step: Step<Vec<u8>>, shown: UploadStep) -> bool {
    match shown {
        UploadStep::Ask(request) => step matches Step::Ask(r) && r@ == request,
        UploadStep::Image(image) => step matches Step::Done(Ok(bytes)) && bytes@ == image,
        UploadStep::Fail(e) => step == Step::<Vec<u8>>::Done(Err(e)),
    }
}

/// What follows a reply with data `bytes` where `data` has been read so far:
/// the bytes read, the phase, and what the reader does next. After the status
/// it asks for a packet. A packet is appended to the image, and the state is
/// asked for. A state report that tells of the idle state ends the reading
/// with the image, any other asks for the next packet, and an empty one is a
/// protocol error.
pub open spec fn upload_next(data: Seq<u8>, phase: UploadPhase, bytes: Seq<u8>) -> (
    Seq<u8>,
    UploadPhase,
    UploadStep,
) {
    match phase {
        UploadPhase::Status => (data, UploadPhase::Packet, UploadStep::Ask(upload_request())),
        UploadPhase::Packet => (
            data + bytes,
            UploadPhase::State,
            UploadStep::Ask(state_request()),
        ),
        UploadPhase::State => if bytes.len() == 0 {
            (data, UploadPhase::State, UploadStep::Fail(Error::Protocol))
        } else if bytes[0] == STATE_IDLE {
            (Seq::empty(), UploadPhase::State, UploadStep::Image(data))
        } else {
            (data, UploadPhase::Packet, UploadStep::Ask(upload_request()))
        },
    }
}

impl DfuUpload {
    /// Takes the answer of the transport and says what to do next. An answer
    /// without data ends the reading; a failed call ends the session too.
    pub fn step(&mut self, dev: &mut Device, reply: Reply) -> (step: Step<Vec<u8>>)
        ensures
            *final(dev) == old(dev).after(reply),
            match Device::outcome(reply) {
                Ok(bytes) => {
                    let next = upload_next(old(self).data@, old(self).phase, bytes@);
                    &&& final(self).data@ == next.0
                    &&& final(self).phase == next.1
                    &&& shows(step, next.2)
                },
                Err(e) => {
                    &&& final(self).data@ == old(self).data@
                    &&& final(self).phase == old(self).phase
                    &&& step == Step::<Vec<u8>>::Done(Err(e))
                },
            },
    {
        let mut bytes = match dev.settle(reply) {
            Ok(bytes) => bytes,
            Err(e) => {
                return Step::Done(Err(e));
            },
        };
        match self.phase {
            UploadPhase::Status => {
                self.phase = UploadPhase::Packet;
                Step::Ask(
                    Request::ControlIn {
                        request: DfuRequest::Upload,
                        length: PACKET_SIZE as u16,
                        value: 0,
                    },
                )
            },
            UploadPhase::Packet => {
                self.data.append(&mut bytes);
                self.phase = UploadPhase::State;
                Step::Ask(
                    Request::ControlIn { request: DfuRequest::GetState, length: STATE_SIZE, value: 0 },
                )
            },
            UploadPhase::State => if bytes.len() == 0 {
                Step::Done(Err(Error::Protocol))
            } else if bytes[0] == STATE_IDLE {
                let mut image: Vec<u8> = Vec::new();
                std::mem::swap(&mut self.data, &mut image);
                Step::Done(Ok(image))
            } else {
                self.phase = UploadPhase::Packet;
                Step::Ask(
                    Request::ControlIn {
                        request: DfuRequest::Upload,
                        length: PACKET_SIZE as u16,
                        value: 0,
                    },
                )
            },
        }
    }
}

impl Device {
    /// Opens the reading of the image from the bootloader. It is refused where
    /// the device does not run its bootloader and where the link is not live.
    pub fn dfu_upload(&self) -> (r: Result<(DfuUpload, Request), Error>)
        ensures
            match self.admits(Operation::DfuUpload) {
                Err(e) => r == Err::<(DfuUpload, Request), Error>(e),
                Ok(_) => {
                    &&& r matches Ok((upload, first))
                    &&& upload.data@ == Seq::<u8>::empty()
                    &&& upload.phase == UploadPhase::Status
                    &&& first@ == status_request()
                },
            },
    {
        match self.gate(Operation::DfuUpload) {
            Err(e) => Err(e),
            Ok(_) => Ok(
                (
                    DfuUpload { data: Vec::new(), phase: UploadPhase::Status },
                    Request::ControlIn {
                        request: DfuRequest::GetStatus,
                        length: STATUS_SIZE,
                        value: 0,
                    },
                ),
            ),
        }
    }
}

/// The packets of the first `n` rounds, one after the other.
pub open spec fn image_of(packets: Seq<Seq<u8>>, n: nat) -> Seq<u8>
    decreases n,
{
    if n == 0 || n > packets.len() {
        Seq::empty()
    } else {
        image_of(packets, (n - 1) as nat) + packets[n - 1]
    }
}

/// What the reader does at the end of round `n`, a round being a packet and
/// the state report that follows it, where the reader started the first round
/// with nothing read. `None` before the first round and after the reading ended.
pub open spec fn upload_round(packets: Seq<Seq<u8>>, states: Seq<Seq<u8>>, n: nat) -> Option<
    (Seq<u8>, UploadStep),
>
    decreases n,
{
    if n == 0 || n > packets.len() || n > states.len() {
        None
    } else {
        let before = if n == 1 {
            Some((Seq::<u8>::empty(), UploadStep::Ask(upload_request())))
        } else {
            upload_round(packets, states, (n - 1) as nat)
        };
        match before {
            Some((data, UploadStep::Ask(_))) => {
                let read = upload_next(data, UploadPhase::Packet, packets[n - 1]);
                let told = upload_next(read.0, UploadPhase::State, states[n - 1]);
                Some((told.0, told.2))
            },
            _ => None,
        }
    }
}

/// Where the device reports the idle state after round `n` and not before,
/// the reader goes through exactly `n` rounds: it asks for another packet at
/// the end of each earlier round, and ends round `n` with the packets of all
/// `n` rounds, in order.
pub proof fn lemma_upload_rounds(packets: Seq<Seq<u8>>, states: Seq<Seq<u8>>, n: nat)
    requires
        1 <= n <= packets.len(),
        n <= states.len(),
        forall|i: int| 0 <= i < n ==> (#[trigger] states[i]).len() > 0,
        forall|i: int| 0 <= i < n - 1 ==> (#[trigger] states[i])[0] != STATE_IDLE,
        states[n - 1][0] == STATE_IDLE,
    ensures
        forall|k: nat|
            1 <= k < n ==> #[trigger] upload_round(packets, states, k) == Some(
                (image_of(packets, k), UploadStep::Ask(upload_request())),
            ),
        upload_round(packets, states, n) == Some(
            (Seq::<u8>::empty(), UploadStep::Image(image_of(packets, n))),
        ),
{
    assert forall|k: nat| 1 <= k < n implies #[trigger] upload_round(packets, states, k) == Some(
        (image_of(packets, k), UploadStep::Ask(upload_request())),
    ) by {
        lemma_upload_goes_on(packets, states, k);
    }
    if n > 1 {
        lemma_upload_goes_on(packets, states, (n - 1) as nat);
    } else {
        assert(image_of(packets, 0) == Seq::<u8>::empty());
        assert(Seq::<u8>::empty() + packets[0] =~= packets[0]);
    }
    assert(image_of(packets, n) == image_of(packets, (n - 1) as nat) + packets[n - 1]);
}

/// While the device reports another state than idle, the reader asks for the
/// next packet and holds the packets read so far.
pub proof fn lemma_upload_goes_on(packets: Seq<Seq<u8>>, states: Seq<Seq<u8>>, k: nat)
    requires
        1 <= k <= packets.len(),
        k <= states.len(),
        forall|i: int| 0 <= i < k ==> (#[trigger] states[i]).len() > 0 && states[i][0] != STATE_IDLE,
    ensures
        upload_round(packets, states, k) == Some(
            (image_of(packets, k), UploadStep::Ask(upload_request())),
        ),
    decreases k,
{
    if k > 1 {
        lemma_upload_goes_on(packets, states, (k - 1) as nat);
    } else {
        assert(image_of(packets, 0) == Seq::<u8>::empty());
        assert(Seq::<u8>::empty() + packets[0] =~= packets[0]);
    }
    assert(image_of(packets, k) == image_of(packets, (k - 1) as nat) + packets[k - 1]);
}

} // verus!
