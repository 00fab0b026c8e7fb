use holter_host::device::{Desc, Device, Error};
use holter_host::dfu::DownloadPhase;
use holter_host::transport::{DfuRequest, Fault, Reply, Request, Step};

fn device(pid: u16) -> Device {
    Device::request_device(Desc {
        productName: String::from("Holter"),
        serialNumber: String::from("1"),
        manufacturerName: String::from("Maker"),
        pid,
        vid: 1,
    })
}

fn status() -> Request {
    Request::ControlIn { request: DfuRequest::GetStatus, length: 6, value: 0 }
}

fn state() -> Request {
    Request::ControlIn { request: DfuRequest::GetState, length: 1, value: 0 }
}

fn upload() -> Request {
    Request::ControlIn { request: DfuRequest::Upload, length: 64, value: 0 }
}

fn dnload(data: Vec<u8>, value: u32) -> Request {
    Request::ControlOut { request: DfuRequest::Dnload, data, value }
}

/// Writes `image` to a device that answers every request with `answer`, and
/// returns the requests made.
fn write(image: Vec<u8>, strict: bool, answer: &[u8]) -> (Vec<Request>, Result<(), Error>) {
    let mut dev = device(0xDEDA);
    let (mut download, mut request) = dev.send_recv_dfu(image, strict).unwrap();
    let mut requests = Vec::new();
    loop {
        requests.push(request);
        match download.step(&mut dev, Reply::Data(answer.to_vec())) {
            Step::Ask(next) => request = next,
            Step::Done(result) => return (requests, result),
        }
    }
}

#[test]
fn an_image_is_written_in_packets_of_64_bytes() {
    let image: Vec<u8> = (0..130u8).collect();
    let (requests, result) = write(image.clone(), false, &[0; 6]);
    assert_eq!(result, Ok(()));
    assert_eq!(
        requests,
        vec![
            state(),
            dnload(image[0..64].to_vec(), 0),
            status(),
            dnload(image[64..128].to_vec(), 1),
            status(),
            dnload(image[128..130].to_vec(), 2),
            status(),
            dnload(vec![], 3),
            status(),
        ]
    );
}

#[test]
fn a_whole_number_of_packets_has_no_short_packet() {
    let image = vec![7u8; 128];
    let (requests, result) = write(image.clone(), false, &[]);
    assert_eq!(result, Ok(()));
    assert_eq!(
        requests,
        vec![
            state(),
            dnload(vec![7; 64], 0),
            status(),
            dnload(vec![7; 64], 1),
            status(),
            dnload(vec![], 2),
            status(),
        ]
    );
}

#[test]
fn an_empty_image_is_ended_at_once() {
    let (requests, result) = write(vec![], false, &[0; 6]);
    assert_eq!(result, Ok(()));
    assert_eq!(requests, vec![state(), dnload(vec![], 0), status()]);
}

#[test]
fn a_lenient_writer_ignores_the_status() {
    let (requests, result) = write(vec![1; 10], false, &[9, 0, 0, 0, 10, 0]);
    assert_eq!(result, Ok(()));
    assert_eq!(requests.len(), 5);
}

#[test]
fn a_strict_writer_stops_at_an_error_status() {
    let (requests, result) = write(vec![1; 100], true, &[9, 0, 0, 0, 10, 0]);
    assert_eq!(result, Err(Error::Protocol));
    assert_eq!(requests, vec![state(), dnload(vec![1; 64], 0), status()]);
    let (requests, result) = write(vec![1; 100], true, &[0, 0, 0]);
    assert_eq!(result, Err(Error::Protocol));
    assert_eq!(requests.len(), 3);
    let (requests, result) = write(vec![1; 100], true, &[0, 0, 0, 0, 5, 0]);
    assert_eq!(result, Ok(()));
    assert_eq!(requests.len(), 7);
}

#[test]
fn a_failure_while_writing_ends_the_session() {
    let mut dev = device(0xDEDA);
    let (mut download, _) = dev.send_recv_dfu(vec![1; 100], false).unwrap();
    assert_eq!(download.step(&mut dev, Reply::Data(vec![2])), Step::Ask(dnload(vec![1; 64], 0)));
    assert_eq!(
        download.step(&mut dev, Reply::Failed(Fault::Raw)),
        Step::Done(Err(Error::RawJs))
    );
    assert!(!dev.is_connected());
    assert_eq!(dev.send_recv_dfu(vec![1], false).err(), Some(Error::NotConnected));
    assert_eq!(dev.dfu_upload().err(), Some(Error::NotConnected));
}

#[test]
fn a_stall_while_writing_ends_the_writing_only() {
    let mut dev = device(0xDEDA);
    let (mut download, _) = dev.send_recv_dfu(vec![1; 100], false).unwrap();
    assert_eq!(download.step(&mut dev, Reply::Data(vec![2])), Step::Ask(dnload(vec![1; 64], 0)));
    assert_eq!(download.step(&mut dev, Reply::Stall), Step::Done(Err(Error::EpStall)));
    assert!(dev.is_connected());
    assert!(dev.send_recv_dfu(vec![1; 100], false).is_ok());
}

#[test]
fn firmware_is_for_the_bootloader_only() {
    let holter = device(0xBABA);
    assert_eq!(holter.send_recv_dfu(vec![1], false).err(), Some(Error::DevTypeApi));
    assert_eq!(holter.dfu_upload().err(), Some(Error::DevTypeApi));
    assert!(holter.is_connected());
    let (download, first) = device(0xDEDA).send_recv_dfu(vec![1, 2], true).unwrap();
    assert_eq!(first, state());
    assert_eq!(download.phase, DownloadPhase::State);
    assert_eq!((download.sent, download.index, download.strict), (0, 0, true));
}

/// Reads the image from a device that answers status and state requests from
/// `states` and upload requests from `packets`, in turn.
fn read(states: &[&[u8]], packets: &[&[u8]]) -> (Vec<Request>, Result<Vec<u8>, Error>) {
    let mut dev = device(0xDEDA);
    let (mut reading, mut request) = dev.dfu_upload().unwrap();
    let mut states = states.iter();
    let mut packets = packets.iter();
    let mut requests = Vec::new();
    loop {
        let answer = match request {
            Request::ControlIn { request: DfuRequest::Upload, .. } => packets.next(),
            _ => states.next(),
        };
        requests.push(request);
        let answer = answer.expect("the reader asks for too much").to_vec();
        match reading.step(&mut dev, Reply::Data(answer)) {
            Step::Ask(next) => request = next,
            Step::Done(result) => return (requests, result),
        }
    }
}

#[test]
fn the_image_is_read_until_the_device_is_idle() {
    let (requests, result) = read(&[&[0], &[0], &[2]], &[&[1, 2, 3], &[4, 5], &[6]]);
    assert_eq!(result, Ok(vec![1, 2, 3, 4, 5]));
    assert_eq!(requests, vec![status(), upload(), state(), upload(), state()]);
}

#[test]
fn one_round_is_always_made() {
    let (requests, result) = read(&[&[2, 0, 0, 0, 2, 0], &[2]], &[&[9; 64]]);
    assert_eq!(result, Ok(vec![9; 64]));
    assert_eq!(requests, vec![status(), upload(), state()]);
}

#[test]
fn an_empty_state_report_is_a_protocol_error() {
    let (requests, result) = read(&[&[0], &[]], &[&[1]]);
    assert_eq!(result, Err(Error::Protocol));
    assert_eq!(requests.len(), 3);
}

#[test]
fn a_failure_while_reading_ends_the_session() {
    let mut dev = device(0xDEDA);
    let (mut reading, _) = dev.dfu_upload().unwrap();
    assert_eq!(reading.step(&mut dev, Reply::Data(vec![0; 6])), Step::Ask(upload()));
    assert_eq!(reading.step(&mut dev, Reply::Data(vec![1, 2])), Step::Ask(state()));
    assert_eq!(
        reading.step(&mut dev, Reply::Failed(Fault::Raw)),
        Step::Done(Err(Error::RawJs))
    );
    assert!(!dev.is_connected());
    assert_eq!(reading.data, vec![1, 2]);
}

#[test]
fn a_long_image_is_numbered_through() {
    let image = vec![3u8; 64 * 300 + 1];
    let (requests, result) = write(image, false, &[0; 6]);
    assert_eq!(result, Ok(()));
    assert_eq!(requests.len(), 2 * 301 + 3);
    assert_eq!(requests[599], dnload(vec![3; 64], 299));
    assert_eq!(requests[601], dnload(vec![3; 1], 300));
    assert_eq!(requests[603], dnload(vec![], 301));
    assert_eq!(requests[604], status());
}
