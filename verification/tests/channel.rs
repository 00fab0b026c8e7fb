use holter_host::channel::{CmdExchange, CmdStep, Verdict};
use holter_host::device::{Desc, Device, Error};
use holter_host::message::{AnswerCode, DevMsg};
use holter_host::transport::{Fault, Reply, Request};
use holter_host::value::TypedValue;

const MAX_MSG: usize = 16;

fn holter() -> Device {
    Device::request_device(Desc {
        productName: String::from("Holter"),
        serialNumber: String::from("1"),
        manufacturerName: String::from("Maker"),
        pid: 0xBABA,
        vid: 1,
    })
}

fn loader() -> Device {
    Device::request_device(Desc {
        productName: String::from("Holter"),
        serialNumber: String::from("1"),
        manufacturerName: String::from("Maker"),
        pid: 0xDEDA,
        vid: 1,
    })
}

/// A wire format for the tests: a length byte, then that many bytes, the
/// first of which is the value of the reply. A first byte of 0xFF is no message.
fn parse(bytes: &[u8]) -> Verdict {
    match bytes.first() {
        None => Verdict::NeedMoreData,
        Some(0xFF) => Verdict::Fatal,
        Some(&len) => {
            if bytes.len() < 1 + len as usize {
                Verdict::NeedMoreData
            } else {
                Verdict::Complete(DevMsg(
                    AnswerCode::OK_READ,
                    String::from("/x"),
                    TypedValue::U8(bytes[1]),
                ))
            }
        }
    }
}

/// Runs one exchange against a transport that delivers `chunks` in turn.
fn exchange(dev: &mut Device, chunks: Vec<Reply>) -> (Result<DevMsg, Error>, usize) {
    let (mut exchange, first) = dev.send_recv_cmd(vec![1, 2, 3], MAX_MSG).unwrap();
    assert_eq!(first, Request::Send(vec![1, 2, 3]));
    let mut step = exchange.sent(dev, Reply::Data(vec![]));
    let mut chunks = chunks.into_iter();
    let mut received = 0;
    loop {
        step = match step {
            CmdStep::Ask(Request::Receive) => {
                received += 1;
                exchange.chunk(dev, chunks.next().expect("the exchange asks for too much"))
            }
            CmdStep::Ask(other) => panic!("unexpected request {:?}", other),
            CmdStep::Parse => exchange.parsed(parse(&exchange.buf)),
            CmdStep::Done(result) => return (result, received),
        };
    }
}

fn data(chunks: &[&[u8]]) -> Vec<Reply> {
    chunks.iter().map(|c| Reply::Data(c.to_vec())).collect()
}

fn reply(value: u8) -> DevMsg {
    DevMsg(AnswerCode::OK_READ, String::from("/x"), TypedValue::U8(value))
}

#[test]
fn a_reply_in_one_chunk() {
    let mut dev = holter();
    assert_eq!(exchange(&mut dev, data(&[&[3, 7, 8, 9]])), (Ok(reply(7)), 1));
    assert!(dev.is_connected());
}

#[test]
fn the_reply_does_not_depend_on_the_chunk_boundaries() {
    let splits: [&[&[u8]]; 5] = [
        &[&[5, 42, 1, 2, 3, 4]],
        &[&[5], &[42, 1, 2, 3, 4]],
        &[&[5, 42, 1], &[2, 3, 4]],
        &[&[5], &[42], &[1], &[2], &[3], &[4]],
        &[&[], &[5, 42], &[], &[1, 2, 3], &[4]],
    ];
    for chunks in splits {
        let mut dev = holter();
        let (result, received) = exchange(&mut dev, data(chunks));
        assert_eq!(result, Ok(reply(42)));
        assert_eq!(received, chunks.len());
        assert!(dev.is_connected());
    }
}

#[test]
fn a_reply_that_grows_too_long_is_a_protocol_error() {
    let mut dev = holter();
    let (result, received) = exchange(&mut dev, data(&[&[40, 1, 2, 3, 4, 5, 6, 7], &[0; 8], &[0; 8]]));
    assert_eq!(result, Err(Error::Protocol));
    assert_eq!(received, 2);
    assert!(dev.is_connected());
}

#[test]
fn a_complete_reply_of_the_greatest_length_is_taken() {
    let mut dev = holter();
    let mut whole = vec![15u8, 9];
    whole.extend([0u8; 14]);
    assert_eq!(whole.len(), MAX_MSG);
    let (result, _) = exchange(&mut dev, vec![Reply::Data(whole)]);
    assert_eq!(result, Ok(reply(9)));
}

#[test]
fn bytes_that_are_no_message_are_a_protocol_error() {
    let mut dev = holter();
    assert_eq!(exchange(&mut dev, data(&[&[0xFF, 1]])), (Err(Error::Protocol), 1));
    assert!(dev.is_connected());
    assert_eq!(exchange(&mut dev, data(&[&[1, 5]])), (Ok(reply(5)), 1));
}

#[test]
fn a_failed_receive_ends_the_session() {
    let mut dev = holter();
    let chunks = vec![Reply::Data(vec![5, 1]), Reply::Failed(Fault::Raw)];
    assert_eq!(exchange(&mut dev, chunks), (Err(Error::RawJs), 2));
    assert!(!dev.is_connected());
    assert_eq!(dev.send_recv_cmd(vec![1], MAX_MSG).err(), Some(Error::NotConnected));
}

#[test]
fn a_stalled_receive_ends_the_exchange_only() {
    let mut dev = holter();
    let chunks = vec![Reply::Data(vec![5, 1]), Reply::Stall];
    assert_eq!(exchange(&mut dev, chunks), (Err(Error::EpStall), 2));
    assert!(dev.is_connected());
    assert_eq!(exchange(&mut dev, data(&[&[1, 5]])), (Ok(reply(5)), 1));
}

#[test]
fn a_failed_send_ends_the_session() {
    let mut dev = holter();
    let (exchange, _) = dev.send_recv_cmd(vec![1], MAX_MSG).unwrap();
    let failure = Reply::Failed(Fault::Dom(String::from("NetworkError")));
    assert_eq!(
        exchange.sent(&mut dev, failure),
        CmdStep::Done(Err(Error::DomExp(String::from("NetworkError"))))
    );
    assert!(!dev.is_connected());
}

#[test]
fn a_request_is_refused_without_touching_the_transport() {
    assert_eq!(loader().send_recv_cmd(vec![1], MAX_MSG).err(), Some(Error::DevTypeApi));
    assert_eq!(Device::default().send_recv_cmd(vec![1], MAX_MSG).err(), Some(Error::NotConnected));
    assert_eq!(holter().send_recv_cmd(vec![0; MAX_MSG + 1], MAX_MSG).err(), Some(Error::Protocol));
    assert!(holter().send_recv_cmd(vec![0; MAX_MSG], MAX_MSG).is_ok());
}

#[test]
fn the_verdict_decides_the_next_step() {
    let short = CmdExchange { buf: vec![0; MAX_MSG - 1], limit: MAX_MSG };
    let full = CmdExchange { buf: vec![0; MAX_MSG], limit: MAX_MSG };
    assert_eq!(short.parsed(Verdict::NeedMoreData), CmdStep::Ask(Request::Receive));
    assert_eq!(full.parsed(Verdict::NeedMoreData), CmdStep::Done(Err(Error::Protocol)));
    assert_eq!(short.parsed(Verdict::Fatal), CmdStep::Done(Err(Error::Protocol)));
    assert_eq!(full.parsed(Verdict::Complete(reply(1))), CmdStep::Done(Ok(reply(1))));
}
