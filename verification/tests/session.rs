use holter_host::device::{Desc, Device, Error, Link, Operation, Type};
use holter_host::transport::{Fault, Reply, Request};

fn desc(pid: u16, serial: &str) -> Desc {
    Desc {
        productName: String::from("Holter"),
        serialNumber: String::from(serial),
        manufacturerName: String::from("Maker"),
        pid,
        vid: 0x1234,
    }
}

const OPERATIONS: [Operation; 5] = [
    Operation::Command,
    Operation::DfuDownload,
    Operation::DfuUpload,
    Operation::FileBlock,
    Operation::Vis,
];

#[test]
fn the_kind_comes_from_the_product_id() {
    assert_eq!(Type::of_pid(0xBABA), Some(Type::Holter));
    assert_eq!(Type::of_pid(0xDEDA), Some(Type::Loader));
    assert_eq!(Type::of_pid(0), None);
    let holter = Device::request_device(desc(0xBABA, "1"));
    assert_eq!(holter.ty, Type::Holter);
    assert!(holter.is_connected());
    assert!(!holter.is_dfu_mode());
    assert_eq!(holter._dev_type(), Some(Type::Holter));
    assert_eq!(holter.descriptor(), Some(&desc(0xBABA, "1")));
    let loader = Device::request_device(desc(0xDEDA, "1"));
    assert!(loader.is_dfu_mode());
    assert_eq!(Type::default(), Type::Holter);
}

#[test]
fn a_session_without_device_is_not_connected() {
    let dev = Device::default();
    assert!(!dev.is_connected());
    assert_eq!(dev.descriptor(), None);
    assert_eq!(dev._dev_type(), None);
    assert_eq!(dev.gate(Operation::Command), Err(Error::NotConnected));
    assert_eq!(dev.gate(Operation::DfuUpload), Err(Error::DevTypeApi));
}

#[test]
fn reconnecting_is_having_the_same_identity() {
    let first = Device::request_device(desc(0xBABA, "1"));
    let again = Device::request_device(desc(0xBABA, "1"));
    let other = Device::request_device(desc(0xBABA, "2"));
    let loader = Device::request_device(desc(0xDEDA, "1"));
    assert!(first.is_reconnecting(&again));
    assert!(!first.is_reconnecting(&other));
    assert!(!first.is_reconnecting(&loader));
    let mut lost = Device::request_device(desc(0xBABA, "1"));
    let _ = lost.settle(Reply::Failed(Fault::Raw));
    assert!(first.is_reconnecting(&lost));
}

#[test]
fn operations_are_for_one_kind_of_device() {
    let holter = Device::request_device(desc(0xBABA, "1"));
    let loader = Device::request_device(desc(0xDEDA, "1"));
    assert_eq!(holter.gate(Operation::Command), Ok(()));
    assert_eq!(holter.gate(Operation::FileBlock), Ok(()));
    assert_eq!(holter.gate(Operation::Vis), Ok(()));
    assert_eq!(holter.gate(Operation::DfuDownload), Err(Error::DevTypeApi));
    assert_eq!(holter.gate(Operation::DfuUpload), Err(Error::DevTypeApi));
    assert_eq!(loader.gate(Operation::DfuDownload), Ok(()));
    assert_eq!(loader.gate(Operation::DfuUpload), Ok(()));
    assert_eq!(loader.gate(Operation::Command), Err(Error::DevTypeApi));
    assert_eq!(loader.gate(Operation::FileBlock), Err(Error::DevTypeApi));
    assert_eq!(loader.gate(Operation::Vis), Err(Error::DevTypeApi));
}

#[test]
fn data_leaves_the_session_live() {
    let mut dev = Device::request_device(desc(0xBABA, "1"));
    assert_eq!(dev.settle(Reply::Data(vec![1, 2, 3])), Ok(vec![1, 2, 3]));
    assert_eq!(dev.link, Link::Live);
    assert_eq!(dev.settle(Reply::Data(vec![])), Ok(vec![]));
    assert!(dev.is_connected());
}

#[test]
fn a_failure_ends_the_session_for_good() {
    let failures = [
        (Reply::Failed(Fault::Raw), Error::RawJs),
        (Reply::Failed(Fault::Dom(String::from("SecurityError"))), Error::Security),
        (
            Reply::Failed(Fault::Dom(String::from("NetworkError"))),
            Error::DomExp(String::from("NetworkError")),
        ),
    ];
    for (failure, error) in failures {
        for pid in [0xBABA, 0xDEDA] {
            let mut dev = Device::request_device(desc(pid, "1"));
            assert_eq!(dev.settle(failure_copy(&failure)), Err(error_copy(&error)));
            assert!(!dev.is_connected());
            assert_eq!(dev.descriptor(), None);
            assert_eq!(dev.settle(Reply::Data(vec![1])), Ok(vec![1]));
            assert!(!dev.is_connected());
            for op in OPERATIONS {
                let wanted = if (op == Operation::DfuDownload || op == Operation::DfuUpload)
                    == dev.is_dfu_mode()
                {
                    Error::NotConnected
                } else {
                    Error::DevTypeApi
                };
                assert_eq!(dev.gate(op), Err(wanted));
            }
        }
    }
}

fn failure_copy(reply: &Reply) -> Reply {
    match reply {
        Reply::Data(bytes) => Reply::Data(bytes.clone()),
        Reply::Stall => Reply::Stall,
        Reply::Failed(Fault::Raw) => Reply::Failed(Fault::Raw),
        Reply::Failed(Fault::Dom(name)) => Reply::Failed(Fault::Dom(name.clone())),
    }
}

fn error_copy(error: &Error) -> Error {
    match error {
        Error::DomExp(name) => Error::DomExp(name.clone()),
        Error::Security => Error::Security,
        Error::RawJs => Error::RawJs,
        _ => unreachable!(),
    }
}

#[test]
fn a_new_connection_is_live_again() {
    let mut dev = Device::request_device(desc(0xBABA, "1"));
    let _ = dev.settle(Reply::Failed(Fault::Raw));
    assert_eq!(dev.gate(Operation::Command), Err(Error::NotConnected));
    let dev = Device::request_device(desc(0xBABA, "1"));
    assert_eq!(dev.gate(Operation::Command), Ok(()));
}

#[test]
fn faults_are_told_apart_by_name() {
    assert_eq!(Error::from(Fault::Dom(String::from("SecurityError"))), Error::Security);
    assert_eq!(Error::from(Fault::Dom(String::from("NotFoundError"))), Error::NotSelected);
    assert_eq!(
        Error::from(Fault::Dom(String::from("AbortError"))),
        Error::DomExp(String::from("AbortError"))
    );
    assert_eq!(Error::from(Fault::Raw), Error::RawJs);
}

#[test]
fn single_transfers_pass_the_gate() {
    let holter = Device::request_device(desc(0xBABA, "1"));
    assert_eq!(holter.recv_file_block(0x800), Ok(Request::ReceiveFile(0x800)));
    assert_eq!(holter.recv_vis(0x800), Ok(Request::ReceiveVis(0x800)));
    let loader = Device::request_device(desc(0xDEDA, "1"));
    assert_eq!(loader.recv_file_block(0x800), Err(Error::DevTypeApi));
    assert_eq!(loader.recv_vis(0x800), Err(Error::DevTypeApi));
    let mut lost = Device::request_device(desc(0xBABA, "1"));
    assert_eq!(lost.settle(Reply::Failed(Fault::Raw)), Err(Error::RawJs));
    assert_eq!(lost.recv_file_block(0x800), Err(Error::NotConnected));
    assert_eq!(lost.recv_vis(0x800), Err(Error::NotConnected));
}

#[test]
fn a_stall_leaves_the_session_live() {
    for pid in [0xBABA, 0xDEDA] {
        let mut dev = Device::request_device(desc(pid, "1"));
        assert_eq!(dev.settle(Reply::Stall), Err(Error::EpStall));
        assert!(dev.is_connected());
        assert_eq!(dev.link, Link::Live);
        assert_eq!(dev.descriptor(), Some(&desc(pid, "1")));
    }
    let mut dev = Device::request_device(desc(0xBABA, "1"));
    let request = dev.recv_file_block(0x100_000).unwrap();
    assert_eq!(request, Request::ReceiveFile(0x100_000));
    assert_eq!(dev.settle(Reply::Stall), Err(Error::EpStall));
    assert_eq!(dev.recv_file_block(0x100_000), Ok(Request::ReceiveFile(0x100_000)));
    assert_eq!(dev.settle(Reply::Data(vec![7; 4])), Ok(vec![7; 4]));
    let mut lost = Device::default();
    assert_eq!(lost.settle(Reply::Stall), Err(Error::EpStall));
    assert!(!lost.is_connected());
}
