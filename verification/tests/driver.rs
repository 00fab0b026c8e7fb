use holter_host::device::{Desc, Device, Error};
use holter_host::flow::{update, view, Cmd, Controls, Model, Msg, RETRY_DELAY_MS};
use holter_host::transport::{Fault, Reply};
use holter_host::message::{AnswerCode, DevMsg, RequestCode};
use holter_host::tree;
use holter_host::tree::Effect;
use holter_host::value::TypedValue;
use holter_host::vis::VisSelectedGroup;

fn desc(serial: &str) -> Desc {
    Desc {
        productName: String::from("Holter"),
        serialNumber: String::from(serial),
        manufacturerName: String::from("Maker"),
        pid: 0xBABA,
        vid: 1,
    }
}

#[test]
fn a_failed_connection_is_tried_again_after_a_delay() {
    let mut model = Model::default();
    assert!(matches!(update(Msg::Connect, &mut model), Cmd::Connect));
    assert!(matches!(
        update(Msg::ConnectFailed(Error::RawJs), &mut model),
        Cmd::Retry(RETRY_DELAY_MS)
    ));
    assert!(matches!(
        update(Msg::ConnectFailed(Error::DomExp(String::from("NetworkError"))), &mut model),
        Cmd::Retry(100)
    ));
    assert!(matches!(update(Msg::AutoConnect, &mut model), Cmd::Retry(100)));
}

#[test]
fn a_connection_given_up_is_not_tried_again() {
    let mut model = Model::default();
    assert!(matches!(update(Msg::ConnectFailed(Error::NotSelected), &mut model), Cmd::Idle));
    assert!(matches!(update(Msg::ConnectFailed(Error::Security), &mut model), Cmd::Idle));
}

#[test]
fn the_schema_is_loaded_for_a_new_device_only() {
    let mut model = Model::default();
    match update(Msg::DevConnected(Device::request_device(desc("1"))), &mut model) {
        Cmd::LoadScheme(d) => assert_eq!(d, desc("1")),
        other => panic!("unexpected {:?}", other),
    }
    assert!(model.device.is_connected());
    assert!(matches!(
        update(Msg::DevConnected(Device::request_device(desc("1"))), &mut model),
        Cmd::Idle
    ));
    match update(Msg::DevConnected(Device::request_device(desc("2"))), &mut model) {
        Cmd::LoadScheme(d) => assert_eq!(d, desc("2")),
        other => panic!("unexpected {:?}", other),
    }
    assert_eq!(model.device.desc, desc("2"));
}

#[test]
fn a_loaded_schema_fills_the_registry() {
    let mut model = Model::default();
    let cmd = update(Msg::CfgLoaded(String::from(r#"{"a": "u8", "b": {"c": "()"}}"#)), &mut model);
    assert!(matches!(cmd, Cmd::Idle));
    assert_eq!(model.treee.leafs.len(), 2);
    let cmd = update(Msg::CfgLoaded(String::from("nonsense")), &mut model);
    assert!(matches!(
        cmd,
        Cmd::Show(Effect::SchemeFailed(tree::parse::SchemeError::Syntax))
    ));
    assert_eq!(model.treee.leafs.len(), 2);
}

#[test]
fn requests_of_the_registry_go_to_the_command_channel() {
    let mut model = Model::default();
    update(Msg::CfgLoaded(String::from(r#"{"a": "u8"}"#)), &mut model);
    let submit = tree::Msg::SumbmitRequest(String::from("/a"), RequestCode::READ);
    match update(Msg::Tree(submit), &mut model) {
        Cmd::Exchange(msg) => {
            assert_eq!(msg, DevMsg(AnswerCode::OK_READ, String::from("/a"), TypedValue::UNIT))
        }
        other => panic!("unexpected {:?}", other),
    }
    let pending = DevMsg(AnswerCode::OK_WRITE, String::from("/a"), TypedValue::U8(1));
    match update(Msg::Tree(tree::Msg::GRequestUpdate(pending)), &mut model) {
        Cmd::Exchange(msg) => assert_eq!(msg.2, TypedValue::U8(1)),
        other => panic!("unexpected {:?}", other),
    }
    let unknown = tree::Msg::SumbmitRequest(String::from("/b"), RequestCode::READ);
    assert!(matches!(update(Msg::Tree(unknown), &mut model), Cmd::Show(Effect::Unknown)));
}

#[test]
fn an_answer_reaches_its_leaf() {
    let mut model = Model::default();
    update(Msg::CfgLoaded(String::from(r#"{"a": "u8"}"#)), &mut model);
    let answer = DevMsg(AnswerCode::OK_READ, String::from("/a"), TypedValue::U8(5));
    assert!(matches!(update(Msg::Answered(Ok(answer)), &mut model), Cmd::Idle));
    assert_eq!(model.treee.leafs.get("/a").unwrap().view.val, Some(TypedValue::U8(5)));
}

#[test]
fn a_failed_exchange_leads_to_a_new_connection() {
    let mut model = Model::default();
    assert!(matches!(update(Msg::Answered(Err(Error::RawJs)), &mut model), Cmd::Connect));
    assert!(matches!(update(Msg::Answered(Err(Error::NotConnected)), &mut model), Cmd::Connect));
}

#[test]
fn the_stream_is_started_and_stopped_by_the_same_command() {
    let mut model = Model::default();
    match update(Msg::VisStart, &mut model) {
        Cmd::StartVis(msg) => assert_eq!(
            msg,
            DevMsg(AnswerCode::OK_WRITE, String::from("/ctrl/vis"), TypedValue::BOOL(true))
        ),
        other => panic!("unexpected {:?}", other),
    }
    assert!(!model.vis);
    assert!(matches!(update(Msg::VisUpdate, &mut model), Cmd::RunVis));
    assert!(model.vis);
    assert!(matches!(update(Msg::VisStart, &mut model), Cmd::Idle));
    assert!(!model.vis);
}

#[test]
fn the_selected_group_is_kept() {
    let mut model = Model::default();
    assert_eq!(model.vis_group, VisSelectedGroup::ECG);
    assert!(matches!(
        update(Msg::VisSelectedGroup(VisSelectedGroup::REO), &mut model),
        Cmd::Idle
    ));
    assert_eq!(model.vis_group, VisSelectedGroup::REO);
}

#[test]
fn files_have_fixed_names() {
    let mut model = Model::default();
    match update(Msg::DownloadFile, &mut model) {
        Cmd::Download(name) => assert_eq!(name, "data.bin"),
        other => panic!("unexpected {:?}", other),
    }
    match update(Msg::DfuDownloadFirmware, &mut model) {
        Cmd::ReadFirmware(name) => assert_eq!(name, "holter-firmware.bin"),
        other => panic!("unexpected {:?}", other),
    }
    assert!(matches!(update(Msg::DfuUploadFirmware, &mut model), Cmd::ReadFile));
    match update(Msg::UploadFileCompleted(vec![1, 2, 3]), &mut model) {
        Cmd::WriteFirmware(image) => assert_eq!(image, vec![1, 2, 3]),
        other => panic!("unexpected {:?}", other),
    }
}

#[test]
fn the_commands_offered_follow_the_session() {
    let mut model = Model::default();
    assert_eq!(
        view(&model),
        (Controls { connect: true, tree: true, download: true, firmware: false, vis: false }, None)
    );
    update(Msg::DevConnected(Device::request_device(desc("1"))), &mut model);
    assert_eq!(
        view(&model),
        (
            Controls { connect: false, tree: true, download: true, firmware: false, vis: true },
            Some(&desc("1"))
        )
    );
    let _ = model.device.settle(Reply::Failed(Fault::Raw));
    assert_eq!(view(&model).0.connect, true);
    assert_eq!(view(&model).0.vis, false);
    assert_eq!(view(&model).1, None);
    let mut loader = desc("1");
    loader.pid = 0xDEDA;
    update(Msg::DevConnected(Device::request_device(loader)), &mut model);
    assert_eq!(
        view(&model).0,
        Controls { connect: false, tree: false, download: false, firmware: true, vis: false }
    );
}
