//! The top of the driver: what each user command and each finished piece of
//! work leads to.
use vstd::prelude::*;
use vstd::string::StringExecFns;
use crate::device::{Desc, Device, Error, Link, Type};
use crate::message::{AnswerCode, DevMsg};
use crate::tree;
use crate::tree::Effect;
use crate::value::{TypedValue, ValueView};
use crate::vis::VisSelectedGroup;

verus! {

/// How long to wait before the connection is tried again, in milliseconds.
pub const RETRY_DELAY_MS: u32 = 100;

/// All that the driver knows.
pub struct Model {
    /// The command registry.
    pub treee: tree::Model,
    /// The session with the device.
    pub device: Device,
    /// Whether the live stream is wanted.
    pub vis: bool,
    /// The group that the display shows.
    pub vis_group: VisSelectedGroup,
    /// A firmware image read from a file.
    pub upload_data: Option<Vec<u8>>,
}

impl Default for Model {
    fn default() -> (model: Self)
        ensures
            model.device.link == Link::Disconnected,
            !model.vis,
            model.vis_group == VisSelectedGroup::ECG,
            model.upload_data is None,
            model.treee.trees@.len() == 0,
    {
        Model {
            treee: tree::Model::default(),
            device: Device::default(),
            vis: false,
            vis_group: VisSelectedGroup::default(),
            upload_data: None,
        }
    }
}

/// What happened, as the driver is told of it.
#[derive(Debug)]
pub enum Msg {
    /// Something for the command registry.
    Tree(tree::Msg),
    /// The user asks to connect.
    Connect,
    /// The connection is to be tried again.
    AutoConnect,
    /// A device was connected.
    DevConnected(Device),
    /// No device was connected.
    ConnectFailed(Error),
    /// The schema of the device arrived.
    CfgLoaded(String),
    /// An exchange on the command channel ended.
    Answered(Result<DevMsg, Error>),
    /// The user asks for the recorded file.
    DownloadFile,
    /// The user starts or stops the live stream.
    VisStart,
    /// The device was told to stream.
    VisUpdate,
    /// The user selected a group for the display.
    VisSelectedGroup(VisSelectedGroup),
    /// The user selected a file with a firmware image.
    DfuUploadFirmware,
    /// The user asks for the firmware image of the device.
    DfuDownloadFirmware,
    /// The file with the firmware image was read.
    UploadFileCompleted(Vec<u8>),
}

/// What the caller is to do after an update.
#[derive(Debug)]
pub enum Cmd {
    /// Nothing.
    Idle,
    /// Ask the user for a device, connect and reset it.
    Connect,
    /// Wait this many milliseconds, then connect.
    Retry(u32),
    /// Fetch the schema of the device with this identity.
    LoadScheme(Desc),
    /// Send this request through the command channel.
    Exchange(DevMsg),
    /// Tell the user of this.
    Show(Effect),
    /// Download the recorded file into a file of this name.
    Download(String),
    /// Tell the device to stream, with this request.
    StartVis(DevMsg),
    /// Receive and show frames until the stream is stopped.
    RunVis,
    /// Read the file that the user selected.
    ReadFile,
    /// Write this firmware image to the device.
    WriteFirmware(Vec<u8>),
    /// Read the firmware image of the device into a file of this name.
    ReadFirmware(String),
}

/// What an effect of the registry asks of the caller: a request goes to the
/// command channel, nothing comes of nothing, anything else is shown.
pub open spec fn passes_on(effect: Effect, cmd: Cmd) -> bool {
    match effect {
        Effect::Idle => cmd is Idle,
        Effect::Request(msg) => cmd matches Cmd::Exchange(m) && m == msg,
        _ => cmd matches Cmd::Show(e) && e == effect,
    }
}

/// Whether the registry took `msg` and the caller is asked what comes of it.
pub open spec fn registry_took(msg: tree::Msg, pre: Model, post: Model, cmd: Cmd) -> bool {
    &&& post.device == pre.device
    &&& post.vis == pre.vis
    &&& post.vis_group == pre.vis_group
    &&& post.upload_data == pre.upload_data
    &&& exists|effect: Effect|
        tree::updated(msg, pre.treee, post.treee, effect) && #[trigger] passes_on(effect, cmd)
}

/// Whether nothing but the fields named below changed.
pub open spec fn kept(pre: Model, post: Model) -> bool {
    &&& post.treee == pre.treee
    &&& post.device == pre.device
    &&& post.vis == pre.vis
    &&& post.vis_group == pre.vis_group
    &&& post.upload_data == pre.upload_data
}

/// How `update` changes what the driver knows and what it asks of the caller.
pub open spec fn updated(msg: Msg, pre: Model, post: Model, cmd: Cmd) -> bool {
    match msg {
        Msg::Tree(tree::Msg::GRequestUpdate(request)) => {
            &&& kept(pre, post)
            &&& cmd matches Cmd::Exchange(m) && m == request
        },
        Msg::Tree(inner) => registry_took(inner, pre, post, cmd),
        Msg::Connect => kept(pre, post) && cmd is Connect,
        Msg::AutoConnect => kept(pre, post) && cmd == Cmd::Retry(RETRY_DELAY_MS),
        Msg::ConnectFailed(e) => {
            &&& kept(pre, post)
            &&& if e is NotSelected || e is Security {
                cmd is Idle
            } else {
                cmd == Cmd::Retry(RETRY_DELAY_MS)
            }
        },
        Msg::DevConnected(dev) => {
            &&& post.device == dev
            &&& post.treee == pre.treee
            &&& post.vis == pre.vis
            &&& post.vis_group == pre.vis_group
            &&& post.upload_data == pre.upload_data
            &&& if pre.device.desc@ == dev.desc@ || dev.link != Link::Live {
                cmd is Idle
            } else {
                cmd matches Cmd::LoadScheme(desc) && desc@ == dev.desc@
            }
        },
        Msg::CfgLoaded(scheme) => registry_took(tree::Msg::SetScheme(scheme), pre, post, cmd),
        Msg::Answered(Ok(answer)) => registry_took(
            tree::Msg::GAnswerUpdate(Ok(answer)),
            pre,
            post,
            cmd,
        ),
        Msg::Answered(Err(_)) => kept(pre, post) && cmd is Connect,
        Msg::DownloadFile => {
            &&& kept(pre, post)
            &&& cmd matches Cmd::Download(name) && name@ == "data.bin"@
        },
        Msg::VisStart => if pre.vis {
            post == (Model { vis: false, ..pre }) && cmd is Idle
        } else {
            &&& kept(pre, post)
            &&& cmd matches Cmd::StartVis(m) && m@ == (
                AnswerCode::OK_WRITE,
                "/ctrl/vis"@,
                ValueView::BOOL(true),
            )
        },
        Msg::VisUpdate => post == (Model { vis: true, ..pre }) && cmd is RunVis,
        Msg::VisSelectedGroup(group) => post == (Model { vis_group: group, ..pre }) && cmd is Idle,
        Msg::DfuUploadFirmware => kept(pre, post) && cmd is ReadFile,
        Msg::UploadFileCompleted(data) => {
            &&& kept(pre, post)
            &&& cmd matches Cmd::WriteFirmware(image) && image == data
        },
        Msg::DfuDownloadFirmware => {
            &&& kept(pre, post)
            &&& cmd matches Cmd::ReadFirmware(name) && name@ == "holter-firmware.bin"@
        },
    }
}

/// What an effect of the registry asks of the caller.
fn pass_on(effect: Effect) -> (cmd: Cmd)
    ensures
        passes_on(effect, cmd),
{
    match effect {
        Effect::Idle => Cmd::Idle,
        Effect::Request(msg) => Cmd::Exchange(msg),
        other => Cmd::Show(other),
    }
}

/// Takes one message and says what the caller is to do.
///
/// A failed exchange on the command channel leads to a new connection. A
/// connection that the user gave up or that the platform denied is not tried
/// again; any other failure to connect is, after a fixed delay. The schema is
/// fetched for a device with another identity than the last.
pub fn update(msg: Msg, model: &mut Model) -> (cmd: Cmd)
    ensures
        updated(msg, *old(model), *final(model), cmd),
{
    match msg {
        Msg::Tree(tree::Msg::GRequestUpdate(request)) => Cmd::Exchange(request),
        Msg::Tree(inner) => {
            let effect = tree::update(inner, &mut model.treee);
            pass_on(effect)
        },
        Msg::Connect => Cmd::Connect,
        Msg::AutoConnect => Cmd::Retry(RETRY_DELAY_MS),
        Msg::ConnectFailed(e) => match e {
            Error::NotSelected => Cmd::Idle,
            Error::Security => Cmd::Idle,
            _ => Cmd::Retry(RETRY_DELAY_MS),
        },
        Msg::DevConnected(dev) => {
            let cmd = if model.device.is_reconnecting(&dev) {
                Cmd::Idle
            } else {
                match dev.descriptor() {
                    Some(desc) => Cmd::LoadScheme(desc.clone()),
                    None => Cmd::Idle,
                }
            };
            model.device = dev;
            cmd
        },
        Msg::CfgLoaded(scheme) => {
            let effect = tree::update(tree::Msg::SetScheme(scheme), &mut model.treee);
            pass_on(effect)
        },
        Msg::Answered(Ok(answer)) => {
            let effect = tree::update(tree::Msg::GAnswerUpdate(Ok(answer)), &mut model.treee);
            pass_on(effect)
        },
        Msg::Answered(Err(_)) => Cmd::Connect,
        Msg::DownloadFile => Cmd::Download(String::from_str("data.bin")),
        Msg::VisStart => if model.vis {
            model.vis = false;
            Cmd::Idle
        } else {
            Cmd::StartVis(
                DevMsg(AnswerCode::OK_WRITE, String::from_str("/ctrl/vis"), TypedValue::BOOL(true)),
            )
        },
        Msg::VisUpdate => {
            model.vis = true;
            Cmd::RunVis
        },
        Msg::VisSelectedGroup(group) => {
            model.vis_group = group;
            Cmd::Idle
        },
        Msg::DfuUploadFirmware => Cmd::ReadFile,
        Msg::UploadFileCompleted(data) => Cmd::WriteFirmware(data),
        Msg::DfuDownloadFirmware => Cmd::ReadFirmware(String::from_str("holter-firmware.bin")),
    }
}

/// Which commands the user is offered.
#[derive(Clone, Copy, Debug, PartialEq, Eq, Structural)]
pub struct Controls {
    /// Connecting.
    pub connect: bool,
    /// The command tree.
    pub tree: bool,
    /// Downloading the recorded file.
    pub download: bool,
    /// Writing and reading firmware.
    pub firmware: bool,
    /// The live stream and the choice of its group.
    pub vis: bool,
}

/// The commands offered for a session: connecting while there is no live
/// link; firmware for a bootloader; the tree and the file for an application,
/// and the live stream for one that is connected.
pub open spec fn offered(device: Device) -> Controls {
    let live = device.link == Link::Live;
    let dfu = device.ty == Type::Loader;
    Controls { connect: !live, tree: !dfu, download: !dfu, firmware: dfu, vis: live && !dfu }
}

/// Which commands the user is offered, and the identity of the device that is
/// shown, if one is connected.
pub fn view(model: &Model) -> (shown: (Controls, Option<&Desc>))
    ensures
        shown.0 == offered(model.device),
        shown.1 == if model.device.link == Link::Live {
            Some(&model.device.desc)
        } else {
            None
        },
{
    let live = model.device.is_connected();
    let dfu = model.device.is_dfu_mode();
    (
        Controls { connect: !live, tree: !dfu, download: !dfu, firmware: dfu, vis: live && !dfu },
        model.device.descriptor(),
    )
}

} // verus!
