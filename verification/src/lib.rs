//! Host-side protocol core for a Holter recorder.
//!
//! The crate holds the decisions of the device link and none of its I/O: the
//! caller performs each transport request and hands the reply back.
//!
//! - [`device`]: the session, its gate in front of every operation, and how a
//!   failure of the transport ends it.
//! - [`channel`]: one request and its reply, put together from chunks.
//! - [`download`]: the recorded file, fetched as a plan of transfers.
//! - [`vis`]: which telemetry samples reach the display.
//! - [`dfu`]: writing and reading firmware.
//! - [`tree`]: the command registry, built from a schema, and the coercion of
//!   entered text to typed values.
//! - [`flow`]: what each user command and each finished piece of work leads to.
//!
//! Two parsers are relied on and not verified: [`literal`] states what `syn`
//! returns, [`tree::json`] what `serde_json` returns.
#![allow(non_camel_case_types)]

pub mod channel;
pub mod device;
pub mod dfu;
pub mod download;
pub mod flow;
pub mod literal;
pub mod message;
pub mod number;
pub mod text;
pub mod transport;
pub mod tree;
pub mod value;
pub mod vis;

