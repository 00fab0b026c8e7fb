//! Protocol messages: an operation code, an addressable path and a typed value.
use vstd::prelude::*;
use crate::value::{TypedValue, ValueView};

verus! {

/// The operation that a request asks for.
#[derive(Clone, Copy, Debug, PartialEq, Eq, Structural)]
pub enum RequestCode {
    READ,
    WRITE,
}

/// The code of a message as it is held in memory: that of a reply, or the
/// reply code that stands for a request still to be sent.
#[derive(Clone, Copy, Debug, PartialEq, Eq, Structural)]
pub enum AnswerCode {
    OK_READ,
    OK_WRITE,
    /// The device refused with an error code of its own, carried as a `U32`.
    ERR_CUSTOM,
    /// Any other refusal.
    ERR_OTHER,
}

impl RequestCode {
    /// The reply code that stands for this request.
    pub fn answer(self) -> (code: AnswerCode)
        ensures
            code == self.spec_answer(),
    {
        match self {
            RequestCode::READ => AnswerCode::OK_READ,
            RequestCode::WRITE => AnswerCode::OK_WRITE,
        }
    }

    pub open spec fn spec_answer(self) -> AnswerCode {
        match self {
            RequestCode::READ => AnswerCode::OK_READ,
            RequestCode::WRITE => AnswerCode::OK_WRITE,
        }
    }
}

impl AnswerCode {
    /// The request that this code stands for, if it is not a refusal.
    pub fn request(self) -> (code: Option<RequestCode>)
        ensures
            code == self.spec_request(),
    {
        match self {
            AnswerCode::OK_READ => Some(RequestCode::READ),
            AnswerCode::OK_WRITE => Some(RequestCode::WRITE),
            _ => None,
        }
    }

    pub open spec fn spec_request(self) -> Option<RequestCode> {
        match self {
            AnswerCode::OK_READ => Some(RequestCode::READ),
            AnswerCode::OK_WRITE => Some(RequestCode::WRITE),
            _ => None,
        }
    }
}

/// One protocol message: code, path, value.
#[derive(Debug, PartialEq, Eq)]
pub struct DevMsg(pub AnswerCode, pub String, pub TypedValue);

impl View for DevMsg {
    type V = (AnswerCode, Seq<char>, ValueView);

    open spec fn view(&self) -> (AnswerCode, Seq<char>, ValueView) {
        (self.0, self.1@, self.2@)
    }
}

impl Clone for DevMsg {
    fn clone(&self) -> (r: Self)
        ensures
            r@ == self@,
    {
        DevMsg(self.0, self.1.clone(), self.2.clone())
    }
}

} // verus!
