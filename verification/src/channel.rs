//! The command channel: one request, one reply, the reply put together from
//! the chunks in which the transport delivers it.
use vstd::prelude::*;
use crate::device::{Device, Error, Operation};
use crate::message::DevMsg;
use crate::transport::{Reply, Request};

verus! {

/// What the parser of the wire format makes of the bytes gathered so far.
#[derive(Debug, PartialEq, Eq)]
pub enum Verdict {
    /// The bytes hold this message.
    Complete(DevMsg),
    /// The bytes are the beginning of a message.
    NeedMoreData,
    /// The bytes are no message.
    Fatal,
}

/// What the caller is to do next in an exchange.
#[derive(Debug, PartialEq, Eq)]
pub enum CmdStep {
    /// Perform this request and hand back the reply.
    Ask(Request),
    /// Parse the bytes gathered so far and hand back the verdict.
    Parse,
    /// The exchange has ended.
    Done(Result<DevMsg, Error>),
}

/// An exchange in progress: the bytes of the reply gathered so far.
#[derive(Debug)]
pub struct CmdExchange {
    /// The bytes received so far.
    pub buf: Vec<u8>,
    /// The greatest length of a message.
    pub limit: usize,
}

/// What follows a verdict on `len` gathered bytes: a complete message ends the
/// exchange with that message; an incomplete one asks for another chunk,
/// unless the bytes have reached the greatest length of a message; anything
/// else ends the exchange with a protocol error.
pub open spec fn decided(len: nat, limit: nat, verdict: Verdict) -> CmdStep {
    match verdict {
        Verdict::Complete(msg) => CmdStep::Done(Ok(msg)),
        Verdict::NeedMoreData => if len >= limit {
            CmdStep::Done(Err(Error::Protocol))
        } else {
            CmdStep::Ask(Request::Receive)
        },
        Verdict::Fatal => CmdStep::Done(Err(Error::Protocol)),
    }
}

impl Device {
    /// Opens an exchange for a request in its wire form. The request is
    /// refused where the device does not take commands, where the link is not
    /// live, and where the request is longer than a message may be.
    pub fn send_recv_cmd(&self, request: Vec<u8>, max_msg_sz: usize) -> (r: Result<
        (CmdExchange, Request),
        Error,
    >)
        ensures
            match self.admits(Operation::Command) {
                Err(e) => r == Err::<(CmdExchange, Request), Error>(e),
                Ok(_) => if request@.len() > max_msg_sz {
                    r == Err::<(CmdExchange, Request), Error>(Error::Protocol)
                } else {
                    &&& r matches Ok((exchange, first))
                    &&& exchange.buf@ == Seq::<u8>::empty()
                    &&& exchange.limit == max_msg_sz
                    &&& first == Request::Send(request)
                },
            },
    {
        match self.gate(Operation::Command) {
            Err(e) => Err(e),
            Ok(_) => if request.len() > max_msg_sz {
                Err(Error::Protocol)
            } else {
                Ok((CmdExchange { buf: Vec::new(), limit: max_msg_sz }, Request::Send(request)))
            },
        }
    }
}

impl CmdExchange {
    /// Takes the answer to the sending of the request: a failed call ends
    /// the exchange and the session, anything else asks for the first chunk.
    pub fn sent(&self, dev: &mut Device, reply: Reply) -> (step: CmdStep)
        ensures
            *final(dev) == old(dev).after(reply),
            step == match Device::outcome(reply) {
                Ok(_) => CmdStep::Ask(Request::Receive),
                Err(e) => CmdStep::Done(Err(e)),
            },
    {
        match dev.settle(reply) {
            Ok(_) => CmdStep::Ask(Request::Receive),
            Err(e) => CmdStep::Done(Err(e)),
        }
    }

    /// Takes the answer to a receive: an answer without data ends the
    /// exchange, a failed call the session too; a chunk is appended to the
    /// bytes gathered so far, which are then to be parsed.
    pub fn chunk(&mut self, dev: &mut Device, reply: Reply) -> (step: CmdStep)
        ensures
            *final(dev) == old(dev).after(reply),
            final(self).limit == old(self).limit,
            match Device::outcome(reply) {
                Ok(bytes) => final(self).buf@ == old(self).buf@ + bytes@ && step == CmdStep::Parse,
                Err(e) => final(self).buf@ == old(self).buf@ && step == CmdStep::Done(Err(e)),
            },
    {
        match dev.settle(reply) {
            Ok(mut bytes) => {
                self.buf.append(&mut bytes);
                CmdStep::Parse
            },
            Err(e) => CmdStep::Done(Err(e)),
        }
    }

    /// Takes the parser's verdict on the bytes gathered so far.
    pub fn parsed(&self, verdict: Verdict) -> (step: CmdStep)
        ensures
            step == decided(self.buf@.len(), self.limit as nat, verdict),
    {
        match verdict {
            Verdict::Complete(msg) => CmdStep::Done(Ok(msg)),
            Verdict::NeedMoreData => if self.buf.len() >= self.limit {
                CmdStep::Done(Err(Error::Protocol))
            } else {
                CmdStep::Ask(Request::Receive)
            },
            Verdict::Fatal => CmdStep::Done(Err(Error::Protocol)),
        }
    }
}

/// The bytes of the first `n` chunks, one after the other.
pub open spec fn gathered(chunks: Seq<Seq<u8>>, n: nat) -> Seq<u8>
    decreases n,
{
    if n == 0 || n > chunks.len() {
        Seq::empty()
    } else {
        gathered(chunks, (n - 1) as nat) + chunks[n - 1]
    }
}

/// How the exchange stands after the first `n` chunks were received and
/// parsed in turn: `None` while it waits for more, the result once it ended.
pub open spec fn reassembled(
    parse: spec_fn(Seq<u8>) -> Verdict,
    limit: nat,
    chunks: Seq<Seq<u8>>,
    n: nat,
) -> Option<Result<DevMsg, Error>>
    decreases n,
{
    if n == 0 || n > chunks.len() {
        None
    } else {
        match reassembled(parse, limit, chunks, (n - 1) as nat) {
            Some(ended) => Some(ended),
            None => match decided(
                gathered(chunks, n).len(),
                limit,
                parse(gathered(chunks, n)),
            ) {
                CmdStep::Done(ended) => Some(ended),
                _ => None,
            },
        }
    }
}

/// Whether the parser needs every chunk: it finds the message `msg` complete
/// in all the chunks together, and only its beginning, shorter than a
/// message may be, in any shorter run of them.
pub open spec fn needs_all(
    parse: spec_fn(Seq<u8>) -> Verdict,
    limit: nat,
    chunks: Seq<Seq<u8>>,
    msg: DevMsg,
) -> bool {
    &&& chunks.len() >= 1
    &&& parse(gathered(chunks, chunks.len())) == Verdict::Complete(msg)
    &&& forall|k: nat|
        1 <= k < chunks.len() ==> parse(#[trigger] gathered(chunks, k)) == Verdict::NeedMoreData
            && gathered(chunks, k).len() < limit
}

/// Where the parser needs every chunk, the exchange waits until the last
/// chunk and then ends with the message that the parser finds in all the
/// bytes together.
pub proof fn lemma_reassembly_completes(
    parse: spec_fn(Seq<u8>) -> Verdict,
    limit: nat,
    chunks: Seq<Seq<u8>>,
    msg: DevMsg,
)
    requires
        needs_all(parse, limit, chunks, msg),
    ensures
        forall|k: nat| k < chunks.len() ==> reassembled(parse, limit, chunks, k) is None,
        reassembled(parse, limit, chunks, chunks.len()) == Some(Ok::<DevMsg, Error>(msg)),
{
    assert forall|k: nat| k < chunks.len() implies reassembled(parse, limit, chunks, k) is None by {
        lemma_waits(parse, limit, chunks, msg, k);
    }
    lemma_waits(parse, limit, chunks, msg, (chunks.len() - 1) as nat);
}

/// Where the parser needs every chunk, the exchange still waits after any
/// shorter run of them.
pub proof fn lemma_waits(
    parse: spec_fn(Seq<u8>) -> Verdict,
    limit: nat,
    chunks: Seq<Seq<u8>>,
    msg: DevMsg,
    k: nat,
)
    requires
        needs_all(parse, limit, chunks, msg),
        k < chunks.len(),
    ensures
        reassembled(parse, limit, chunks, k) is None,
    decreases k,
{
    if k > 0 {
        lemma_waits(parse, limit, chunks, msg, (k - 1) as nat);
        assert(parse(gathered(chunks, k)) == Verdict::NeedMoreData);
    }
}

/// The reply does not depend on where the transport cuts the chunks: two
/// deliveries of the same bytes, in each of which the parser needs every
/// chunk, end with the same message.
pub proof fn lemma_chunk_boundaries(
    parse: spec_fn(Seq<u8>) -> Verdict,
    limit: nat,
    first: Seq<Seq<u8>>,
    second: Seq<Seq<u8>>,
    msg: DevMsg,
)
    requires
        gathered(first, first.len()) == gathered(second, second.len()),
        needs_all(parse, limit, first, msg),
        first.len() >= 1,
        second.len() >= 1,
        forall|k: nat|
            1 <= k < second.len() ==> parse(#[trigger] gathered(second, k))
                == Verdict::NeedMoreData && gathered(second, k).len() < limit,
    ensures
        reassembled(parse, limit, first, first.len()) == Some(Ok::<DevMsg, Error>(msg)),
        reassembled(parse, limit, second, second.len()) == reassembled(
            parse,
            limit,
            first,
            first.len(),
        ),
{
    lemma_reassembly_completes(parse, limit, first, msg);
    lemma_reassembly_completes(parse, limit, second, msg);
}

} // verus!
