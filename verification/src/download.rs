//! Bulk file transfer: the recorded file is fetched as a run of transfers of
//! whole blocks and written to a sink in the order of arrival.
use vstd::prelude::*;
use vstd::string::StringExecFns;
use crate::device::Error;
use crate::message::{AnswerCode, DevMsg};
use crate::value::{TypedValue, ValueView};

verus! {

/// Size in bytes of one block of a recorded file.
pub const BLOCK_SIZE: u32 = 0x800;

/// Size in bytes of a full transfer.
pub const TRANS_SIZE: u32 = 0x100_000;

/// Blocks in a full transfer.
pub const BLOCKS_PER_TRANS: u32 = 0x200;

/// Blocks asked of the device in one download.
pub const REQUESTED_BLOCKS: u32 = 20_000;

/// The transfers in which `block_count` blocks are fetched, each by its number
/// of blocks: as many full transfers of `per_transfer` blocks as fit, then one
/// transfer of the blocks that remain, if any remain.
pub open spec fn transfer_plan(block_count: u32, per_transfer: u32) -> Seq<u32> {
    let full = Seq::new((block_count / per_transfer) as nat, |i: int| per_transfer);
    if block_count % per_transfer != 0 {
        full.push((block_count % per_transfer) as u32)
    } else {
        full
    }
}

/// The blocks of the first `n` transfers of a plan, taken together.
pub open spec fn plan_blocks(plan: Seq<u32>, n: nat) -> nat
    decreases n,
{
    if n == 0 || n > plan.len() {
        0
    } else {
        plan_blocks(plan, (n - 1) as nat) + plan[n - 1] as nat
    }
}

/// The blocks of `n` transfers of `size` blocks each are `n * size`.
proof fn lemma_full_blocks(plan: Seq<u32>, size: u32, n: nat)
    requires
        n <= plan.len(),
        forall|i: int| 0 <= i < n ==> plan[i] == size,
    ensures
        plan_blocks(plan, n) == n * size,
    decreases n,
{
    if n > 0 {
        lemma_full_blocks(plan, size, (n - 1) as nat);
        assert(plan_blocks(plan, n) == (n - 1) * size + size);
        assert((n - 1) * size + size == n * size) by (nonlinear_arith);
    } else {
        assert(0 * size == 0) by (nonlinear_arith);
    }
}

/// The blocks of a longer plan that agrees with a shorter one.
proof fn lemma_plan_blocks_prefix(a: Seq<u32>, b: Seq<u32>, n: nat)
    requires
        n <= a.len(),
        n <= b.len(),
        forall|i: int| 0 <= i < n ==> a[i] == b[i],
    ensures
        plan_blocks(a, n) == plan_blocks(b, n),
    decreases n,
{
    if n > 0 {
        lemma_plan_blocks_prefix(a, b, (n - 1) as nat);
    }
}

/// The transfers of a plan fetch every block once: each transfer but the last
/// is full, none is empty or more than full, and together they hold
/// `block_count` blocks.
pub proof fn lemma_plan_covers(block_count: u32, per_transfer: u32)
    requires
        per_transfer > 0,
    ensures
        plan_blocks(
            transfer_plan(block_count, per_transfer),
            transfer_plan(block_count, per_transfer).len(),
        ) == block_count,
        forall|i: int|
            0 <= i < transfer_plan(block_count, per_transfer).len() ==> 0 < (
            #[trigger] transfer_plan(block_count, per_transfer)[i]) <= per_transfer,
        forall|i: int|
            0 <= i < transfer_plan(block_count, per_transfer).len() - 1 ==> (
            #[trigger] transfer_plan(block_count, per_transfer)[i]) == per_transfer,
{
    let full_count = (block_count / per_transfer) as nat;
    let full = Seq::new(full_count, |i: int| per_transfer);
    let plan = transfer_plan(block_count, per_transfer);
    lemma_full_blocks(full, per_transfer, full_count);
    assert(block_count == full_count * per_transfer + block_count % per_transfer) by {
        vstd::arithmetic::div_mod::lemma_fundamental_div_mod(
            block_count as int,
            per_transfer as int,
        );
        assert(per_transfer * (block_count as int / per_transfer as int) == full_count
            * per_transfer) by (nonlinear_arith)
            requires
                full_count == block_count as int / per_transfer as int,
        ;
    }
    if block_count % per_transfer != 0 {
        lemma_plan_blocks_prefix(plan, full, full_count);
    }
}

/// Each transfer of a plan is sized to the smaller of a full transfer and the
/// blocks that the transfers before it have left.
pub proof fn lemma_plan_sizes(block_count: u32, per_transfer: u32, k: nat)
    requires
        per_transfer > 0,
        k < transfer_plan(block_count, per_transfer).len(),
    ensures
        plan_blocks(transfer_plan(block_count, per_transfer), k) <= block_count,
        transfer_plan(block_count, per_transfer)[k as int] as int == if block_count - plan_blocks(
            transfer_plan(block_count, per_transfer),
            k,
        ) < per_transfer {
            block_count - plan_blocks(transfer_plan(block_count, per_transfer), k)
        } else {
            per_transfer as int
        },
{
    let full_count = (block_count / per_transfer) as nat;
    let full = Seq::new(full_count, |i: int| per_transfer);
    let plan = transfer_plan(block_count, per_transfer);
    assert(block_count == full_count * per_transfer + block_count % per_transfer) by {
        vstd::arithmetic::div_mod::lemma_fundamental_div_mod(
            block_count as int,
            per_transfer as int,
        );
        assert(per_transfer * (block_count as int / per_transfer as int) == full_count
            * per_transfer) by (nonlinear_arith)
            requires
                full_count == block_count as int / per_transfer as int,
        ;
    }
    lemma_full_blocks(plan, per_transfer, k);
    if k < full_count {
        assert((k + 1) * per_transfer <= full_count * per_transfer) by (nonlinear_arith)
            requires
                k + 1 <= full_count,
        ;
        assert((k + 1) * per_transfer == k * per_transfer + per_transfer) by (nonlinear_arith);
    }
}

/// Where `block_count` is `q` times `per_transfer` and `r` more, `r` less than
/// `per_transfer`, the plan is `q` full transfers, followed by one transfer of
/// `r` blocks if and only if `r` is not zero, and its transfers hold
/// `block_count` blocks together.
pub proof fn lemma_plan_shape(block_count: u32, per_transfer: u32, q: nat, r: nat)
    requires
        per_transfer > 0,
        block_count == q * per_transfer + r,
        r < per_transfer,
    ensures
        transfer_plan(block_count, per_transfer).len() == q + if r != 0 {
            1nat
        } else {
            0nat
        },
        forall|i: int|
            0 <= i < q ==> (#[trigger] transfer_plan(block_count, per_transfer)[i])
                == per_transfer,
        r != 0 ==> transfer_plan(block_count, per_transfer)[q as int] == r,
        plan_blocks(
            transfer_plan(block_count, per_transfer),
            transfer_plan(block_count, per_transfer).len(),
        ) == block_count,
{
    vstd::arithmetic::div_mod::lemma_fundamental_div_mod_converse(
        block_count as int,
        per_transfer as int,
        q as int,
        r as int,
    );
    lemma_plan_covers(block_count, per_transfer);
}

/// Makes the plan of the transfers in which `block_count` blocks are fetched.
pub fn plan_transfers(block_count: u32, per_transfer: u32) -> (plan: Vec<u32>)
    requires
        per_transfer > 0,
    ensures
        plan@ == transfer_plan(block_count, per_transfer),
{
    let full = block_count / per_transfer;
    let rest = block_count % per_transfer;
    let mut plan: Vec<u32> = Vec::new();
    let mut i: u32 = 0;
    while i < full
        invariant
            i <= full,
            plan@ == Seq::new(i as nat, |k: int| per_transfer),
        decreases full - i,
    {
        plan.push(per_transfer);
        proof {
            assert(plan@ =~= Seq::new((i + 1) as nat, |k: int| per_transfer));
        }
        i = i + 1;
    }
    if rest != 0 {
        plan.push(rest);
    }
    plan
}

/// Where a download stands.
#[derive(Clone, Copy, Debug, PartialEq, Eq, Structural)]
pub enum Stage {
    /// The file position is being reset.
    Position,
    /// The length of the file is being read.
    Length,
    /// The number of blocks wanted is being written.
    Wanted,
    /// The start trigger is being written.
    Start,
    /// The sink is being opened.
    Opening,
    /// A transfer is under way.
    Receiving,
    /// A buffer is being written to the sink.
    Writing,
    /// The sink is being closed.
    Closing,
}

/// One piece of work of a download.
#[derive(Debug, PartialEq, Eq)]
pub enum Job {
    /// Send this request through the command channel and hand back the reply.
    Command(DevMsg),
    /// Open the sink for a file of this many bytes.
    Open(u64),
    /// Receive this many bytes from the file channel.
    Transfer(u32),
    /// Append these bytes to the sink.
    Write(Vec<u8>),
    /// Close the sink.
    Close,
}

/// How a piece of work ended.
#[derive(Debug, PartialEq, Eq)]
pub enum Outcome {
    /// The device answered a command.
    Answer(DevMsg),
    /// A transfer brought these bytes.
    Block(Vec<u8>),
    /// The sink did what it was asked.
    Written,
    /// The work failed.
    Failed(Error),
}

/// What the caller is to do next in a download.
#[derive(Debug, PartialEq, Eq)]
pub enum Next {
    /// Do this and hand back how it ended.
    Do(Job),
    /// The download has ended.
    Finished(Result<(), Error>),
}

/// A download in progress.
#[derive(Debug)]
pub struct Download {
    pub stage: Stage,
    /// The blocks wanted.
    pub blocks: u32,
    /// The transfers to make, each by its number of blocks.
    pub plan: Vec<u32>,
    /// How many transfers of the plan have been asked for.
    pub next: usize,
    /// How many transfers brought another number of bytes than was asked for.
    pub mismatches: u32,
    /// Whether such a transfer ends the download.
    pub strict: bool,
}

/// Whether `next` asks for the command `code` on `path` with `value`.
pub open spec fn asks(next: Next, code: AnswerCode, path: Seq<char>, value: ValueView) -> bool {
    next matches Next::Do(Job::Command(msg)) && msg@ == (code, path, value)
}

impl Download {
    /// No transfer of the plan is longer than a transfer can be.
    pub open spec fn wf(self) -> bool {
        &&& self.next <= self.plan@.len()
        &&& forall|i: int|
            0 <= i < self.plan@.len() ==> (#[trigger] self.plan@[i]) * BLOCK_SIZE <= u32::MAX
    }

    /// What follows once the sink is ready for more: the next transfer of the
    /// plan, or the closing of the sink when the plan is through.
    pub open spec fn moves_on(self, post: Download, next: Next) -> bool {
        if self.next < self.plan@.len() {
            &&& post == (Download {
                stage: Stage::Receiving,
                next: (self.next + 1) as usize,
                ..self
            })
            &&& next == Next::Do(Job::Transfer((self.plan@[self.next as int] * BLOCK_SIZE) as u32))
        } else {
            post == (Download { stage: Stage::Closing, ..self }) && next == Next::Do(Job::Close)
        }
    }

    /// What follows a buffer of a transfer: it is written to the sink, and
    /// counted where it has another length than was asked for; a strict
    /// download ends there with a protocol error.
    pub open spec fn received(self, buf: Vec<u8>, post: Download, next: Next) -> bool {
        let asked = self.plan@[self.next - 1] * BLOCK_SIZE;
        if self.next == 0 {
            post == self && next == Next::Finished(Err(Error::Protocol))
        } else if buf@.len() == asked {
            post == (Download { stage: Stage::Writing, ..self }) && next == Next::Do(
                Job::Write(buf),
            )
        } else if self.strict {
            post == self && next == Next::Finished(Err(Error::Protocol))
        } else {
            &&& post == (Download {
                stage: Stage::Writing,
                mismatches: if self.mismatches < u32::MAX {
                    (self.mismatches + 1) as u32
                } else {
                    self.mismatches
                },
                ..self
            })
            &&& next == Next::Do(Job::Write(buf))
        }
    }

    /// What follows the end of a piece of work. A failure ends the download
    /// with its error; an outcome of another kind than the work under way has
    /// ends it with a protocol error.
    pub open spec fn follows(self, outcome: Outcome, post: Download, next: Next) -> bool {
        match (self.stage, outcome) {
            (_, Outcome::Failed(e)) => post == self && next == Next::Finished(Err(e)),
            (Stage::Position, Outcome::Answer(_)) => {
                &&& post == (Download { stage: Stage::Length, ..self })
                &&& asks(next, AnswerCode::OK_READ, "/io/file/len"@, ValueView::UNIT)
            },
            (Stage::Length, Outcome::Answer(DevMsg(_, _, TypedValue::U32(_)))) => {
                &&& post == (Download { stage: Stage::Wanted, ..self })
                &&& asks(next, AnswerCode::OK_WRITE, "/io/file/len"@, ValueView::U32(self.blocks))
            },
            (Stage::Wanted, Outcome::Answer(_)) => {
                &&& post == (Download { stage: Stage::Start, ..self })
                &&& asks(next, AnswerCode::OK_WRITE, "/io/file/start"@, ValueView::UNIT)
            },
            (Stage::Start, Outcome::Answer(_)) => {
                &&& post == (Download { stage: Stage::Opening, ..self })
                &&& next == Next::Do(Job::Open((self.blocks * BLOCK_SIZE) as u64))
            },
            (Stage::Opening, Outcome::Written) => self.moves_on(post, next),
            (Stage::Receiving, Outcome::Block(buf)) => self.received(buf, post, next),
            (Stage::Writing, Outcome::Written) => self.moves_on(post, next),
            (Stage::Closing, Outcome::Written) => post == self && next == Next::Finished(Ok(())),
            _ => post == self && next == Next::Finished(Err(Error::Protocol)),
        }
    }

    fn next_transfer(&mut self) -> (next: Next)
        requires
            old(self).wf(),
        ensures
            final(self).wf(),
            old(self).moves_on(*final(self), next),
    {
        if self.next < self.plan.len() {
            let blocks = self.plan[self.next];
            self.next = self.next + 1;
            self.stage = Stage::Receiving;
            Next::Do(Job::Transfer(blocks * BLOCK_SIZE))
        } else {
            self.stage = Stage::Closing;
            Next::Do(Job::Close)
        }
    }

    /// Takes the end of a piece of work and says what to do next.
    pub fn step(&mut self, outcome: Outcome) -> (next: Next)
        requires
            old(self).wf(),
        ensures
            final(self).wf(),
            old(self).follows(outcome, *final(self), next),
    {
        match outcome {
            Outcome::Failed(e) => Next::Finished(Err(e)),
            Outcome::Answer(DevMsg(_, _, value)) => match self.stage {
                Stage::Position => {
                    self.stage = Stage::Length;
                    Next::Do(
                        Job::Command(
                            DevMsg(
                                AnswerCode::OK_READ,
                                String::from_str("/io/file/len"),
                                TypedValue::UNIT,
                            ),
                        ),
                    )
                },
                Stage::Length => match value {
                    TypedValue::U32(_) => {
                        self.stage = Stage::Wanted;
                        Next::Do(
                            Job::Command(
                                DevMsg(
                                    AnswerCode::OK_WRITE,
                                    String::from_str("/io/file/len"),
                                    TypedValue::U32(self.blocks),
                                ),
                            ),
                        )
                    },
                    _ => Next::Finished(Err(Error::Protocol)),
                },
                Stage::Wanted => {
                    self.stage = Stage::Start;
                    Next::Do(
                        Job::Command(
                            DevMsg(
                                AnswerCode::OK_WRITE,
                                String::from_str("/io/file/start"),
                                TypedValue::UNIT,
                            ),
                        ),
                    )
                },
                Stage::Start => {
                    self.stage = Stage::Opening;
                    Next::Do(Job::Open(self.blocks as u64 * BLOCK_SIZE as u64))
                },
                _ => Next::Finished(Err(Error::Protocol)),
            },
            Outcome::Block(buf) => match self.stage {
                Stage::Receiving => {
                    if self.next == 0 {
                        return Next::Finished(Err(Error::Protocol));
                    }
                    let asked = self.plan[self.next - 1] * BLOCK_SIZE;
                    if buf.len() == asked as usize {
                        self.stage = Stage::Writing;
                        Next::Do(Job::Write(buf))
                    } else if self.strict {
                        Next::Finished(Err(Error::Protocol))
                    } else {
                        if self.mismatches < u32::MAX {
                            self.mismatches = self.mismatches + 1;
                        }
                        self.stage = Stage::Writing;
                        Next::Do(Job::Write(buf))
                    }
                },
                _ => Next::Finished(Err(Error::Protocol)),
            },
            Outcome::Written => match self.stage {
                Stage::Opening | Stage::Writing => self.next_transfer(),
                Stage::Closing => Next::Finished(Ok(())),
                _ => Next::Finished(Err(Error::Protocol)),
            },
        }
    }
}

/// In a download of `q` times `per_transfer` blocks and `r` more, `r` less
/// than `per_transfer`, each time the sink is ready the next transfer is
/// asked for: a full transfer for each of the first `q`, then one of `r`
/// blocks if and only if `r` is not zero, and after that the sink is closed.
pub proof fn lemma_download_transfers(
    download: Download,
    per_transfer: u32,
    q: nat,
    r: nat,
    post: Download,
    next: Next,
)
    requires
        per_transfer > 0,
        download.blocks == q * per_transfer + r,
        r < per_transfer,
        download.wf(),
        download.plan@ == transfer_plan(download.blocks, per_transfer),
        download.stage is Opening || download.stage is Writing,
        download.follows(Outcome::Written, post, next),
    ensures
        download.next < q ==> next == Next::Do(
            Job::Transfer((per_transfer * BLOCK_SIZE) as u32),
        ),
        download.next == q && r != 0 ==> next == Next::Do(Job::Transfer((r * BLOCK_SIZE) as u32)),
        download.next > q || (download.next == q && r == 0) ==> next == Next::Do(Job::Close),
        download.next < transfer_plan(download.blocks, per_transfer).len() ==> post == (Download {
            stage: Stage::Receiving,
            next: (download.next + 1) as usize,
            ..download
        }),
{
    lemma_plan_shape(download.blocks, per_transfer, q, r);
}

/// Opens the download of `blocks` blocks of the recorded file, fetched
/// `per_transfer` blocks at a time. The first piece of work resets the file
/// position.
pub fn download_file_from_device(blocks: u32, per_transfer: u32, strict: bool) -> (r: (
    Download,
    Job,
))
    requires
        0 < per_transfer,
        per_transfer * BLOCK_SIZE <= u32::MAX,
    ensures
        r.0.wf(),
        r.0.stage == Stage::Position,
        r.0.blocks == blocks,
        r.0.plan@ == transfer_plan(blocks, per_transfer),
        r.0.next == 0,
        r.0.mismatches == 0,
        r.0.strict == strict,
        r.1 matches Job::Command(msg) && msg@ == (
            AnswerCode::OK_WRITE,
            "/io/file/pos"@,
            ValueView::U32(0),
        ),
{
    let plan = plan_transfers(blocks, per_transfer);
    proof {
        lemma_plan_covers(blocks, per_transfer);
        assert forall|i: int| 0 <= i < plan@.len() implies (#[trigger] plan@[i]) * BLOCK_SIZE
            <= u32::MAX by {
            assert(plan@[i] * BLOCK_SIZE <= per_transfer * BLOCK_SIZE) by (nonlinear_arith)
                requires
                    plan@[i] <= per_transfer,
            ;
        }
    }
    (
        Download { stage: Stage::Position, blocks, plan, next: 0, mismatches: 0, strict },
        Job::Command(
            DevMsg(AnswerCode::OK_WRITE, String::from_str("/io/file/pos"), TypedValue::U32(0)),
        ),
    )
}

} // verus!
