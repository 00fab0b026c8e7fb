//! Live telemetry: which decoded points are forwarded to the display, and how.
use vstd::prelude::*;
use crate::text::same_text;

verus! {

/// The physiological channel that a point belongs to.
#[derive(Clone, Copy, Debug, PartialEq, Eq, Structural)]
pub enum GroupId {
    ECG,
    REO,
    ACC_IN,
    /// Any other group.
    OTHER,
}

/// What a point holds: its group and its number of channels.
#[derive(Clone, Copy, Debug, PartialEq, Eq, Structural)]
pub struct PointDesc {
    pub group_id: GroupId,
    pub ch_cnt: u8,
}

/// One record of a decoded block.
#[derive(Debug, PartialEq, Eq)]
pub enum Point {
    /// A sample: one value for each channel.
    PointV(PointDesc, Vec<i32>),
    /// An event record.
    EventV(Vec<u8>),
}

/// The group that the display shows.
#[derive(Clone, Copy, Debug, PartialEq, Eq, Structural)]
pub enum VisSelectedGroup {
    ECG,
    REO,
    ACC_IN,
}

impl Default for VisSelectedGroup {
    fn default() -> (group: Self)
        ensures
            group == VisSelectedGroup::ECG,
    {
        VisSelectedGroup::ECG
    }
}

impl VisSelectedGroup {
    /// The group of a name.
    pub open spec fn named(name: Seq<char>) -> Option<VisSelectedGroup> {
        if name == "ECG"@ {
            Some(VisSelectedGroup::ECG)
        } else if name == "REO"@ {
            Some(VisSelectedGroup::REO)
        } else if name == "ACC_IN"@ {
            Some(VisSelectedGroup::ACC_IN)
        } else {
            None
        }
    }

    /// The group that the user selected by its name.
    pub fn from_name(v: &str) -> (group: Option<VisSelectedGroup>)
        ensures
            group == VisSelectedGroup::named(v@),
    {
        if same_text(v, "ECG") {
            Some(VisSelectedGroup::ECG)
        } else if same_text(v, "REO") {
            Some(VisSelectedGroup::REO)
        } else if same_text(v, "ACC_IN") {
            Some(VisSelectedGroup::ACC_IN)
        } else {
            None
        }
    }

    /// The points that belong to the group.
    pub open spec fn wanted(self) -> PointDesc {
        match self {
            VisSelectedGroup::ECG => PointDesc { group_id: GroupId::ECG, ch_cnt: 8 },
            VisSelectedGroup::REO => PointDesc { group_id: GroupId::REO, ch_cnt: 1 },
            VisSelectedGroup::ACC_IN => PointDesc { group_id: GroupId::ACC_IN, ch_cnt: 3 },
        }
    }

    /// By what the values of the group are divided for the display.
    pub open spec fn divisor(self) -> int {
        match self {
            VisSelectedGroup::ECG => 100,
            VisSelectedGroup::REO => 50,
            VisSelectedGroup::ACC_IN => 8,
        }
    }

    /// Of how many samples of the group one is shown.
    pub open spec fn every(self) -> int {
        match self {
            VisSelectedGroup::ECG => 8,
            _ => 1,
        }
    }
}

/// `value` divided by the positive `by`, rounded towards zero.
pub open spec fn quotient(value: i32, by: int) -> int {
    if value >= 0 {
        value as int / by
    } else {
        -((-(value as int)) / by)
    }
}

/// A sample with each value divided by `by`.
pub open spec fn scaled(sample: Seq<i32>, by: int) -> Seq<i32> {
    Seq::new(sample.len(), |i: int| quotient(sample[i], by) as i32)
}

/// The counter after one more sample.
pub open spec fn counted(cnt: usize) -> usize {
    if cnt == usize::MAX {
        0
    } else {
        (cnt + 1) as usize
    }
}

/// What becomes of a point while `selected` is shown and `cnt` samples of a
/// thinned group have been seen: the sample to forward, if any, and the
/// counter afterwards. A sample of the selected group is scaled; of a thinned
/// group only every eighth is forwarded. Anything else is dropped.
pub open spec fn dispatched(selected: VisSelectedGroup, point: Point, cnt: usize) -> (
    Option<Seq<i32>>,
    usize,
) {
    match point {
        Point::PointV(desc, sample) => if desc == selected.wanted() {
            if selected.every() == 1 {
                (Some(scaled(sample@, selected.divisor())), cnt)
            } else if cnt as int % selected.every() == 0 {
                (Some(scaled(sample@, selected.divisor())), counted(cnt))
            } else {
                (None, counted(cnt))
            }
        } else {
            (None, cnt)
        },
        Point::EventV(_) => (None, cnt),
    }
}

/// Divides each value of a sample by `by`, rounding towards zero.
fn scale(sample: &Vec<i32>, by: i32) -> (out: Vec<i32>)
    requires
        by > 0,
    ensures
        out@ == scaled(sample@, by as int),
{
    let mut out: Vec<i32> = Vec::new();
    let mut i: usize = 0;
    while i < sample.len()
        invariant
            i <= sample.len(),
            by > 0,
            out@ == Seq::new(i as nat, |k: int| quotient(sample@[k], by as int) as i32),
        decreases sample.len() - i,
    {
        let value = sample[i];
        let q: i32 = if value >= 0 {
            value / by
        } else {
            let magnitude: i64 = -(value as i64);
            let part: i64 = magnitude / (by as i64);
            proof {
                assert(0 <= magnitude / (by as i64) <= magnitude) by (nonlinear_arith)
                    requires
                        magnitude >= 0,
                        by > 0,
                ;
            }
            (-part) as i32
        };
        out.push(q);
        proof {
            assert(out@ =~= Seq::new((i + 1) as nat, |k: int| quotient(sample@[k], by as int) as i32));
        }
        i = i + 1;
    }
    out
}

/// Size in bytes of a telemetry frame.
pub const FRAME_SIZE: usize = 0x800;

/// The live stream: how many samples of a thinned group have been seen.
#[derive(Clone, Copy, Debug, PartialEq, Eq, Structural)]
pub struct VisStream {
    pub cnt: usize,
}

/// What the caller is to do after a frame.
#[derive(Debug, PartialEq, Eq)]
pub enum VisStep {
    /// Hand these samples to the display, in order, and receive the next frame.
    Forward(Vec<Vec<i32>>),
    /// The stream was stopped: receive no more.
    Stop,
}

/// The samples that the first `n` points of a frame give the display, in
/// order, and the counter afterwards.
pub open spec fn forwarded(selected: VisSelectedGroup, points: Seq<Point>, cnt: usize, n: nat) -> (
    Seq<Seq<i32>>,
    usize,
)
    decreases n,
{
    if n == 0 || n > points.len() {
        (Seq::empty(), cnt)
    } else {
        let before = forwarded(selected, points, cnt, (n - 1) as nat);
        let now = dispatched(selected, points[n - 1], before.1);
        match now.0 {
            Some(sample) => (before.0.push(sample), now.1),
            None => (before.0, now.1),
        }
    }
}

/// The contents of a run of samples.
pub open spec fn samples_view(samples: Seq<Vec<i32>>) -> Seq<Seq<i32>> {
    Seq::new(samples.len(), |i: int| samples[i]@)
}

impl VisStream {
    /// A stream that has seen nothing.
    pub fn new() -> (stream: Self)
        ensures
            stream.cnt == 0,
    {
        VisStream { cnt: 0 }
    }

    /// Decides what becomes of one point: the sample to forward, if any.
    pub fn dispatch_point(&mut self, selected: VisSelectedGroup, point: &Point) -> (out: Option<
        Vec<i32>,
    >)
        ensures
            final(self).cnt == dispatched(selected, *point, old(self).cnt).1,
            match dispatched(selected, *point, old(self).cnt).0 {
                Some(sample) => out matches Some(v) && v@ == sample,
                None => out is None,
            },
    {
        match point {
            Point::PointV(desc, sample) => {
                let (group, channels, by, thinned) = match selected {
                    VisSelectedGroup::ECG => (GroupId::ECG, 8u8, 100i32, true),
                    VisSelectedGroup::REO => (GroupId::REO, 1u8, 50i32, false),
                    VisSelectedGroup::ACC_IN => (GroupId::ACC_IN, 3u8, 8i32, false),
                };
                if desc.group_id == group && desc.ch_cnt == channels {
                    if !thinned {
                        Some(scale(sample, by))
                    } else {
                        let show = self.cnt % 8 == 0;
                        self.cnt = if self.cnt == usize::MAX {
                            0
                        } else {
                            self.cnt + 1
                        };
                        if show {
                            Some(scale(sample, by))
                        } else {
                            None
                        }
                    }
                } else {
                    None
                }
            },
            Point::EventV(_) => None,
        }
    }

    /// Takes one received frame. `running` tells whether the stream is still
    /// wanted; `frame` holds the points of the frame, or `None` where the frame
    /// did not open as a block. A stream that is no longer wanted stops and
    /// forwards nothing of the frame.
    pub fn vis_update(
        &mut self,
        running: bool,
        selected: VisSelectedGroup,
        frame: Option<Vec<Point>>,
    ) -> (step: VisStep)
        ensures
            if !running {
                step == VisStep::Stop && final(self).cnt == old(self).cnt
            } else {
                match frame {
                    None => {
                        &&& step matches VisStep::Forward(out)
                        &&& out@.len() == 0
                        &&& final(self).cnt == old(self).cnt
                    },
                    Some(points) => {
                        let all = forwarded(selected, points@, old(self).cnt, points@.len());
                        &&& step matches VisStep::Forward(out)
                        &&& samples_view(out@) == all.0
                        &&& final(self).cnt == all.1
                    },
                }
            },
    {
        if !running {
            return VisStep::Stop;
        }
        let mut out: Vec<Vec<i32>> = Vec::new();
        match frame {
            None => {},
            Some(points) => {
                let ghost start = self.cnt;
                let mut i: usize = 0;
                proof {
                    assert(samples_view(out@) =~= Seq::<Seq<i32>>::empty());
                }
                while i < points.len()
                    invariant
                        i <= points.len(),
                        samples_view(out@) == forwarded(selected, points@, start, i as nat).0,
                        self.cnt == forwarded(selected, points@, start, i as nat).1,
                    decreases points.len() - i,
                {
                    let ghost before = out@;
                    match self.dispatch_point(selected, &points[i]) {
                        Some(sample) => {
                            out.push(sample);
                            proof {
                                assert(samples_view(out@) =~= samples_view(before).push(sample@));
                            }
                        },
                        None => {},
                    }
                    i = i + 1;
                }
            },
        }
        VisStep::Forward(out)
    }
}

/// Whether the sample that comes `k` samples after the one counted `cnt` is
/// shown, in a group of which every eighth is.
pub open spec fn shown_after(cnt: nat, k: int) -> bool {
    (cnt + k) % 8 == 0
}

/// Of eight samples of a thinned group that follow one another, exactly one
/// is shown.
pub proof fn lemma_one_in_eight(cnt: nat)
    ensures
        exists|k: int| 0 <= k < 8 && shown_after(cnt, k),
        forall|j: int, k: int|
            0 <= j < 8 && 0 <= k < 8 && shown_after(cnt, j) && shown_after(cnt, k) ==> j == k,
{
    let k = (8 - cnt % 8) % 8;
    assert(0 <= k < 8 && shown_after(cnt, k));
}

} // verus!
