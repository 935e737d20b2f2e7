//! The mathematical model of a bowling frame, and what segmenting and scoring mean.

use vstd::prelude::*;

verus! {

/// Pins standing at the start of a frame: a strike knocks down all of them in one roll,
/// a spare in two.
pub const PINS: u32 = 10;

/// What a frame is, whichever strategy produced it: the rolls needed to score it,
/// bonus rolls included.
pub enum Frame {
    /// Two rolls whose sum is under ten.
    Open(u32, u32),
    /// Two rolls summing to ten, then the one bonus roll.
    Spare(u32),
    /// One roll of ten, then the two bonus rolls.
    Strike(u32, u32),
}

/// The frame that starts a roll sequence, if one does.
pub open spec fn classify(g: Seq<u32>) -> Option<Frame> {
    if g.len() >= 3 && g[0] == 10 {
        Some(Frame::Strike(g[1], g[2]))
    } else if g.len() >= 3 && g[0] + g[1] == 10 {
        Some(Frame::Spare(g[2]))
    } else if g.len() >= 2 && g[0] < 10 && g[0] + g[1] < 10 {
        Some(Frame::Open(g[0], g[1]))
    } else {
        None
    }
}

/// How many rolls a frame takes off a sequence of `remaining` rolls. A strike or a spare
/// with exactly three rolls left is the last frame: its bonus rolls belong to no other frame.
pub open spec fn step(f: Frame, remaining: nat) -> nat {
    match f {
        Frame::Strike(..) => if remaining == 3 { 3 } else { 1 },
        Frame::Spare(..) => if remaining == 3 { 3 } else { 2 },
        Frame::Open(..) => 2,
    }
}

/// A roll sequence cut into frames, or `None` where some position starts no frame.
pub open spec fn segment(g: Seq<u32>) -> Option<Seq<Frame>>
    decreases g.len(),
{
    if g.len() == 0 {
        Some(Seq::empty())
    } else {
        match classify(g) {
            None => None,
            Some(f) => match segment(g.subrange(step(f, g.len()) as int, g.len() as int)) {
                None => None,
                Some(rest) => Some(seq![f] + rest),
            },
        }
    }
}

/// `pre` followed by the frames of `rest`, where `rest` is a segmentation.
pub open spec fn prepend(pre: Seq<Frame>, rest: Option<Seq<Frame>>) -> Option<Seq<Frame>> {
    match rest {
        None => None,
        Some(r) => Some(pre + r),
    }
}

/// The points a frame scores.
pub open spec fn points(f: Frame) -> int {
    match f {
        Frame::Open(a, b) => a + b,
        Frame::Spare(b) => 10 + b,
        Frame::Strike(b1, b2) => 10 + b1 + b2,
    }
}

/// The points of each frame, in order.
pub open spec fn scores(fs: Seq<Frame>) -> Seq<int> {
    fs.map_values(|f: Frame| points(f))
}

/// The sum of a sequence of points.
pub open spec fn total(s: Seq<int>) -> int
    decreases s.len(),
{
    if s.len() == 0 {
        0
    } else {
        s[0] + total(s.subrange(1, s.len() as int))
    }
}

/// A segmentation of a non-empty sequence holds at least one frame.
pub proof fn lemma_segment_nonempty(g: Seq<u32>)
    requires
        g.len() > 0,
        segment(g) is Some,
    ensures
        segment(g).unwrap().len() > 0,
{
}

} // verus!
