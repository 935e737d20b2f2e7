//! Segmentation by a cursor that walks the roll sequence.

use vstd::prelude::*;
use vstd::slice::slice_subrange;
use crate::frame::{Frame, classify, segment, prepend, step, points, PINS};

verus! {

/// A frame as the cursor strategy builds it.
#[derive(Clone, Copy, Debug, PartialEq, Eq)]
pub enum ImperativeFrame {
    Open(u32, u32),
    Spare(u32),
    Strike(u32, u32),
}

impl View for ImperativeFrame {
    type V = Frame;

    open spec fn view(&self) -> Frame {
        match *self {
            ImperativeFrame::Open(a, b) => Frame::Open(a, b),
            ImperativeFrame::Spare(b) => Frame::Spare(b),
            ImperativeFrame::Strike(b1, b2) => Frame::Strike(b1, b2),
        }
    }
}

/// The model of each frame of a sequence.
pub open spec fn frames_of(v: Seq<ImperativeFrame>) -> Seq<Frame> {
    v.map_values(|f: ImperativeFrame| f@)
}

impl ImperativeFrame {
    /// The frame at the start of `game`, or `None` where it starts none.
    pub fn chunk_to_frame(game: &[u32]) -> (r: Option<ImperativeFrame>)
        ensures
            r is Some <==> classify(game@) is Some,
            r matches Some(f) ==> f@ == classify(game@).unwrap(),
    {
        let n = game.len();
        if n >= 3 && game[0] == PINS {
            Some(ImperativeFrame::Strike(game[1], game[2]))
        } else if n >= 3 && game[0] <= PINS && game[1] == PINS - game[0] {
            Some(ImperativeFrame::Spare(game[2]))
        } else if n >= 2 && game[0] < PINS && game[1] < PINS - game[0] {
            Some(ImperativeFrame::Open(game[0], game[1]))
        } else {
            None
        }
    }

    /// The frames of a whole roll sequence, or `None` where it is no well-formed game.
    pub fn to_frame(game: &[u32]) -> (r: Option<Vec<ImperativeFrame>>)
        ensures
            r is Some <==> segment(game@) is Some,
            r matches Some(v) ==> segment(game@) == Some(frames_of(v@)),
    {
        let mut vector: Vec<ImperativeFrame> = Vec::new();
        let mut next_game: &[u32] = game;
        let mut remaining: usize = next_game.len();
        while remaining > 0
            invariant
                remaining == next_game@.len(),
                segment(game@) == prepend(frames_of(vector@), segment(next_game@)),
            decreases remaining,
        {
            let frame = match ImperativeFrame::chunk_to_frame(next_game) {
                Some(f) => f,
                None => return None,
            };
            let ghost before = next_game@;
            let ghost frames_before = vector@;
            // With three rolls left a strike or a spare ends the game: what follows it
            // was its bonus, not a frame of its own.
            let advance: usize = match frame {
                ImperativeFrame::Strike(..) => if remaining == 3 { remaining } else { 1 },
                ImperativeFrame::Spare(..) => if remaining == 3 { remaining } else { 2 },
                ImperativeFrame::Open(..) => 2,
            };
            next_game = slice_subrange(next_game, advance, remaining);
            vector.push(frame);
            remaining = next_game.len();
            proof {
                assert(advance == step(frame@, before.len()));
                assert(frames_of(vector@) =~= frames_of(frames_before) + seq![frame@]);
                match segment(next_game@) {
                    None => {},
                    Some(rest) => {
                        assert(frames_of(vector@) + rest =~= frames_of(frames_before) + (seq![frame@] + rest));
                    },
                }
            }
        }
        assert(next_game@ =~= Seq::<u32>::empty());
        assert(frames_of(vector@) + Seq::<Frame>::empty() =~= frames_of(vector@));
        Some(vector)
    }

    /// The points of each frame, in order: an open frame scores its two rolls, a spare ten
    /// and its bonus roll, a strike ten and its two bonus rolls. Each frame's points must fit
    /// in a `u32`; for frames segmented from rolls of at most ten pins they are at most thirty.
    pub fn frame_list_to_score(game: &Vec<ImperativeFrame>) -> (r: Vec<u32>)
        requires
            forall|i: int| 0 <= i < game@.len() ==> points(#[trigger] game@[i]@) <= u32::MAX,
        ensures
            r@.len() == game@.len(),
            forall|i: int| 0 <= i < game@.len() ==> r@[i] as int == points(#[trigger] game@[i]@),
    {
        let mut out: Vec<u32> = Vec::new();
        let mut i: usize = 0;
        while i < game.len()
            invariant
                i <= game@.len(),
                out@.len() == i,
                forall|j: int| 0 <= j < i ==> out@[j] as int == points(#[trigger] game@[j]@),
                forall|j: int| 0 <= j < game@.len() ==> points(#[trigger] game@[j]@) <= u32::MAX,
            decreases game@.len() - i,
        {
            let f = game[i];
            assert(points(game@[i as int]@) <= u32::MAX);
            let p: u32 = match f {
                ImperativeFrame::Strike(x, y) => x + y + PINS,
                ImperativeFrame::Spare(x) => x + PINS,
                ImperativeFrame::Open(x, y) => x + y,
            };
            out.push(p);
            i = i + 1;
        }
        out
    }
}

} // verus!
