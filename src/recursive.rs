//! Segmentation by taking the first frame off and recurring on the rest.

use vstd::prelude::*;
use vstd::slice::slice_subrange;
use crate::frame::{Frame, segment, points, PINS};

verus! {

/// A frame as the recursive strategy builds it.
#[derive(Clone, Copy, Debug, PartialEq, Eq)]
pub enum RecursiveFrame {
    Open(u32, u32),
    Spare(u32),
    Strike(u32, u32),
}

impl View for RecursiveFrame {
    type V = Frame;

    open spec fn view(&self) -> Frame {
        match *self {
            RecursiveFrame::Open(a, b) => Frame::Open(a, b),
            RecursiveFrame::Spare(b) => Frame::Spare(b),
            RecursiveFrame::Strike(b1, b2) => Frame::Strike(b1, b2),
        }
    }
}

/// The model of each frame of a sequence.
pub open spec fn frames_of(v: Seq<RecursiveFrame>) -> Seq<Frame> {
    v.map_values(|f: RecursiveFrame| f@)
}

/// `head` followed by `rest`.
fn cons(head: RecursiveFrame, rest: Vec<RecursiveFrame>) -> (r: Vec<RecursiveFrame>)
    ensures
        frames_of(r@) == seq![head@] + frames_of(rest@),
{
    let ghost tail = rest@;
    let mut rest = rest;
    let mut r: Vec<RecursiveFrame> = Vec::new();
    r.push(head);
    r.append(&mut rest);
    assert(frames_of(r@) =~= seq![head@] + frames_of(tail));
    r
}

impl RecursiveFrame {
    /// The frames of a whole roll sequence, or `None` where it is no well-formed game.
    pub fn to_frame(game: &[u32]) -> (r: Option<Vec<RecursiveFrame>>)
        ensures
            r is Some <==> segment(game@) is Some,
            r matches Some(v) ==> segment(game@) == Some(frames_of(v@)),
        decreases game@.len(),
    {
        let n = game.len();
        if n == 0 {
            return Some(Vec::new());
        }
        let ghost g = game@;
        if n >= 3 && game[0] == PINS {
            let head = RecursiveFrame::Strike(game[1], game[2]);
            if n == 3 {
                // The last frame: the two rolls after it were its bonus.
                assert(g.subrange(3, 3) =~= Seq::<u32>::empty());
                assert(segment(g.subrange(3, 3)) == Some(Seq::<Frame>::empty()));
                let last = cons(head, Vec::new());
                assert(frames_of(last@) =~= seq![head@] + Seq::<Frame>::empty());
                return Some(last);
            }
            let rest = match RecursiveFrame::to_frame(slice_subrange(game, 1, n)) {
                Some(v) => v,
                None => return None,
            };
            Some(cons(head, rest))
        } else if n >= 3 && game[0] <= PINS && game[1] == PINS - game[0] {
            let head = RecursiveFrame::Spare(game[2]);
            if n == 3 {
                assert(g.subrange(3, 3) =~= Seq::<u32>::empty());
                assert(segment(g.subrange(3, 3)) == Some(Seq::<Frame>::empty()));
                let last = cons(head, Vec::new());
                assert(frames_of(last@) =~= seq![head@] + Seq::<Frame>::empty());
                return Some(last);
            }
            let rest = match RecursiveFrame::to_frame(slice_subrange(game, 2, n)) {
                Some(v) => v,
                None => return None,
            };
            Some(cons(head, rest))
        } else if n >= 2 && game[0] < PINS && game[1] < PINS - game[0] {
            let head = RecursiveFrame::Open(game[0], game[1]);
            let rest = match RecursiveFrame::to_frame(slice_subrange(game, 2, n)) {
                Some(v) => v,
                None => return None,
            };
            Some(cons(head, rest))
        } else {
            None
        }
    }

    /// The points of each frame, in order: an open frame scores its two rolls, a spare ten
    /// and its bonus roll, a strike ten and its two bonus rolls. Each frame's points must fit
    /// in a `u32`; for frames segmented from rolls of at most ten pins they are at most thirty.
    pub fn frame_list_to_score(game: &Vec<RecursiveFrame>) -> (r: Vec<u32>)
        requires
            forall|i: int| 0 <= i < game@.len() ==> points(#[trigger] game@[i]@) <= u32::MAX,
        ensures
            r@.len() == game@.len(),
            forall|i: int| 0 <= i < game@.len() ==> r@[i] as int == points(#[trigger] game@[i]@),
    {
        let mut out: Vec<u32> = Vec::new();
        let mut i: usize = 0;
        while i < game.len()
            invariant
                i <= game@.len(),
                out@.len() == i,
                forall|j: int| 0 <= j < i ==> out@[j] as int == points(#[trigger] game@[j]@),
                forall|j: int| 0 <= j < game@.len() ==> points(#[trigger] game@[j]@) <= u32::MAX,
            decreases game@.len() - i,
        {
            let f = game[i];
            assert(points(game@[i as int]@) <= u32::MAX);
            let p: u32 = match f {
                RecursiveFrame::Strike(x, y) => x + y + PINS,
                RecursiveFrame::Spare(x) => x + PINS,
                RecursiveFrame::Open(x, y) => x + y,
            };
            out.push(p);
            i = i + 1;
        }
        out
    }
}

} // verus!
