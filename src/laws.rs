//! Properties that relate several calls of the library.

use vstd::prelude::*;
use crate::frame::{Frame, classify, segment, step, points, scores, total, lemma_segment_nonempty};
use crate::imperative::{self, ImperativeFrame};
use crate::recursive::{self, RecursiveFrame};

verus! {

/// Both strategies accept the same roll sequences and cut them into the same frames; the
/// score lists that the two scorers give for those frames are equal, and so is the total.
pub proof fn lemma_strategies_agree(
    game: Seq<u32>,
    by_cursor: Option<Seq<ImperativeFrame>>,
    by_recursion: Option<Seq<RecursiveFrame>>,
    cursor_scores: Seq<u32>,
    recursion_scores: Seq<u32>,
)
    requires
        by_cursor is Some <==> segment(game) is Some,
        by_cursor matches Some(v) ==> segment(game) == Some(imperative::frames_of(v)),
        by_recursion is Some <==> segment(game) is Some,
        by_recursion matches Some(v) ==> segment(game) == Some(recursive::frames_of(v)),
        by_cursor matches Some(v) ==> {
            &&& cursor_scores.len() == v.len()
            &&& forall|i: int| 0 <= i < v.len() ==> cursor_scores[i] as int == points(#[trigger] v[i]@)
        },
        by_recursion matches Some(v) ==> {
            &&& recursion_scores.len() == v.len()
            &&& forall|i: int| 0 <= i < v.len() ==> recursion_scores[i] as int == points(#[trigger] v[i]@)
        },
    ensures
        by_cursor is Some <==> by_recursion is Some,
        by_cursor is Some ==> {
            &&& imperative::frames_of(by_cursor.unwrap()) == recursive::frames_of(by_recursion.unwrap())
            &&& cursor_scores == recursion_scores
            &&& total(scores(imperative::frames_of(by_cursor.unwrap()))) == total(
                scores(recursive::frames_of(by_recursion.unwrap())),
            )
        },
{
    if by_cursor is Some {
        let a = by_cursor.unwrap();
        let b = by_recursion.unwrap();
        let fa = imperative::frames_of(a);
        let fb = recursive::frames_of(b);
        assert(fa == fb);
        assert(a.len() == fa.len() && b.len() == fb.len());
        assert(cursor_scores.len() == a.len() && recursion_scores.len() == b.len());
        assert forall|i: int| 0 <= i < cursor_scores.len() implies cursor_scores[i] == recursion_scores[i] by {
            assert(fa[i] == a[i]@);
            assert(fb[i] == b[i]@);
            assert(cursor_scores[i] as int == points(a[i]@));
            assert(recursion_scores[i] as int == points(b[i]@));
        }
        assert(cursor_scores =~= recursion_scores);
    }
}

/// Where no roll of a game is above ten pins, no frame of its segmentation scores more than
/// thirty points; so the scorers accept those frames.
pub proof fn lemma_segmented_points_bounded(game: Seq<u32>)
    requires
        segment(game) is Some,
        forall|i: int| 0 <= i < game.len() ==> game[i] <= 10,
    ensures
        forall|i: int|
            0 <= i < segment(game).unwrap().len() ==> 0 <= #[trigger] points(segment(game).unwrap()[i]) <= 30,
    decreases game.len(),
{
    if game.len() > 0 {
        let f = classify(game).unwrap();
        let tail = game.subrange(step(f, game.len()) as int, game.len() as int);
        lemma_segmented_points_bounded(tail);
        let fs = segment(game).unwrap();
        let rest = segment(tail).unwrap();
        assert(fs == seq![f] + rest);
        assert(0 <= points(f) <= 30);
        assert forall|i: int| 0 <= i < fs.len() implies 0 <= #[trigger] points(fs[i]) <= 30 by {
            if i > 0 {
                assert(fs[i] == rest[i - 1]);
            }
        }
    }
}

/// The rolls that a frame sequence without spares stands for. A spare keeps only its bonus
/// roll, so its two rolls cannot be recovered; it contributes nothing here.
pub open spec fn flatten(fs: Seq<Frame>) -> Seq<u32>
    decreases fs.len(),
{
    if fs.len() == 0 {
        Seq::empty()
    } else {
        let rest = flatten(fs.subrange(1, fs.len() as int));
        match fs[0] {
            Frame::Open(a, b) => seq![a, b] + rest,
            Frame::Strike(b1, b2) => if fs.len() == 1 {
                seq![10u32, b1, b2]
            } else {
                seq![10u32] + rest
            },
            Frame::Spare(_) => rest,
        }
    }
}

/// No frame of the sequence is a spare.
pub open spec fn spare_free(fs: Seq<Frame>) -> bool {
    forall|i: int| 0 <= i < fs.len() ==> !(#[trigger] fs[i] is Spare)
}

/// Where a game's frames hold no spare, flattening them gives the game back, and segmenting
/// that again gives the same frames.
pub proof fn lemma_resegment_flattened(game: Seq<u32>)
    requires
        segment(game) is Some,
        spare_free(segment(game).unwrap()),
    ensures
        flatten(segment(game).unwrap()) == game,
        segment(flatten(segment(game).unwrap())) == segment(game),
    decreases game.len(),
{
    if game.len() > 0 {
        let f = classify(game).unwrap();
        let tail = game.subrange(step(f, game.len()) as int, game.len() as int);
        let fs = segment(game).unwrap();
        let rest = segment(tail).unwrap();
        assert(fs == seq![f] + rest);
        assert(fs.subrange(1, fs.len() as int) =~= rest);
        assert(fs[0] == f);
        assert(spare_free(rest)) by {
            assert forall|i: int| 0 <= i < rest.len() implies !(#[trigger] rest[i] is Spare) by {
                assert(fs[i + 1] == rest[i]);
            }
        }
        lemma_resegment_flattened(tail);
        match f {
            Frame::Open(a, b) => {
                assert(game =~= seq![a, b] + tail);
            },
            Frame::Strike(b1, b2) => {
                if game.len() == 3 {
                    assert(tail.len() == 0);
                    assert(rest.len() == 0);
                    assert(game =~= seq![10u32, b1, b2]);
                } else {
                    lemma_segment_nonempty(tail);
                    assert(game =~= seq![10u32] + tail);
                }
            },
            Frame::Spare(_) => {
                assert(!(fs[0] is Spare));
            },
        }
    }
}

} // verus!
