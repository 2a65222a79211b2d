//! Ranking of the viable candidates of one band: minimum squared Euclidean
//! distance to the starting position, ties resolved to the candidate that
//! appeared first in perimeter-scan order.

use vstd::prelude::*;
use crate::position::Position;
use crate::position::dist2;

verus! {

/// Folds one more response into the best candidate seen so far. A new
/// candidate replaces the current best only when it is strictly closer, so
/// on a tie the earlier candidate is kept.
pub open spec fn step_best(start: Position, acc: Option<Position>, outcome: Option<Position>) -> Option<
    Position,
> {
    match outcome {
        None => acc,
        Some(c) => match acc {
            None => Some(c),
            Some(b) => if dist2(start, c) < dist2(start, b) {
                Some(c)
            } else {
                acc
            },
        },
    }
}

/// Folds the responses from index `i` onward into the accumulator `acc`.
pub open spec fn fold_best_from(
    start: Position,
    resp: Seq<Option<Position>>,
    i: int,
    acc: Option<Position>,
) -> Option<Position>
    decreases resp.len() - i,
{
    if i < 0 || i >= resp.len() {
        acc
    } else {
        fold_best_from(start, resp, i + 1, step_best(start, acc, resp[i]))
    }
}

/// The best viable candidate of a band, given the responses for its
/// perimeter points in scan order: the first candidate of minimum squared
/// distance to `start`, or `None` when every response is `None`.
pub open spec fn band_best(start: Position, resp: Seq<Option<Position>>) -> Option<Position> {
    fold_best_from(start, resp, 0, None)
}

/// The fold yields `None` exactly when the accumulator is `None` and every
/// remaining response is `None`.
proof fn lemma_fold_none(start: Position, resp: Seq<Option<Position>>, i: int, acc: Option<
    Position,
>)
    requires
        0 <= i,
    ensures
        fold_best_from(start, resp, i, acc) is None <==> (acc is None && forall|t: int|
            i <= t < resp.len() ==> resp[t] is None),
    decreases resp.len() - i,
{
    if i < 0 || i >= resp.len() {
    } else {
        lemma_fold_none(start, resp, i + 1, step_best(start, acc, resp[i]));
    }
}

/// Where the fold yields `Some(b)`, the candidate `b` either is the
/// accumulator and no remaining response beats it, or stands at a witness
/// index `i0`: no response from `i` on is strictly closer, every viable
/// response before `i0` is strictly farther, and `b` beats the accumulator
/// strictly. The witness `-1` marks the accumulator case.
proof fn lemma_fold_some(
    start: Position,
    resp: Seq<Option<Position>>,
    i: int,
    acc: Option<Position>,
    b: Position,
) -> (i0: int)
    requires
        0 <= i,
        fold_best_from(start, resp, i, acc) == Some(b),
    ensures
        forall|t: int|
            i <= t < resp.len() && resp[t] is Some ==> dist2(start, b) <= dist2(start, resp[t]->0),
        i0 == -1 ==> acc == Some(b),
        i0 != -1 ==> {
            &&& i <= i0 < resp.len()
            &&& resp[i0] == Some(b)
            &&& (forall|t: int|
                i <= t < i0 && resp[t] is Some ==> dist2(start, resp[t]->0) > dist2(start, b))
            &&& (acc matches Some(a) ==> dist2(start, a) > dist2(start, b))
        },
    decreases resp.len() - i,
{
    if i < 0 || i >= resp.len() {
        -1
    } else {
        let acc2 = step_best(start, acc, resp[i]);
        let w = lemma_fold_some(start, resp, i + 1, acc2, b);
        assert forall|t: int|
            i <= t < resp.len() && resp[t] is Some implies dist2(start, b) <= dist2(
            start,
            resp[t]->0,
        ) by {
            if t == i {
                assert(acc2 == step_best(start, acc, resp[i]));
            }
        }
        if w == -1 {
            // b came out of acc2.
            match resp[i] {
                None => -1,
                Some(c) => {
                    match acc {
                        None => i,
                        Some(a) => {
                            if dist2(start, c) < dist2(start, a) {
                                i
                            } else {
                                -1
                            }
                        },
                    }
                },
            }
        } else {
            w
        }
    }
}

/// Within-band optimality: where a band's responses yield a best candidate,
/// that candidate is one of the responses, no viable response is strictly
/// closer to the starting position, and every viable response before it in
/// scan order is strictly farther — ties go to the first in scan order. The
/// returned index is such a witness.
pub proof fn lemma_band_best_first_min(start: Position, resp: Seq<Option<Position>>, b: Position) -> (
    i0: int)
    requires
        band_best(start, resp) == Some(b),
    ensures
        0 <= i0 < resp.len(),
        resp[i0] == Some(b),
        forall|t: int|
            0 <= t < resp.len() && resp[t] is Some ==> dist2(start, b) <= dist2(start, resp[t]->0),
        forall|t: int|
            0 <= t < i0 && resp[t] is Some ==> dist2(start, resp[t]->0) > dist2(start, b),
{
    lemma_fold_some(start, resp, 0, None, b)
}

/// A band yields no best candidate exactly when none of its responses is
/// viable.
pub proof fn lemma_band_best_none(start: Position, resp: Seq<Option<Position>>)
    ensures
        band_best(start, resp) is None <==> (forall|t: int| 0 <= t < resp.len() ==> resp[t] is None),
{
    lemma_fold_none(start, resp, 0, None);
}

} // verus!
