//! The expanding-ring nearest-candidate search.
//!
//! [`RingSearch`] is the search driver as a state machine: it hands out the
//! next region coordinate to query and consumes the oracle's answer for it,
//! one perimeter point at a time, so that a caller owning a live oracle can
//! run the loop. [`gen`] runs the whole search against an oracle given as a
//! finite table, and is proved to return exactly [`spec_search`]: the best
//! viable candidate of the lowest non-empty band, or `None` when the radius
//! is exhausted.

use vstd::prelude::*;
use crate::band::band_points;
use crate::band::band_perimeter;
use crate::band::points_upto;
use crate::oracle::OracleTable;
use crate::oracle::lookup;
use crate::position::Position;
use crate::position::dist2_exact;
use crate::position::region_pos;
use crate::position::to_region;
use crate::ranking::band_best;
use crate::ranking::fold_best_from;
use crate::ranking::step_best;

verus! {

/// The oracle's answers for the perimeter points of band `j`, in scan order:
/// each point is converted to region space and looked up in the table.
pub open spec fn band_responses(
    tbl: Seq<(Position, Position)>,
    start: Position,
    step: int,
    j: int,
) -> Seq<Option<Position>> {
    Seq::new(
        band_points(start, step, j).len(),
        |i: int| lookup(tbl, region_pos(band_points(start, step, j)[i])),
    )
}

/// How much of the search radius is left from band `j` on; a termination
/// measure for the band recursion.
pub open spec fn bands_left(step: int, max: int, j: int) -> int {
    if max - j * step >= 0 {
        max - j * step
    } else {
        0
    }
}

/// The search result from band `j` on: the best candidate of the first band
/// at or after `j` whose responses contain a viable candidate, or `None`
/// when every band up to the maximum radius is empty. Bands are the offsets
/// `j * step` for `j * step < max`.
pub open spec fn search_from(
    tbl: Seq<(Position, Position)>,
    start: Position,
    step: int,
    max: int,
    j: int,
) -> Option<Position>
    decreases bands_left(step, max, j),
        when step >= 1 && j >= 0
        via search_from_decreases
{
    if j * step >= max {
        None
    } else {
        match band_best(start, band_responses(tbl, start, step, j)) {
            Some(c) => Some(c),
            None => search_from(tbl, start, step, max, j + 1),
        }
    }
}

#[via_fn]
proof fn search_from_decreases(
    tbl: Seq<(Position, Position)>,
    start: Position,
    step: int,
    max: int,
    j: int,
) {
    lemma_next_band_offset(step, j);
}

/// The offset of the next band is exactly one step beyond the current one.
proof fn lemma_next_band_offset(step: int, j: int)
    ensures
        (j + 1) * step == j * step + step,
{
    assert((j + 1) * step == j * step + step) by (nonlinear_arith);
}

/// The result of the whole ring search: starting at band 0, the best viable
/// candidate of the lowest band that has one.
pub open spec fn spec_search(
    tbl: Seq<(Position, Position)>,
    start: Position,
    step: int,
    max: int,
) -> Option<Position> {
    search_from(tbl, start, step, max, 0)
}

/// A valid search configuration: a positive step, a non-negative maximum
/// radius, and a starting position far enough from the `i32` bounds that
/// every perimeter coordinate up to the maximum radius stays representable.
pub open spec fn config_ok(start: Position, step: int, max: int) -> bool {
    &&& 1 <= step
    &&& 0 <= max
    &&& i32::MIN <= start.x - max
    &&& start.x + max <= i32::MAX
    &&& i32::MIN <= start.z - max
    &&& start.z + max <= i32::MAX
}

/// Decides [`config_ok`] at run time, so that an unverified caller can test
/// a configuration before starting a search.
pub fn config_valid(start: &Position, step: i32, max_radius: i32) -> (r: bool)
    ensures
        r == config_ok(*start, step as int, max_radius as int),
{
    1 <= step && 0 <= max_radius && (i32::MIN as i64) <= (start.x as i64) - (max_radius as i64)
        && (start.x as i64) + (max_radius as i64) <= (i32::MAX as i64) && (i32::MIN as i64) <= (
    start.z as i64) - (max_radius as i64) && (start.z as i64) + (max_radius as i64) <= (
    i32::MAX as i64)
}

/// The search driver. While the search is running, `band` is the index of
/// the band being scanned, `pts` its perimeter points, `idx` the next point
/// to query, and `best` the best viable candidate reported so far in this
/// band. Once `done`, `found` holds the search result. The ghost counter
/// `queried` tracks how many oracle answers have been consumed: exactly one
/// per perimeter point visited.
pub struct RingSearch {
    pub start: Position,
    pub step: i32,
    pub max_radius: i32,
    pub band: i32,
    pub idx: usize,
    pub pts: Vec<Position>,
    pub best: Option<Position>,
    pub done: bool,
    pub found: Option<Position>,
    pub queried: Ghost<int>,
}

impl RingSearch {
    /// Well-formedness: the configuration is valid and, while running, the
    /// scan position denotes a perimeter point of the current band.
    pub open spec fn wf(self) -> bool {
        &&& config_ok(self.start, self.step as int, self.max_radius as int)
        &&& (!self.done ==> {
            &&& 0 <= self.band
            &&& (self.band as int) * (self.step as int) < self.max_radius
            &&& self.pts@ == band_points(self.start, self.step as int, self.band as int)
            &&& self.idx < self.pts@.len()
            &&& self.queried@ == points_upto(self.start, self.step as int, self.band as int)
                + self.idx
        })
    }

    /// Starts a search at band 0. With a zero maximum radius there is no
    /// band to scan and the search is immediately exhausted.
    pub fn new(start: Position, step: i32, max_radius: i32) -> (s: RingSearch)
        requires
            config_ok(start, step as int, max_radius as int),
        ensures
            s.wf(),
            s.start == start,
            s.step == step,
            s.max_radius == max_radius,
            max_radius == 0 ==> s.done && s.found is None,
            max_radius > 0 ==> !s.done && s.band == 0 && s.idx == 0 && s.best is None,
            s.queried@ == 0,
    {
        if max_radius > 0 {
            let pts = band_perimeter(&start, step, 0);
            RingSearch {
                start,
                step,
                max_radius,
                band: 0,
                idx: 0,
                pts,
                best: None,
                done: false,
                found: None,
                queried: Ghost(0),
            }
        } else {
            RingSearch {
                start,
                step,
                max_radius,
                band: 0,
                idx: 0,
                pts: Vec::new(),
                best: None,
                done: true,
                found: None,
                queried: Ghost(0),
            }
        }
    }

    /// Whether the search has finished.
    pub fn is_done(&self) -> (r: bool)
        ensures
            r == self.done,
    {
        self.done
    }

    /// The next region coordinate to hand to the oracle, or `None` once the
    /// search has finished. The current perimeter point is converted to
    /// region space here; the caller passes the result to the oracle as it
    /// stands.
    pub fn next_query(&self) -> (q: Option<Position>)
        requires
            self.wf(),
        ensures
            self.done ==> q is None,
            !self.done ==> q == Some(region_pos(self.pts@[self.idx as int])),
    {
        if self.done {
            None
        } else {
            Some(to_region(&self.pts[self.idx]))
        }
    }

    /// Consumes the oracle's answer for the current query: the viable
    /// candidate at that region coordinate, or `None`. The answer is folded
    /// into the band's running best; at the end of a band the search either
    /// finishes with the band's best candidate, moves to the next band, or
    /// finishes exhausted when the next band would reach the maximum radius.
    pub fn report(&mut self, outcome: Option<Position>)
        requires
            old(self).wf(),
            !old(self).done,
        ensures
            final(self).wf(),
            final(self).start == old(self).start,
            final(self).step == old(self).step,
            final(self).max_radius == old(self).max_radius,
            final(self).queried@ == old(self).queried@ + 1,
            ({
                let acc2 = step_best(old(self).start, old(self).best, outcome);
                let npts = band_points(
                    old(self).start,
                    old(self).step as int,
                    old(self).band as int,
                ).len();
                if old(self).idx + 1 < npts {
                    &&& !final(self).done
                    &&& final(self).band == old(self).band
                    &&& final(self).idx == old(self).idx + 1
                    &&& final(self).pts == old(self).pts
                    &&& final(self).best == acc2
                } else if acc2 is Some {
                    &&& final(self).done
                    &&& final(self).found == acc2
                } else if (old(self).band + 1) * (old(self).step as int) < old(self).max_radius {
                    &&& !final(self).done
                    &&& final(self).band == old(self).band + 1
                    &&& final(self).idx == 0
                    &&& final(self).best is None
                } else {
                    &&& final(self).done
                    &&& final(self).found is None
                    &&& final(self).queried@ == points_upto(
                        old(self).start,
                        old(self).step as int,
                        old(self).band + 1,
                    )
                }
            }),
    {
        proof {
            self.queried@ = self.queried@ + 1;
        }
        let acc2: Option<Position> = match outcome {
            None => self.best,
            Some(c) => match self.best {
                None => Some(c),
                Some(b) => {
                    if dist2_exact(&self.start, &c) < dist2_exact(&self.start, &b) {
                        Some(c)
                    } else {
                        Some(b)
                    }
                },
            },
        };
        assert(acc2 == step_best(self.start, self.best, outcome));
        let npts: usize = self.pts.len();
        if self.idx + 1 < npts {
            self.best = acc2;
            self.idx = self.idx + 1;
        } else if acc2.is_some() {
            self.done = true;
            self.found = acc2;
        } else {
            proof {
                let jb = old(self).band as int;
                let st = old(self).step as int;
                assert((jb + 1) * st >= jb + 1 && (jb + 1) * st < 0x7fff_ffff_ffff_ffff) by (
                nonlinear_arith)
                    requires
                        0 <= jb <= 0x8000_0000 && 1 <= st <= 0x8000_0000,
                ;
            }
            let next_offset: i64 = (self.band as i64 + 1) * (self.step as i64);
            if next_offset < self.max_radius as i64 {
                self.band = self.band + 1;
                self.pts = band_perimeter(&self.start, self.step, self.band);
                self.idx = 0;
                self.best = None;
            } else {
                self.done = true;
                self.found = None;
            }
        }
    }

    /// The search result, once the search has finished.
    pub fn search_result(&self) -> (r: Option<Position>)
        requires
            self.wf(),
            self.done,
        ensures
            r == self.found,
    {
        self.found
    }
}

/// Measure: radius left beyond the current band.
spec fn measure_band(s: RingSearch) -> int {
    if s.done {
        0
    } else {
        s.max_radius - (s.band as int) * (s.step as int)
    }
}

/// Measure: perimeter points left in the current band.
spec fn measure_idx(s: RingSearch) -> int {
    if s.done {
        0
    } else {
        s.pts@.len() - s.idx
    }
}

/// Runs the whole ring search against a pure oracle given as a finite table,
/// and returns the nearest viable candidate: the best candidate of the
/// lowest-indexed band containing a viable one, or `None` when no band up to
/// the maximum radius has any.
pub fn gen(oracle: &OracleTable, starting_position: &Position, step: i32, max_radius: i32) -> (r:
    Option<Position>)
    requires
        config_ok(*starting_position, step as int, max_radius as int),
    ensures
        r == spec_search(oracle.entries@, *starting_position, step as int, max_radius as int),
{
    let start: Position = *starting_position;
    let ghost tbl = oracle.entries@;
    let mut s = RingSearch::new(start, step, max_radius);
    loop
        invariant
            s.wf(),
            s.start == start,
            s.step == step,
            s.max_radius == max_radius,
            tbl == oracle.entries@,
            start == *starting_position,
            config_ok(start, step as int, max_radius as int),
            !s.done ==> spec_search(tbl, start, step as int, max_radius as int) == search_from(
                tbl,
                start,
                step as int,
                max_radius as int,
                s.band as int,
            ),
            !s.done ==> band_best(
                start,
                band_responses(tbl, start, step as int, s.band as int),
            ) == fold_best_from(
                start,
                band_responses(tbl, start, step as int, s.band as int),
                s.idx as int,
                s.best,
            ),
            s.done ==> s.found == spec_search(tbl, start, step as int, max_radius as int),
        decreases measure_band(s), measure_idx(s),
    {
        match s.next_query() {
            None => {
                return s.search_result();
            },
            Some(q) => {
                let ghost j = s.band as int;
                let ghost i = s.idx as int;
                let ghost resp = band_responses(tbl, start, step as int, j);
                let ghost best0 = s.best;
                let outcome = oracle.lookup_region(&q);
                proof {
                    assert(outcome == resp[i]);
                }
                s.report(outcome);
                proof {
                    lemma_next_band_offset(step as int, j);
                    let acc2 = step_best(start, best0, outcome);
                    assert(fold_best_from(start, resp, i, best0) == fold_best_from(
                        start,
                        resp,
                        i + 1,
                        acc2,
                    ));
                    if i + 1 < resp.len() {
                        // still inside band j: the fold invariant advanced by one
                    } else {
                        assert(fold_best_from(start, resp, i + 1, acc2) == acc2);
                        assert(band_best(start, resp) == acc2);
                        if acc2 is Some {
                            assert(search_from(tbl, start, step as int, max_radius as int, j)
                                == acc2);
                        } else {
                            assert(search_from(tbl, start, step as int, max_radius as int, j)
                                == search_from(tbl, start, step as int, max_radius as int, j + 1));
                            if (j + 1) * (step as int) < max_radius {
                                // moved to band j + 1 with an empty fold
                            } else {
                                assert(search_from(
                                    tbl,
                                    start,
                                    step as int,
                                    max_radius as int,
                                    j + 1,
                                ) is None);
                            }
                        }
                    }
                }
            },
        }
    }
}

/// Determinism: the search result is a function of the oracle's answers and
/// the starting configuration alone, so repeated runs on equal inputs return
/// identical results.
pub proof fn lemma_deterministic(
    tbl1: Seq<(Position, Position)>,
    tbl2: Seq<(Position, Position)>,
    start1: Position,
    start2: Position,
    step1: int,
    step2: int,
    max1: int,
    max2: int,
)
    requires
        tbl1 == tbl2,
        start1 == start2,
        step1 == step2,
        max1 == max2,
    ensures
        spec_search(tbl1, start1, step1, max1) == spec_search(tbl2, start2, step2, max2),
{
}

/// Helper for band monotonicity: a found result comes from the first band at
/// or after `j0` with a viable candidate.
proof fn lemma_search_from_found(
    tbl: Seq<(Position, Position)>,
    start: Position,
    step: int,
    max: int,
    j0: int,
    c: Position,
) -> (j: int)
    requires
        step >= 1,
        j0 >= 0,
        search_from(tbl, start, step, max, j0) == Some(c),
    ensures
        j0 <= j,
        j * step < max,
        band_best(start, band_responses(tbl, start, step, j)) == Some(c),
        forall|j2: int|
            j0 <= j2 < j ==> band_best(start, band_responses(tbl, start, step, j2)) is None,
    decreases bands_left(step, max, j0),
{
    lemma_next_band_offset(step, j0);
    if band_best(start, band_responses(tbl, start, step, j0)) is Some {
        j0
    } else {
        lemma_search_from_found(tbl, start, step, max, j0 + 1, c)
    }
}

/// Band monotonicity: where the search returns a candidate, that candidate
/// is the best of some band whose every lower-indexed band has no viable
/// candidate at all; the returned value is that band's index.
pub proof fn lemma_band_monotonic(
    tbl: Seq<(Position, Position)>,
    start: Position,
    step: int,
    max: int,
    c: Position,
) -> (j: int)
    requires
        step >= 1,
        spec_search(tbl, start, step, max) == Some(c),
    ensures
        0 <= j,
        j * step < max,
        band_best(start, band_responses(tbl, start, step, j)) == Some(c),
        forall|j2: int|
            0 <= j2 < j ==> band_best(start, band_responses(tbl, start, step, j2)) is None,
{
    lemma_search_from_found(tbl, start, step, max, 0, c)
}

/// Helper for exhaustion: the search from `j0` on fails exactly when every
/// band from `j0` up to the maximum radius has no viable candidate.
proof fn lemma_search_from_none(
    tbl: Seq<(Position, Position)>,
    start: Position,
    step: int,
    max: int,
    j0: int,
)
    requires
        step >= 1,
        j0 >= 0,
    ensures
        search_from(tbl, start, step, max, j0) is None <==> (forall|j: int|
            j0 <= j && j * step < max ==> band_best(start, band_responses(tbl, start, step, j))
                is None),
    decreases bands_left(step, max, j0),
{
    if j0 * step >= max {
        assert forall|j: int| j0 <= j && j * step < max implies band_best(
            start,
            band_responses(tbl, start, step, j),
        ) is None by {
            assert(j * step >= j0 * step) by (nonlinear_arith)
                requires
                    j >= j0 && step >= 1,
            ;
        }
    } else {
        lemma_next_band_offset(step, j0);
        lemma_search_from_none(tbl, start, step, max, j0 + 1);
    }
}

/// Exhaustion: the search returns `None` exactly when no band up to the
/// maximum radius has a viable candidate among its perimeter queries.
pub proof fn lemma_exhaustion(
    tbl: Seq<(Position, Position)>,
    start: Position,
    step: int,
    max: int,
)
    requires
        step >= 1,
    ensures
        spec_search(tbl, start, step, max) is None <==> (forall|j: int|
            0 <= j && j * step < max ==> band_best(start, band_responses(tbl, start, step, j))
                is None),
{
    lemma_search_from_none(tbl, start, step, max, 0);
}

/// Degenerate band 0: where the starting position's own region conversion
/// is a viable candidate, the search returns it immediately, whatever the
/// rest of the oracle reports.
pub proof fn lemma_band_zero(
    tbl: Seq<(Position, Position)>,
    start: Position,
    step: int,
    max: int,
    c: Position,
)
    requires
        step >= 1,
        max > 0,
        lookup(tbl, region_pos(start)) == Some(c),
    ensures
        spec_search(tbl, start, step, max) == Some(c),
{
    let resp = band_responses(tbl, start, step, 0);
    assert(band_points(start, step, 0) == seq![start]);
    assert(resp[0] == Some(c));
    assert(band_best(start, resp) == fold_best_from(start, resp, 1, Some(c)));
}

} // verus!
