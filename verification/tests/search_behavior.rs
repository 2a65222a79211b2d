use ring_search::band::band_perimeter;
use ring_search::oracle::OracleTable;
use ring_search::position::{hyp_distance, to_region, Position};
use ring_search::search::{config_valid, gen, RingSearch};

fn pos(x: i32, z: i32) -> Position {
    Position { x, z }
}

/// Drives a search session against a closure oracle, recording every region
/// coordinate queried.
fn run_session<F: FnMut(&Position) -> Option<Position>>(
    start: Position,
    step: i32,
    max_radius: i32,
    mut oracle: F,
) -> (Option<Position>, Vec<Position>) {
    assert!(config_valid(&start, step, max_radius));
    let mut s = RingSearch::new(start, step, max_radius);
    let mut queries: Vec<Position> = Vec::new();
    loop {
        match s.next_query() {
            None => break,
            Some(q) => {
                queries.push(q);
                let outcome = oracle(&q);
                s.report(outcome);
            }
        }
    }
    (s.search_result(), queries)
}

#[test]
fn hyp_distance_exact() {
    assert_eq!(hyp_distance(&pos(0, 0), &pos(3, 4)), 25);
    assert_eq!(hyp_distance(&pos(3, 4), &pos(0, 0)), 25);
    assert_eq!(hyp_distance(&pos(-2, -2), &pos(1, 2)), 25);
    assert_eq!(hyp_distance(&pos(5, 5), &pos(5, 5)), 0);
}

#[test]
fn region_conversion_truncates() {
    for &(x, z) in &[(0, 0), (15, 15), (16, 31), (-1, -15), (-16, -17), (80, 0), (2147483647, -2147483648)] {
        let r = to_region(&pos(x, z));
        assert_eq!(r, pos(x / 16, z / 16));
    }
}

#[test]
fn band_perimeter_band_zero_is_start() {
    let pts = band_perimeter(&pos(7, -3), 16, 0);
    assert_eq!(pts, vec![pos(7, -3)]);
}

#[test]
fn band_perimeter_scan_order() {
    let pts = band_perimeter(&pos(0, 0), 16, 1);
    assert_eq!(
        pts,
        vec![
            pos(-16, -16),
            pos(0, -16), // top edge, x ascending
            pos(-16, 16),
            pos(0, 16), // bottom edge
            pos(-16, -16),
            pos(-16, 0), // left edge, z ascending
            pos(16, -16),
            pos(16, 0), // right edge
        ]
    );
}

#[test]
fn determinism_repeated_runs() {
    let mut t = OracleTable::new();
    t.add(pos(1, -1), pos(9, 1));
    t.add(pos(0, 1), pos(0, 2));
    let first = gen(&t, &pos(0, 0), 16, 64);
    let second = gen(&t, &pos(0, 0), 16, 64);
    assert_eq!(first, second);
    let (r1, q1) = run_session(pos(0, 0), 16, 64, |q| t.lookup_region(q));
    let (r2, q2) = run_session(pos(0, 0), 16, 64, |q| t.lookup_region(q));
    assert_eq!(r1, r2);
    assert_eq!(q1, q2);
    assert_eq!(first, r1);
}

#[test]
fn band_monotonicity_lower_band_wins() {
    // Region (0, -1) is queried in band 1 (from block (0, -16)); region
    // (0, -2) only in band 2 (from block (0, -32)). The band-2 candidate is
    // much closer to the start, yet the band-1 candidate must win.
    let mut t = OracleTable::new();
    t.add(pos(0, -2), pos(0, 0));
    t.add(pos(0, -1), pos(10, 10));
    let r = gen(&t, &pos(0, 0), 16, 64);
    assert_eq!(r, Some(pos(10, 10)));
}

#[test]
fn within_band_closer_candidate_wins() {
    // Both candidates are found in band 1; the one nearer the start wins
    // even though it is reported later in scan order.
    let mut t = OracleTable::new();
    t.add(pos(0, -1), pos(3, 0)); // top edge, squared distance 9
    t.add(pos(-1, 1), pos(1, 1)); // bottom edge, squared distance 2
    let r = gen(&t, &pos(0, 0), 16, 64);
    assert_eq!(r, Some(pos(1, 1)));
}

#[test]
fn within_band_tie_goes_to_first_in_scan_order() {
    // Equal squared distances: the candidate from the top edge is scanned
    // before the one from the bottom edge and must be kept.
    let mut t = OracleTable::new();
    t.add(pos(-1, 1), pos(0, -3)); // bottom edge, squared distance 9
    t.add(pos(0, -1), pos(3, 0)); // top edge, squared distance 9
    let r = gen(&t, &pos(0, 0), 16, 64);
    assert_eq!(r, Some(pos(3, 0)));
}

#[test]
fn exhaustion_returns_none_with_bounded_queries() {
    let t = OracleTable::new();
    assert_eq!(gen(&t, &pos(0, 0), 16, 48), None);
    let (r, queries) = run_session(pos(0, 0), 16, 48, |_| None);
    assert_eq!(r, None);
    // Bands 0, 16, 32: one point, then eight points per further band.
    assert_eq!(queries.len(), 1 + 8 + 16);
}

#[test]
fn degenerate_band_zero_returns_immediately() {
    let mut t = OracleTable::new();
    t.add(pos(0, 0), pos(9, 9));
    assert_eq!(gen(&t, &pos(0, 0), 16, 100_000), Some(pos(9, 9)));
    let (r, queries) = run_session(pos(0, 0), 16, 100_000, |q| t.lookup_region(q));
    assert_eq!(r, Some(pos(9, 9)));
    assert_eq!(queries.len(), 1);
}

#[test]
fn boundary_scenario_band_eighty() {
    // Seed 12345, start (0, 0): the oracle reports a viable candidate only
    // at region (5, 0), reachable from block (80, 0) in band 80.
    let seed: i64 = 12345;
    assert_eq!(ring_search::args::seed_from(seed), 12345u64);
    let mut t = OracleTable::new();
    t.add(pos(5, 0), pos(5, 0));
    let r = gen(&t, &pos(0, 0), 16, 100_000);
    assert_eq!(r, Some(pos(5, 0)));
    let out = format!("{} {}", r.unwrap().x, r.unwrap().z);
    assert_eq!(out, "5 0");
    // No band below 80 may produce a result: with the radius capped at 80
    // the block (80, 0) is never reached and the search is exhausted
    // without ever querying region (5, 0).
    let (r_low, queries) = run_session(pos(0, 0), 16, 80, |q| t.lookup_region(q));
    assert_eq!(r_low, None);
    assert!(queries.iter().all(|q| *q != pos(5, 0)));
}

#[test]
fn duplicate_region_queries_are_harmless() {
    // With step 16 equal to the region size, the corner block (-16, -16)
    // appears on two edges of band 1, so region (-1, -1) is queried twice;
    // the result must not be affected.
    let mut t = OracleTable::new();
    t.add(pos(-1, -1), pos(-1, -1));
    let (r, queries) = run_session(pos(0, 0), 16, 32, |q| t.lookup_region(q));
    assert_eq!(r, Some(pos(-1, -1)));
    let dup = queries.iter().filter(|q| **q == pos(-1, -1)).count();
    assert_eq!(dup, 2);
}

#[test]
fn zero_radius_is_exhausted_without_queries() {
    let t = OracleTable::new();
    assert_eq!(gen(&t, &pos(3, 4), 16, 0), None);
    let (r, queries) = run_session(pos(3, 4), 16, 0, |q| t.lookup_region(q));
    assert_eq!(r, None);
    assert_eq!(queries.len(), 0);
}

#[test]
fn first_matching_table_entry_wins() {
    let mut t = OracleTable::new();
    t.add(pos(0, 0), pos(2, 2));
    t.add(pos(0, 0), pos(1, 1));
    assert_eq!(t.lookup_region(&pos(0, 0)), Some(pos(2, 2)));
    assert_eq!(t.lookup_region(&pos(4, 4)), None);
}

#[test]
fn config_validation_bounds() {
    assert!(config_valid(&pos(0, 0), 16, 100_000));
    assert!(!config_valid(&pos(0, 0), 0, 100_000));
    assert!(!config_valid(&pos(0, 0), 16, -1));
    assert!(!config_valid(&pos(i32::MAX, 0), 16, 100_000));
    assert!(!config_valid(&pos(0, i32::MIN), 16, 100_000));
    assert!(config_valid(&pos(i32::MAX - 100_000, 0), 16, 100_000));
}
