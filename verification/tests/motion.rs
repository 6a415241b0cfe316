//! Cursor steering and calibration.
use kvmshare::motion::gain::Window;
use kvmshare::motion::{GainTracker, MotionProbe, PositionFollower};

/// Nanoseconds in a millisecond.
const MS: u64 = 1_000_000;

#[test]
fn follower_command_never_leaves_the_screen() {
    // The virtual cursor must respect the screen boundary: pushing
    // against an edge runs the command up to the edge and no further,
    // so a reversal moves immediately instead of walking the whole
    // off-screen overshoot back.
    let mut f = PositionFollower::default();
    f.set_bounds(1920, 1080);
    f.enter(100, 100);
    // Sweep far beyond the right and bottom edges: the command clamps.
    f.advance(5000, 4000);
    assert_eq!(f.command(), (1919, 1079));
    // Reversing moves immediately from the edge — no stuck cursor.
    f.advance(-10, 0);
    assert_eq!(f.command(), (1909, 1079));
    // Sweep beyond the top and left edges the same way.
    f.advance(-5000, -5000);
    assert_eq!(f.command(), (0, 0));

    // Another screen, another edge: the command stops at the edge.
    let mut g = PositionFollower::default();
    g.set_bounds(800, 600);
    g.enter(700, 550);
    g.advance(500, 500);
    assert_eq!(g.command(), (799, 599));

    // A resolution shrink re-bounds an out-of-range command.
    let mut h = PositionFollower::default();
    h.set_bounds(1920, 1080);
    h.enter(10, 10);
    h.advance(3000, 3000);
    h.set_bounds(1280, 720);
    assert_eq!(h.command(), (1279, 719));

    // Unknown bounds leave the command free (no mis-clamp to (0,0)).
    let mut k = PositionFollower::default();
    k.enter(10, 10);
    k.advance(-50, 0);
    assert_eq!(k.command(), (-40, 10));

    // Degenerate zero-size bounds clamp to (0, 0) without panicking.
    let mut z = PositionFollower::default();
    z.set_bounds(0, 0);
    z.enter(5, 5);
    z.advance(10, 10);
    assert_eq!(z.command(), (0, 0));
}

#[test]
fn follower_tests_follower_leave_stops_correcting_and_flush_lands_clicks() {
    let mut f = PositionFollower::default();
    f.enter(0, 0);
    assert!(f.is_active());
    f.advance(10, 0);
    let mut at = (6, 0); // the system under-applied (say, one frame lost)
    // Ordering-critical event: flush the whole residual so the click
    // lands on the command point.
    let (dx, dy) = f.flush(at).expect("residual to flush");
    at = (at.0 + dx, at.1 + dy);
    assert_eq!(at, (10, 0));
    assert_eq!(f.error(at), (0, 0));
    assert_eq!(f.flush(at), None);
    // Leaving stops all following.
    f.leave();
    assert!(!f.is_active());
    assert_eq!(f.due((0, 0)), None);
    assert_eq!(f.flush((0, 0)), None);
}

#[test]
fn flush_is_capped() {
    let mut f = PositionFollower::default();
    f.enter(1000, 1000);
    assert_eq!(f.flush((0, 990)), Some((64, 10)));
    assert_eq!(f.flush((2000, 3000)), Some((-64, -64)));
}

#[test]
fn follower_knows_which_frames_it_can_take() {
    let mut f = PositionFollower::default();
    f.enter(i32::MAX, i32::MIN);
    assert!(f.takes(i32::MAX, i32::MIN));
    f.advance(i32::MAX, i32::MIN);
    // The command runs past what a screen coordinate can hold; it is
    // reported at the nearest one.
    assert_eq!(f.command(), (i32::MAX, i32::MIN));
    assert_eq!(f.error((i32::MIN, i32::MAX)), (i32::MAX, i32::MIN));
}

#[test]
fn probe_reports_requested_vs_actual_per_window() {
    let mut p = MotionProbe::new(10 * MS);
    p.enter_at((100, 200), 0);
    p.requested(10, 0);
    p.requested(20, 5);
    // Window elapsed, real cursor moved only 6 px for the 30
    // requested counts: a 0.2 px/count transform (the gel signature).
    let o = p.sample_at((106, 201), 15 * MS).expect("one observation");
    assert_eq!((o.req_dx, o.req_dy), (30, 5), "requested counts for the window");
    assert_eq!((o.act_dx, o.act_dy), (6, 1), "actual travel in the window");
    assert_eq!((o.exp_x, o.exp_y), (30, 5), "expected = anchor + requested");
    assert_eq!((o.real_x, o.real_y), (106, 201), "real position");
}

#[test]
fn probe_lazy_anchors_when_never_entered() {
    // A server-side probe is never explicitly entered: its first due
    // sample must silently anchor and the next one measure.
    let mut p = MotionProbe::new(10 * MS);
    // Counts before the first sample are discarded, not measured.
    p.requested(999, 999);
    assert!(p.sample_at((50, 50), 15 * MS).is_none(), "first sample only anchors");
    assert!(p.active());
    p.requested(100, 0);
    let o = p.sample_at((80, 50), 30 * MS).expect("one observation");
    assert_eq!((o.req_dx, o.req_dy), (100, 0), "only post-anchor counts measured");
    assert_eq!((o.act_dx, o.act_dy), (30, 0));
}

#[test]
fn probe_is_silent_without_motion_or_when_inactive() {
    let mut p = MotionProbe::new(10 * MS);
    // Inactive: never logs.
    assert!(p.sample_at((5, 5), 15 * MS).is_none());
    // Active but idle: window with no motion logs nothing.
    p.enter_at((0, 0), 15 * MS);
    assert!(p.sample_at((0, 0), 30 * MS).is_none());
    // Leaving closes the session.
    p.leave();
    p.requested(1, 1);
    assert!(p.sample_at((1, 1), 45 * MS).is_none());
}

#[test]
fn probe_waits_for_its_window() {
    let mut p = MotionProbe::new(10 * MS);
    p.enter_at((0, 0), 0);
    p.requested(3, 0);
    assert!(!p.due_at(9 * MS));
    assert!(p.sample_at((3, 0), 9 * MS).is_none());
    assert!(p.due_at(10 * MS));
    let o = p.sample_at((3, 0), 10 * MS).expect("one observation");
    assert_eq!((o.req_dx, o.act_dx), (3, 3));
}

#[test]
fn probe_reads_its_own_clock() {
    // A window of no length is always due, whatever the clock says.
    let mut p = MotionProbe::new(0);
    p.enter((1, 2));
    assert!(p.due());
    p.requested(7, 0);
    let o = p.sample((5, 2)).expect("one observation");
    assert_eq!((o.req_dx, o.act_dx), (7, 4));
}

#[test]
fn gain_windows_measure_travel_against_counts() {
    let mut g = GainTracker::new();
    // The first beacon anchors the window.
    assert!(g.on_beacon(0, 0).is_none());
    for _ in 0..25 {
        g.on_delta(4, 0);
    }
    assert_eq!(g.samples(), 0);
    let w: Window = g.on_beacon(50, 0).expect("a window");
    assert_eq!((w.travel, w.rel), (50, 100));
    assert_eq!(g.samples(), 1);
}

/// The gain after a beacon, for a tracker that has measured nothing yet:
/// neutral where the beacon closes no window.
fn gain_after(w: Option<Window>) -> f64 {
    match w {
        None => 1.0,
        Some(w) => w.travel as f64 / w.rel as f64,
    }
}

#[test]
fn measures_px_per_count_from_delta_and_beacon_windows() {
    let mut g = GainTracker::new();
    // The first beacon anchors the window (nothing to measure against
    // yet); 100 counts of raw motion, real cursor travelled 50 px:
    // 0.5 px/count.
    assert_eq!(gain_after(g.on_beacon(0, 0)), 1.0, "neutral until measured");
    for _ in 0..25 {
        g.on_delta(4, 0);
    }
    let gain = gain_after(g.on_beacon(50, 0));
    assert!((gain - 0.5).abs() < 0.01, "window sets the gain, got {gain}");
}

#[test]
fn skips_idle_and_jump_windows() {
    let mut g = GainTracker::new();
    g.on_beacon(0, 0); // anchor
    // Idle: almost no counts, no travel: the gain must not move from
    // 1.0 (a parked cursor would otherwise read as 0 px/count).
    g.on_delta(1, 0);
    assert_eq!(gain_after(g.on_beacon(1, 0)), 1.0);
    // A jump (real travel far beyond the counts) must be excluded, not
    // averaged in.
    g.on_delta(5, 0);
    assert_eq!(gain_after(g.on_beacon(400, 0)), 1.0, "jump windows are skipped");
    assert_eq!(g.samples(), 0);
}

#[test]
fn gain_is_frozen_while_no_beacons_flow() {
    // Deltas keep arriving but no beacons close a window: nothing is
    // measured.
    let mut g = GainTracker::new();
    for _ in 0..25 {
        g.on_delta(4, 0);
    }
    g.on_beacon(50, 0);
    let frozen = g.samples();
    for _ in 0..100 {
        g.on_delta(9, 0); // motion on a client, no beacons
    }
    assert_eq!(g.samples(), frozen);
}

#[test]
fn a_default_tracker_has_measured_nothing() {
    let mut g = GainTracker::default();
    assert_eq!(g.samples(), 0);
    assert!(g.on_beacon(10, 10).is_none(), "the first beacon only anchors");
}
