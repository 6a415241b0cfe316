use kvmshare::protocol::{Rect, Screen};
use kvmshare::{Direction, Layout};

fn screen(id: u8, x: i32, y: i32, w: i32, h: i32) -> Screen {
    Screen { id, name: id.to_string(), rect: Rect { x, y, w, h } }
}

/// Two machines: pc (the server) on the right, hp to its left.
fn two_screen_layout() -> Layout {
    Layout::new(vec![screen(0, 0, 0, 1920, 1080), screen(1, -1920, 0, 1920, 1080)])
}

#[test]
fn screen_at_picks_the_right_screen() {
    let l = two_screen_layout();
    assert_eq!(l.screen_at(100, 100).unwrap().id, 0);
    assert_eq!(l.screen_at(-100, 100).unwrap().id, 1);
    assert!(l.screen_at(9999, 9999).is_none());
}

#[test]
fn left_neighbor_is_hp() {
    let l = two_screen_layout();
    let (id, x, y) = l.neighbor(0, Direction::Left, 0, 300).unwrap();
    assert_eq!(id, 1);
    assert_eq!(x, 1919); // hp's right edge
    assert_eq!(y, 300); // vertical offset preserved
}

#[test]
fn right_neighbor_is_pc() {
    let l = two_screen_layout();
    let (id, x, y) = l.neighbor(1, Direction::Right, 0, 400).unwrap();
    assert_eq!(id, 0);
    assert_eq!(x, 0); // pc's left edge
    assert_eq!(y, 400);
}

#[test]
fn no_neighbor_on_outer_edge() {
    let l = two_screen_layout();
    assert!(l.neighbor(1, Direction::Left, 0, 0).is_none());
    assert!(l.neighbor(0, Direction::Right, 0, 0).is_none());
}

#[test]
fn entry_y_is_clamped_into_neighbor() {
    let l = two_screen_layout();
    let (_, _, y) = l.neighbor(0, Direction::Left, 0, 99999).unwrap();
    assert_eq!(y, 1079);
}

#[test]
fn small_gap_still_connects() {
    // pc sits 2 px right of where hp's edge ends (and 4 px higher).
    // The screens must connect across both directions.
    let l = Layout::new(vec![screen(0, 2, 0, 1920, 1080), screen(1, -1920, -4, 1920, 1080)]);
    let (id, x, y) = l.neighbor(0, Direction::Left, 2, 300).unwrap();
    assert_eq!(id, 1);
    assert_eq!(x, 1919); // hp's right edge
    assert_eq!(y, 304); // hp is 4 px higher, so pc row 300 maps to hp row 304
    // And back: hp -> pc (virtual row 300 maps straight across).
    let (id, x, y) = l.neighbor(1, Direction::Right, -1, 300).unwrap();
    assert_eq!(id, 0);
    assert_eq!(x, 0); // pc's left edge
    assert_eq!(y, 300);
}

#[test]
fn big_gap_still_crosses() {
    // A deliberate 280 px gap is crossed like contact: the ray cast
    // flies over the hole and lands on the only screen in that
    // direction.
    let l = Layout::new(vec![screen(0, 0, 0, 1920, 1080), screen(1, -2200, 0, 1920, 1080)]);
    let (id, x, y) = l.neighbor(0, Direction::Left, 0, 300).unwrap();
    assert_eq!(id, 1);
    assert_eq!(x, 1919);
    assert_eq!(y, 300);
    // And back.
    assert!(l.neighbor(1, Direction::Right, 0, 300).is_some());
}

#[test]
fn ray_picks_the_nearest_screen_across_a_gap() {
    // Two screens left of the server, a gap between them: the ray must
    // land on the nearer one (B), not the farther (A).
    let l = Layout::new(vec![
        screen(0, 0, 0, 1920, 1080),
        screen(2, -2100, 0, 1920, 1080), // B: nearer
        screen(1, -4100, 0, 1920, 1080), // A: farther
    ]);
    let (id, x, y) = l.neighbor(0, Direction::Left, 0, 500).unwrap();
    assert_eq!(id, 2);
    assert_eq!(x, 1919);
    assert_eq!(y, 500);
}

#[test]
fn exit_point_outside_a_smaller_neighbor_lands_at_its_nearest_point() {
    // The neighbor is half-height and sits above the exit row: the
    // entry clamps to its nearest corner instead of failing.
    let l = Layout::new(vec![screen(0, 0, 0, 1920, 1080), screen(1, -1920, -1000, 1920, 500)]);
    let (id, x, y) = l.neighbor(0, Direction::Left, 0, 900).unwrap();
    assert_eq!(id, 1);
    assert_eq!(x, 1919);
    assert_eq!(y, 499); // clamped into hp's span
}

#[test]
fn partial_overlap_still_connects() {
    // hp sits higher than pc and only overlaps the top half.
    let l = Layout::new(vec![screen(0, 0, 0, 1920, 1080), screen(1, -1920, -500, 1920, 1000)]);
    assert!(l.neighbor(0, Direction::Left, 0, 200).is_some());
    // No overlap at all -> the exit point clamps to the nearest corner,
    // but the screen is still there (the ray finds it past the edge).
    let l2 = Layout::new(vec![screen(0, 0, 0, 1920, 1080), screen(1, -1920, 1200, 1920, 1080)]);
    let (id, _, _) = l2.neighbor(0, Direction::Left, 0, 200).unwrap();
    assert_eq!(id, 1);
}

#[test]
fn stacked_screens_connect_vertically() {
    let l = Layout::new(vec![screen(0, 0, 0, 1920, 1080), screen(1, 0, -1080, 1920, 1080)]);
    let (id, x, y) = l.neighbor(0, Direction::Top, 500, 0).unwrap();
    assert_eq!(id, 1);
    assert_eq!(x, 500);
    assert_eq!(y, 1079);
}

#[test]
fn vertically_offset_screens_cross_without_a_span() {
    // Diagonal arrangement: B sits above-right of A with no vertical
    // span in common. Exiting A leftward at a row past B's span still
    // reaches B (clamped to its corner) — the placement means "B is to
    // the left".
    let l = Layout::new(vec![screen(0, 0, 0, 1920, 1080), screen(1, -2000, -1200, 1920, 1080)]);
    let (id, x, y) = l.neighbor(0, Direction::Left, 0, 1079).unwrap();
    assert_eq!(id, 1);
    assert_eq!(x, 1919);
    assert_eq!(y, 1079); // clamped into B's bottom edge region
}

#[test]
fn screen_sides_that_face_away_are_not_neighbors() {
    // A screen directly *above* the exit row is not a left-neighbor.
    let l = Layout::new(vec![screen(0, 0, 0, 1920, 1080), screen(1, 0, -1080, 1920, 1080)]);
    assert!(l.neighbor(0, Direction::Left, 0, 500).is_none());
}

#[test]
fn exit_direction_detection() {
    let l = two_screen_layout();
    assert_eq!(l.exit_direction(0, -1, 500), Some(Direction::Left));
    assert_eq!(l.exit_direction(0, 1920, 500), Some(Direction::Right));
    assert_eq!(l.exit_direction(0, 500, -1), Some(Direction::Top));
    assert_eq!(l.exit_direction(0, 500, 1080), Some(Direction::Bottom));
    assert_eq!(l.exit_direction(0, 500, 500), None);
}

#[test]
fn issues_report_overlap() {
    let l = Layout::new(vec![screen(0, 0, 0, 1920, 1080), screen(1, -100, 0, 1920, 1080)]);
    let issues = l.issues();
    assert_eq!(issues.len(), 1);
    assert!(issues[0].contains("overlap"));
}

#[test]
fn issues_empty_for_a_clean_layout() {
    let l = two_screen_layout();
    assert!(l.issues().is_empty());
}

#[test]
fn issues_report_degenerate_size() {
    let l = Layout::new(vec![screen(0, 0, 0, 1920, 1080), screen(1, -1920, 0, 0, 1080)]);
    let issues = l.issues();
    assert!(issues.iter().any(|i| i.contains("no size")));
}

#[test]
fn every_edge_leads_back() {
    // Different sizes, offsets and a gap: whatever is entered can be left
    // through the same edge.
    let l = Layout::new(vec![
        screen(0, 0, 0, 1920, 1080),
        screen(1, -2600, 300, 1280, 720),
        screen(2, 200, 1200, 800, 600),
    ]);
    assert_eq!(l.neighbor(0, Direction::Left, 0, 500).unwrap().0, 1);
    assert!(l.neighbor(1, Direction::Right, -1321, 500).is_some());
    assert_eq!(l.neighbor(0, Direction::Bottom, 400, 1079).unwrap().0, 2);
    assert!(l.neighbor(2, Direction::Top, 400, 1200).is_some());
}

#[test]
fn there_and_back_keeps_the_height() {
    let l = Layout::new(vec![screen(0, 0, 0, 1920, 1080), screen(1, -2600, 300, 1280, 720)]);
    let (id, x, y) = l.neighbor(0, Direction::Left, 0, 500).unwrap();
    assert_eq!((id, x, y), (1, 1279, 200));
    let back = l.neighbor(1, Direction::Right, -2600 + x, 300 + y).unwrap();
    assert_eq!(back, (0, 0, 500));
}

fn rects(l: &Layout) -> Vec<(i32, i32)> {
    l.screens.iter().map(|s| (s.rect.x, s.rect.y)).collect()
}

#[test]
fn near_neighbors_snap_into_contact() {
    let l = Layout::new(vec![
        screen(0, 0, 0, 1920, 1080),
        screen(1, 1923, 4, 1920, 1080),
        screen(2, -1925, -16, 1920, 1080),
        screen(3, 7, 1090, 1920, 1080),
        screen(4, 0, -1064, 1920, 1080),
    ]);
    assert!(l.has_snap_room());
    let n = l.normalized();
    assert_eq!(rects(&n), vec![(0, 0), (1920, 0), (-1920, 0), (0, 1080), (0, -1080)]);
    // Only positions change, and a second pass changes nothing.
    assert!(n.screens.iter().zip(&l.screens).all(|(a, b)| a.id == b.id
        && a.name == b.name
        && (a.rect.w, a.rect.h) == (b.rect.w, b.rect.h)));
    assert_eq!(n.normalized(), n);
}

#[test]
fn closing_one_gap_closes_the_next() {
    // The third screen is near the second only once that has snapped.
    let l = Layout::new(vec![
        screen(0, 3000, 0, 1000, 1000),
        screen(1, 1985, 0, 1000, 3000),
        screen(2, 3012, 1500, 1000, 1000),
    ]);
    assert_eq!(rects(&l.normalized()), vec![(3000, 0), (2000, 0), (3000, 1500)]);
}

#[test]
fn gaps_past_the_tolerance_stay() {
    let l = Layout::new(vec![screen(0, 0, 0, 1920, 1080), screen(1, 1937, 0, 1920, 1080)]);
    assert_eq!(l.normalized(), l);
    // Within the tolerance sideways, but far apart up and down.
    let l = Layout::new(vec![screen(0, 0, 0, 1920, 1080), screen(1, 1923, 3000, 1920, 1080)]);
    assert_eq!(l.normalized(), l);
}

#[test]
fn two_screens_settle_in_one_normalization() {
    // Every offset of a second screen around the corner and the edges of
    // the first: normalizing the result again changes nothing.
    let a = Rect { x: 0, y: 0, w: 100, h: 80 };
    for x in (60..=120).step_by(3) {
        for y in (-120..=120).step_by(5) {
            let b = Rect { x, y, w: 50, h: 40 };
            let l = Layout::new(vec![
                Screen { id: 0, name: "a".into(), rect: a },
                Screen { id: 1, name: "b".into(), rect: b },
            ]);
            let n = l.normalized();
            assert_eq!(n.normalized(), n, "at {x},{y}");
        }
    }
    // A corner with a gap of the whole tolerance sideways: both axes end
    // in contact.
    let l = Layout::new(vec![
        Screen { id: 0, name: "a".into(), rect: a },
        Screen { id: 1, name: "b".into(), rect: Rect { x: 116, y: 84, w: 50, h: 40 } },
    ]);
    let n = l.normalized();
    assert_eq!(n.screens[0].rect, Rect { x: 0, y: 4, w: 100, h: 80 });
    assert_eq!(n.screens[1].rect, Rect { x: 100, y: 84, w: 50, h: 40 });
}
