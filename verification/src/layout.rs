//! The virtual desktop layout.
//!
//! Screens live on one big 2-D plane (virtual coordinates). The server's
//! own screen is the "local" screen; clients are positioned around it by
//! the user. This module answers three questions:
//!
//! 1. When the cursor is at `(x, y)`, which screen is it on?
//! 2. If the cursor leaves screen A through edge `dir`, which screen is
//!    next, and where exactly does it enter?
//! 3. Is anything about the arrangement ambiguous or surprising?
use vstd::prelude::*;
use vstd::string::*;

use crate::protocol::{Rect, Screen};

verus! {

/// Maximum slack (px) between two screen edges for snapping, and for the
/// ray cast's small overlap tolerance.
pub const EDGE_TOLERANCE: i32 = 16;

/// The four screen edges. "Top" means moving *up* (decreasing y).
#[derive(Debug, Clone, Copy, PartialEq, Eq, Structural)]
pub enum Direction {
    Left,
    Right,
    Top,
    Bottom,
}

/// A full desktop layout.
#[derive(Debug, PartialEq)]
pub struct Layout {
    pub screens: Vec<Screen>,
}

impl View for Layout {
    type V = Seq<Screen>;

    open spec fn view(&self) -> Seq<Screen> {
        self.screens@
    }
}

impl Clone for Layout {
    fn clone(&self) -> (r: Self)
        ensures
            r@ == self@,
    {
        let mut screens: Vec<Screen> = Vec::new();
        let mut i: usize = 0;
        while i < self.screens.len()
            invariant
                i <= self.screens@.len(),
                screens@ == self.screens@.take(i as int),
            decreases self.screens@.len() - i,
        {
            screens.push(self.screens[i].clone());
            i += 1;
            assert(screens@ =~= self.screens@.take(i as int));
        }
        assert(screens@ =~= self.screens@);
        Layout { screens }
    }
}

impl Default for Layout {
    fn default() -> (r: Self)
        ensures
            r@ == Seq::<Screen>::empty(),
    {
        Layout { screens: Vec::new() }
    }
}

// ---------------------------------------------------------------------
// Lookup
// ---------------------------------------------------------------------

/// Index `k` holds the first screen of `s` that satisfies `p`.
pub open spec fn is_first(s: Seq<Screen>, p: spec_fn(Screen) -> bool, k: int) -> bool {
    &&& 0 <= k < s.len()
    &&& p(s[k])
    &&& forall|j: int| 0 <= j < k ==> !p(#[trigger] s[j])
}

/// The first screen of `s` that satisfies `p`.
pub open spec fn first_where(s: Seq<Screen>, p: spec_fn(Screen) -> bool) -> Option<Screen> {
    if exists|k: int| is_first(s, p, k) {
        Some(s[choose|k: int| is_first(s, p, k)])
    } else {
        None
    }
}

/// The screen with the given id: the first one, where several share it.
pub open spec fn find_screen(s: Seq<Screen>, id: u8) -> Option<Screen> {
    first_where(s, |e: Screen| e.id == id)
}

pub(crate) proof fn lemma_first_where(s: Seq<Screen>, p: spec_fn(Screen) -> bool, k: int)
    requires
        is_first(s, p, k),
    ensures
        first_where(s, p) == Some(s[k]),
{
    let c = choose|k: int| is_first(s, p, k);
    assert(is_first(s, p, c));
    if c < k {
        assert(!p(s[c]));
    } else if k < c {
        assert(!p(s[k]));
    }
}

proof fn lemma_first_exists(s: Seq<Screen>, p: spec_fn(Screen) -> bool, k: int)
    requires
        0 <= k < s.len(),
        p(s[k]),
    ensures
        exists|f: int| f <= k && #[trigger] is_first(s, p, f),
    decreases k,
{
    if exists|j: int| 0 <= j < k && p(#[trigger] s[j]) {
        let j = choose|j: int| 0 <= j < k && p(#[trigger] s[j]);
        lemma_first_exists(s, p, j);
        let f = choose|f: int| f <= j && #[trigger] is_first(s, p, f);
        assert(f <= k && is_first(s, p, f));
    } else {
        assert(is_first(s, p, k));
    }
}

/// A search by predicate succeeds exactly when some screen satisfies it,
/// and what it finds is in the layout and satisfies it.
pub proof fn search_is_complete(s: Seq<Screen>, p: spec_fn(Screen) -> bool)
    ensures
        first_where(s, p) is Some <==> exists|k: int| 0 <= k < s.len() && p(#[trigger] s[k]),
        first_where(s, p) matches Some(e) ==> p(e) && s.contains(e),
{
    if exists|k: int| 0 <= k < s.len() && p(#[trigger] s[k]) {
        let k = choose|k: int| 0 <= k < s.len() && p(#[trigger] s[k]);
        lemma_first_exists(s, p, k);
        let f = choose|f: int| f <= k && #[trigger] is_first(s, p, f);
        lemma_first_where(s, p, f);
        assert(s.contains(s[f]));
    } else if first_where(s, p) is Some {
        let c = choose|k: int| is_first(s, p, k);
        assert(p(s[c]));
    }
}

/// The layout has a screen with this id exactly when looking it up
/// succeeds; the screen found carries the id.
pub proof fn lookup_is_complete(s: Seq<Screen>, id: u8)
    ensures
        find_screen(s, id) is Some <==> exists|k: int| 0 <= k < s.len() && (#[trigger] s[k]).id == id,
        find_screen(s, id) matches Some(e) ==> e.id == id && s.contains(e),
{
    let p = |e: Screen| e.id == id;
    search_is_complete(s, p);
    if exists|k: int| 0 <= k < s.len() && (#[trigger] s[k]).id == id {
        let k = choose|k: int| 0 <= k < s.len() && (#[trigger] s[k]).id == id;
        assert(p(s[k]));
    }
    if exists|k: int| 0 <= k < s.len() && p(#[trigger] s[k]) {
        let k = choose|k: int| 0 <= k < s.len() && p(#[trigger] s[k]);
        assert(s[k].id == id);
    }
}

// ---------------------------------------------------------------------
// The ray cast
// ---------------------------------------------------------------------

pub open spec fn imax(a: int, b: int) -> int {
    if a >= b {
        a
    } else {
        b
    }
}

pub open spec fn imin(a: int, b: int) -> int {
    if a <= b {
        a
    } else {
        b
    }
}

/// `v` moved to the nearest value in `lo..=hi`.
pub open spec fn clamped(v: int, lo: int, hi: int) -> int {
    if v < lo {
        lo
    } else if v > hi {
        hi
    } else {
        v
    }
}

impl Direction {
    /// The edge is crossed by horizontal motion.
    pub open spec fn horizontal(self) -> bool {
        self is Left || self is Right
    }

    /// The edge on the other side of the screen.
    pub open spec fn opposite(self) -> Direction {
        match self {
            Direction::Left => Direction::Right,
            Direction::Right => Direction::Left,
            Direction::Top => Direction::Bottom,
            Direction::Bottom => Direction::Top,
        }
    }
}

/// The coordinate of a point across the ray fired through `dir`.
pub open spec fn across(dir: Direction, x: int, y: int) -> int {
    if dir.horizontal() {
        y
    } else {
        x
    }
}

/// `r` lies in the half-plane past `from`'s edge `dir`, where up to
/// [`EDGE_TOLERANCE`] px of overlap is forgiven.
pub open spec fn beyond(from: Rect, r: Rect, dir: Direction) -> bool {
    match dir {
        Direction::Left => r.r() <= from.l() + EDGE_TOLERANCE,
        Direction::Right => r.l() >= from.r() - EDGE_TOLERANCE,
        Direction::Top => r.b() <= from.t() + EDGE_TOLERANCE,
        Direction::Bottom => r.t() >= from.b() - EDGE_TOLERANCE,
    }
}

/// The first and last coordinate that `r` covers across the ray. An
/// empty rectangle counts as its first coordinate alone.
pub open spec fn span(r: Rect, dir: Direction) -> (int, int) {
    if dir.horizontal() {
        (r.t(), imax(r.b() - 1, r.t()))
    } else {
        (r.l(), imax(r.r() - 1, r.l()))
    }
}

/// How far `v` is from the closed interval `iv`.
pub open spec fn distance(v: int, iv: (int, int)) -> int {
    if v < iv.0 {
        iv.0 - v
    } else if v > iv.1 {
        v - iv.1
    } else {
        0
    }
}

/// How far the ray flies from `from`'s edge `dir` to `r`'s facing edge.
pub open spec fn flight(from: Rect, r: Rect, dir: Direction) -> int {
    match dir {
        Direction::Left => imax(from.l() - r.r(), 0),
        Direction::Right => imax(r.l() - from.r(), 0),
        Direction::Top => imax(from.t() - r.b(), 0),
        Direction::Bottom => imax(r.t() - from.b(), 0),
    }
}

/// `a` is a better destination than `b` for a ray at `at`: closer to the
/// ray, or as close and reached sooner.
pub open spec fn closer(from: Rect, dir: Direction, at: int, a: Rect, b: Rect) -> bool {
    let da = distance(at, span(a, dir));
    let db = distance(at, span(b, dir));
    da < db || (da == db && flight(from, a, dir) < flight(from, b, dir))
}

/// Index `k` holds a screen other than `from` that lies past its edge.
pub open spec fn candidate(s: Seq<Screen>, from: Screen, dir: Direction, k: int) -> bool {
    0 <= k < s.len() && s[k].id != from.id && beyond(from.rect, s[k].rect, dir)
}

/// Index `k` holds the ray's destination: no candidate is better, and
/// none before it is as good.
pub open spec fn nearest(s: Seq<Screen>, from: Screen, dir: Direction, at: int, k: int) -> bool {
    &&& candidate(s, from, dir, k)
    &&& forall|j: int| #[trigger]
        candidate(s, from, dir, j) ==> if j < k {
            closer(from.rect, dir, at, s[k].rect, s[j].rect)
        } else {
            !closer(from.rect, dir, at, s[j].rect, s[k].rect)
        }
}

/// The entry point on `r`, in its own coordinates, of a cursor that
/// leaves through `dir` at `(x, y)`: on the edge that faces back, at the
/// same height (or column) where `r` has it.
pub open spec fn entry(r: Rect, dir: Direction, x: int, y: int) -> (int, int) {
    let last_x = imax(r.w - 1, 0);
    let last_y = imax(r.h - 1, 0);
    match dir {
        Direction::Left => (last_x, clamped(y - r.y, 0, last_y)),
        Direction::Right => (0, clamped(y - r.y, 0, last_y)),
        Direction::Top => (clamped(x - r.x, 0, last_x), last_y),
        Direction::Bottom => (clamped(x - r.x, 0, last_x), 0),
    }
}

/// The index of the screen that a ray fired through `from`'s edge `dir`
/// reaches, when its position across the ray is `at`.
pub open spec fn ray_hit(s: Seq<Screen>, from: Screen, dir: Direction, at: int) -> Option<int> {
    if exists|k: int| nearest(s, from, dir, at, k) {
        Some(choose|k: int| nearest(s, from, dir, at, k))
    } else {
        None
    }
}

/// Where a cursor goes that leaves screen `from_id` through `dir` at the
/// virtual point `(x, y)`: the destination's id and the entry point in
/// its coordinates.
pub open spec fn neighbor_of(s: Seq<Screen>, from_id: u8, dir: Direction, x: int, y: int) -> Option<
    (u8, int, int),
> {
    match find_screen(s, from_id) {
        None => None,
        Some(from) => match ray_hit(s, from, dir, across(dir, x, y)) {
            None => None,
            Some(k) => Some(
                (s[k].id, entry(s[k].rect, dir, x, y).0, entry(s[k].rect, dir, x, y).1),
            ),
        },
    }
}

/// Through which edge the point `(x, y)` lies outside `r`. The
/// horizontal edges are asked first, so a corner counts as left or right.
pub open spec fn side_of(r: Rect, x: int, y: int) -> Option<Direction> {
    if x < r.l() {
        Some(Direction::Left)
    } else if x >= r.r() {
        Some(Direction::Right)
    } else if y < r.t() {
        Some(Direction::Top)
    } else if y >= r.b() {
        Some(Direction::Bottom)
    } else {
        None
    }
}

/// [`side_of`] the screen with the given id.
pub open spec fn exit_side(s: Seq<Screen>, from_id: u8, x: int, y: int) -> Option<Direction> {
    match find_screen(s, from_id) {
        None => None,
        Some(from) => side_of(from.rect, x, y),
    }
}

proof fn lemma_nearest_unique(
    s: Seq<Screen>,
    from: Screen,
    dir: Direction,
    at: int,
    a: int,
    b: int,
)
    requires
        nearest(s, from, dir, at, a),
        nearest(s, from, dir, at, b),
    ensures
        a == b,
{
    assert(candidate(s, from, dir, a));
    assert(candidate(s, from, dir, b));
}

proof fn lemma_neighbor(
    s: Seq<Screen>,
    from_id: u8,
    from: Screen,
    dir: Direction,
    x: int,
    y: int,
    k: int,
)
    requires
        find_screen(s, from_id) == Some(from),
        nearest(s, from, dir, across(dir, x, y), k),
    ensures
        neighbor_of(s, from_id, dir, x, y) == Some(
            (s[k].id, entry(s[k].rect, dir, x, y).0, entry(s[k].rect, dir, x, y).1),
        ),
{
    let at = across(dir, x, y);
    let c = choose|c: int| nearest(s, from, dir, at, c);
    lemma_nearest_unique(s, from, dir, at, c, k);
}

/// The best candidate among the first `n` screens.
spec fn best_of(s: Seq<Screen>, from: Screen, dir: Direction, at: int, n: int, k: int) -> bool {
    &&& k < n
    &&& candidate(s, from, dir, k)
    &&& forall|j: int| j < n && #[trigger]
        candidate(s, from, dir, j) ==> if j < k {
            closer(from.rect, dir, at, s[k].rect, s[j].rect)
        } else {
            !closer(from.rect, dir, at, s[j].rect, s[k].rect)
        }
}

proof fn lemma_best_step(s: Seq<Screen>, from: Screen, dir: Direction, at: int, n: int, k: int)
    requires
        0 <= n < s.len(),
        best_of(s, from, dir, at, n, k),
        candidate(s, from, dir, n),
    ensures
        closer(from.rect, dir, at, s[n].rect, s[k].rect) ==> best_of(s, from, dir, at, n + 1, n),
        !closer(from.rect, dir, at, s[n].rect, s[k].rect) ==> best_of(s, from, dir, at, n + 1, k),
{
}

proof fn lemma_best_exists(s: Seq<Screen>, from: Screen, dir: Direction, at: int, n: int)
    requires
        0 <= n <= s.len(),
    ensures
        (exists|j: int| j < n && candidate(s, from, dir, j)) ==> exists|k: int|
            best_of(s, from, dir, at, n, k),
    decreases n,
{
    if n > 0 && exists|j: int| j < n && candidate(s, from, dir, j) {
        let m = n - 1;
        lemma_best_exists(s, from, dir, at, m);
        if exists|j: int| j < m && candidate(s, from, dir, j) {
            let k = choose|k: int| best_of(s, from, dir, at, m, k);
            if candidate(s, from, dir, n - 1) {
                lemma_best_step(s, from, dir, at, n - 1, k);
                assert(best_of(s, from, dir, at, n, n - 1) || best_of(s, from, dir, at, n, k));
            } else {
                assert(best_of(s, from, dir, at, n, k));
            }
        } else {
            let j = choose|j: int| j < n && candidate(s, from, dir, j);
            assert(j == n - 1);
            assert(best_of(s, from, dir, at, n, j));
        }
    }
}

/// Every edge with any screen beyond it is alive, and no other: leaving
/// through `dir` reaches a neighbor exactly when some other screen lies
/// past that edge.
pub proof fn edge_is_alive(s: Seq<Screen>, from: Screen, dir: Direction, x: int, y: int)
    requires
        find_screen(s, from.id) == Some(from),
    ensures
        neighbor_of(s, from.id, dir, x, y) is Some <==> exists|k: int|
            candidate(s, from, dir, k),
{
    let at = across(dir, x, y);
    if exists|k: int| candidate(s, from, dir, k) {
        let c = choose|k: int| candidate(s, from, dir, k);
        assert(c < s.len() && candidate(s, from, dir, c));
        lemma_best_exists(s, from, dir, at, s.len() as int);
        let k = choose|k: int| best_of(s, from, dir, at, s.len() as int, k);
        assert(nearest(s, from, dir, at, k));
    } else {
        assert forall|k: int| !nearest(s, from, dir, at, k) by {
            assert(!candidate(s, from, dir, k));
        }
    }
}

/// The destination of a crossing is another screen of the layout, in the
/// half-plane past the edge, and no screen there is better.
pub proof fn neighbor_is_the_nearest_screen(
    s: Seq<Screen>,
    from: Screen,
    dir: Direction,
    x: int,
    y: int,
)
    requires
        find_screen(s, from.id) == Some(from),
        neighbor_of(s, from.id, dir, x, y) is Some,
    ensures
        neighbor_of(s, from.id, dir, x, y) matches Some((id, ex, ey)) && id != from.id && exists|
            k: int,
        |
            #[trigger] candidate(s, from, dir, k) && s[k].id == id && (ex, ey) == entry(
                s[k].rect,
                dir,
                x,
                y,
            ) && forall|j: int| #[trigger]
                candidate(s, from, dir, j) ==> !closer(
                    from.rect,
                    dir,
                    across(dir, x, y),
                    s[j].rect,
                    s[k].rect,
                ),
{
    let at = across(dir, x, y);
    let k = choose|k: int| nearest(s, from, dir, at, k);
    assert(nearest(s, from, dir, at, k));
    assert(candidate(s, from, dir, k));
    assert forall|j: int| #[trigger]
        candidate(s, from, dir, j) implies !closer(from.rect, dir, at, s[j].rect, s[k].rect) by {}
}

/// A crossing enters inside the destination: the entry point of a
/// non-empty screen is one of its pixels, and a point that the
/// destination has in its span carries straight across.
pub proof fn entry_is_inside(r: Rect, dir: Direction, x: int, y: int)
    ensures
        ({
            let e = entry(r, dir, x, y);
            &&& 0 <= e.0 <= imax(r.w - 1, 0)
            &&& 0 <= e.1 <= imax(r.h - 1, 0)
            &&& r.nonempty() ==> r.covers(r.x + e.0, r.y + e.1)
            &&& dir.horizontal() && r.t() <= y < r.b() ==> r.y + e.1 == y
            &&& !dir.horizontal() && r.l() <= x < r.r() ==> r.x + e.0 == x
        }),
{
}

/// No crossing is a one-way street: the edge through which a screen was
/// entered is alive, wherever the cursor leaves it.
pub proof fn every_crossing_has_a_way_back(
    s: Seq<Screen>,
    from: Screen,
    dest: Screen,
    dir: Direction,
    exit: (int, int),
    back: (int, int),
)
    requires
        forall|i: int, j: int| 0 <= i < j < s.len() ==> (#[trigger] s[i]).id != (#[trigger] s[j]).id,
        find_screen(s, from.id) == Some(from),
        find_screen(s, dest.id) == Some(dest),
        neighbor_of(s, from.id, dir, exit.0, exit.1) matches Some(n) && n.0 == dest.id,
    ensures
        neighbor_of(s, dest.id, dir.opposite(), back.0, back.1) is Some,
{
    neighbor_is_the_nearest_screen(s, from, dir, exit.0, exit.1);
    let k = choose|k: int| #[trigger] candidate(s, from, dir, k) && s[k].id == dest.id;
    lookup_is_complete(s, from.id);
    lookup_is_complete(s, dest.id);
    let f = choose|f: int| 0 <= f < s.len() && s[f] == from;
    let d = choose|d: int| 0 <= d < s.len() && s[d] == dest;
    assert(k == d);
    assert(candidate(s, dest, dir.opposite(), f));
    edge_is_alive(s, dest, dir.opposite(), back.0, back.1);
}

proof fn lemma_only_neighbor(
    s: Seq<Screen>,
    from: Screen,
    d: Screen,
    dir: Direction,
    x: int,
    y: int,
)
    requires
        s == seq![from, d] || s == seq![d, from],
        d.id != from.id,
        beyond(from.rect, d.rect, dir),
    ensures
        neighbor_of(s, from.id, dir, x, y) == Some(
            (d.id, entry(d.rect, dir, x, y).0, entry(d.rect, dir, x, y).1),
        ),
{
    let at = across(dir, x, y);
    let (f, k): (int, int) = if s == seq![from, d] {
        (0, 1)
    } else {
        (1, 0)
    };
    let p = |e: Screen| e.id == from.id;
    assert(s[f] == from && s[k] == d);
    assert(is_first(s, p, f));
    lemma_first_where(s, p, f);
    assert(candidate(s, from, dir, k));
    assert forall|j: int| #[trigger] candidate(s, from, dir, j) implies j == k by {}
    assert(nearest(s, from, dir, at, k));
    lemma_neighbor(s, from.id, from, dir, x, y, k);
}

/// Crossing and coming straight back lands at the same height (or
/// column): between two screens that both have it in their span, leaving
/// the second at the point of entry returns to the first on the line on
/// which the cursor left it.
pub proof fn there_and_back_stays_on_the_line(
    a: Screen,
    b: Screen,
    dir: Direction,
    x: int,
    y: int,
)
    requires
        a.id != b.id,
        beyond(a.rect, b.rect, dir),
        dir.horizontal() ==> a.rect.t() <= y < a.rect.b() && b.rect.t() <= y < b.rect.b(),
        !dir.horizontal() ==> a.rect.l() <= x < a.rect.r() && b.rect.l() <= x < b.rect.r(),
    ensures
        ({
            let s = seq![a, b];
            &&& neighbor_of(s, a.id, dir, x, y) matches Some((there, ex, ey))
            &&& there == b.id
            &&& neighbor_of(
                s,
                b.id,
                dir.opposite(),
                b.rect.x + ex,
                b.rect.y + ey,
            ) matches Some((home, fx, fy))
            &&& home == a.id
            &&& across(dir, a.rect.x + fx, a.rect.y + fy) == across(dir, x, y)
        }),
{
    let s = seq![a, b];
    lemma_only_neighbor(s, a, b, dir, x, y);
    let e = entry(b.rect, dir, x, y);
    lemma_only_neighbor(s, b, a, dir.opposite(), b.rect.x + e.0, b.rect.y + e.1);
    entry_is_inside(b.rect, dir, x, y);
    entry_is_inside(a.rect, dir.opposite(), b.rect.x + e.0, b.rect.y + e.1);
}

/// A gap is crossed like contact: with one other screen past the edge,
/// the crossing does not depend on how far away it stands.
pub proof fn gap_is_crossed_like_contact(
    from: Screen,
    near_dest: Screen,
    far_dest: Screen,
    dir: Direction,
    x: int,
    y: int,
)
    requires
        near_dest.id == far_dest.id,
        near_dest.id != from.id,
        near_dest.rect.w == far_dest.rect.w,
        near_dest.rect.h == far_dest.rect.h,
        dir.horizontal() ==> near_dest.rect.y == far_dest.rect.y,
        !dir.horizontal() ==> near_dest.rect.x == far_dest.rect.x,
        beyond(from.rect, near_dest.rect, dir),
        beyond(from.rect, far_dest.rect, dir),
    ensures
        neighbor_of(seq![from, near_dest], from.id, dir, x, y) is Some,
        neighbor_of(seq![from, near_dest], from.id, dir, x, y) == neighbor_of(
            seq![from, far_dest],
            from.id,
            dir,
            x,
            y,
        ),
{
    lemma_only_neighbor(seq![from, near_dest], from, near_dest, dir, x, y);
    lemma_only_neighbor(seq![from, far_dest], from, far_dest, dir, x, y);
}

/// Leaving `r`'s rectangle has a side exactly when the point is outside.
pub proof fn exit_side_is_outside(r: Rect, x: int, y: int)
    ensures
        side_of(r, x, y) is None <==> r.covers(x, y),
{
}

fn max64(a: i64, b: i64) -> (r: i64)
    ensures
        r == imax(a as int, b as int),
{
    if a >= b {
        a
    } else {
        b
    }
}

fn clamp(v: i64, lo: i64, hi: i64) -> (r: i64)
    requires
        lo <= hi,
    ensures
        r == clamped(v as int, lo as int, hi as int),
{
    if v < lo {
        lo
    } else if v > hi {
        hi
    } else {
        v
    }
}

/// The last coordinate of a side of the given length, 0 for an empty one.
fn last_of(size: i32) -> (r: i32)
    ensures
        r == imax(size - 1, 0),
{
    if size > 0 {
        size - 1
    } else {
        0
    }
}

/// The score of a destination: its distance from the ray, then the
/// length of the flight. `None` when it does not lie past the edge.
fn score(from: &Rect, r: &Rect, dir: Direction, at: i32) -> (out: Option<(i64, i64)>)
    ensures
        out is Some <==> beyond(*from, *r, dir),
        out matches Some((d, f)) ==> d == distance(at as int, span(*r, dir)) && f == flight(
            *from,
            *r,
            dir,
        ),
{
    let tol: i64 = EDGE_TOLERANCE as i64;
    let r_right: i64 = r.x as i64 + r.w as i64;
    let r_bottom: i64 = r.y as i64 + r.h as i64;
    let from_right: i64 = from.x as i64 + from.w as i64;
    let from_bottom: i64 = from.y as i64 + from.h as i64;
    let (lo, hi, past, parallel): (i64, i64, bool, i64) = match dir {
        Direction::Left => (
            r.y as i64,
            r_bottom,
            r_right <= from.x as i64 + tol,
            from.x as i64 - r_right,
        ),
        Direction::Right => (
            r.y as i64,
            r_bottom,
            r.x as i64 >= from_right - tol,
            r.x as i64 - from_right,
        ),
        Direction::Top => (
            r.x as i64,
            r_right,
            r_bottom <= from.y as i64 + tol,
            from.y as i64 - r_bottom,
        ),
        Direction::Bottom => (
            r.x as i64,
            r_right,
            r.y as i64 >= from_bottom - tol,
            r.y as i64 - from_bottom,
        ),
    };
    if !past {
        return None;
    }
    let at: i64 = at as i64;
    let perp: i64 = if at < lo {
        lo - at
    } else if at >= hi {
        at - max64(hi - 1, lo)
    } else {
        0
    };
    Some((perp, max64(parallel, 0)))
}

impl Layout {
    /// Build a layout from screens.
    pub fn new(screens: Vec<Screen>) -> (r: Self)
        ensures
            r@ == screens@,
    {
        Layout { screens }
    }

    /// The screen with the given id, if any.
    pub fn find(&self, id: u8) -> (r: Option<&Screen>)
        ensures
            match r {
                Some(s) => find_screen(self@, id) == Some(*s),
                None => find_screen(self@, id) is None,
            },
    {
        let ghost p = |e: Screen| e.id == id;
        let mut i: usize = 0;
        while i < self.screens.len()
            invariant
                i <= self.screens@.len(),
                p == (|e: Screen| e.id == id),
                forall|j: int| 0 <= j < i ==> !p(#[trigger] self.screens@[j]),
            decreases self.screens@.len() - i,
        {
            if self.screens[i].id == id {
                proof {
                    assert(is_first(self@, p, i as int));
                    lemma_first_where(self@, p, i as int);
                }
                return Some(&self.screens[i]);
            }
            i += 1;
        }
        proof {
            search_is_complete(self@, p);
        }
        None
    }

    /// The screen containing the virtual point, if any (the first one,
    /// where several do).
    pub fn screen_at(&self, x: i32, y: i32) -> (r: Option<&Screen>)
        ensures
            match r {
                Some(s) => first_where(
                    self@,
                    |e: Screen| e.rect.covers(x as int, y as int),
                ) == Some(*s),
                None => forall|k: int|
                    0 <= k < self@.len() ==> !(#[trigger] self@[k]).rect.covers(x as int, y as int),
            },
    {
        let ghost p = |e: Screen| e.rect.covers(x as int, y as int);
        let mut i: usize = 0;
        while i < self.screens.len()
            invariant
                i <= self.screens@.len(),
                p == (|e: Screen| e.rect.covers(x as int, y as int)),
                forall|j: int| 0 <= j < i ==> !p(#[trigger] self.screens@[j]),
            decreases self.screens@.len() - i,
        {
            if self.screens[i].rect.contains(x, y) {
                proof {
                    assert(is_first(self@, p, i as int));
                    lemma_first_where(self@, p, i as int);
                }
                return Some(&self.screens[i]);
            }
            i += 1;
        }
        assert forall|k: int| 0 <= k < self@.len() implies !(#[trigger] self@[k]).rect.covers(
            x as int,
            y as int,
        ) by {
            assert(!p(self.screens@[k]));
        }
        None
    }

    /// Find the destination when leaving screen `from_id` through edge
    /// `dir`, with the entry position in the **destination's local
    /// coordinates**.
    ///
    /// The model is a **ray cast**, not edge contact: the cursor fires a
    /// ray from its exit point through that edge, and the first screen
    /// the ray reaches is the destination. A deliberate gap between
    /// screens is crossed like contact.
    pub fn neighbor(&self, from_id: u8, dir: Direction, at_x: i32, at_y: i32) -> (r: Option<
        (u8, i32, i32),
    >)
        ensures
            match r {
                Some((id, x, y)) => neighbor_of(self@, from_id, dir, at_x as int, at_y as int)
                    == Some((id, x as int, y as int)),
                None => neighbor_of(self@, from_id, dir, at_x as int, at_y as int) is None,
            },
    {
        let from: &Screen = match self.find(from_id) {
            Some(s) => s,
            None => {
                return None;
            },
        };
        proof {
            lookup_is_complete(self@, from_id);
        }
        let exit: i32 = match dir {
            Direction::Left | Direction::Right => at_y,
            Direction::Top | Direction::Bottom => at_x,
        };
        let ghost at = across(dir, at_x as int, at_y as int);
        let mut best: Option<(i64, i64, usize)> = None;
        let mut i: usize = 0;
        while i < self.screens.len()
            invariant
                i <= self.screens@.len(),
                from.id == from_id,
                exit == at,
                match best {
                    Some((d, f, k)) => {
                        &&& best_of(self@, *from, dir, at, i as int, k as int)
                        &&& k < self.screens@.len()
                        &&& d == distance(at, span(self@[k as int].rect, dir))
                        &&& f == flight(from.rect, self@[k as int].rect, dir)
                    },
                    None => forall|j: int| j < i ==> !candidate(self@, *from, dir, j),
                },
            decreases self.screens@.len() - i,
        {
            let s: &Screen = &self.screens[i];
            if s.id != from_id {
                match score(&from.rect, &s.rect, dir, exit) {
                    Some((perp, parallel)) => {
                        assert(candidate(self@, *from, dir, i as int));
                        let better: bool = match best {
                            None => true,
                            Some((bp, bl, _)) => perp < bp || (perp == bp && parallel < bl),
                        };
                        proof {
                            if let Some((_, _, k)) = best {
                                lemma_best_step(self@, *from, dir, at, i as int, k as int);
                            }
                        }
                        if better {
                            best = Some((perp, parallel, i));
                        }
                    },
                    None => {},
                }
            }
            i += 1;
        }
        let k: usize = match best {
            Some((_, _, k)) => k,
            None => {
                assert forall|k: int| !nearest(self@, *from, dir, at, k) by {
                    assert(!candidate(self@, *from, dir, k));
                }
                return None;
            },
        };
        let c: &Screen = &self.screens[k];
        proof {
            assert(nearest(self@, *from, dir, at, k as int));
            lemma_neighbor(self@, from_id, *from, dir, at_x as int, at_y as int, k as int);
        }
        let last_x: i32 = last_of(c.rect.w);
        let last_y: i32 = last_of(c.rect.h);
        let in_x: i32 = clamp(at_x as i64 - c.rect.x as i64, 0, last_x as i64) as i32;
        let in_y: i32 = clamp(at_y as i64 - c.rect.y as i64, 0, last_y as i64) as i32;
        let (x, y): (i32, i32) = match dir {
            Direction::Left => (last_x, in_y),
            Direction::Right => (0, in_y),
            Direction::Top => (in_x, last_y),
            Direction::Bottom => (in_x, 0),
        };
        Some((c.id, x, y))
    }

    /// Which direction does the cursor leave `from_id`'s rect when moving
    /// to `(x, y)` (virtual)? `None` if `(x, y)` is still inside, or if
    /// there is no such screen.
    pub fn exit_direction(&self, from_id: u8, x: i32, y: i32) -> (r: Option<Direction>)
        ensures
            r == exit_side(self@, from_id, x as int, y as int),
    {
        let s: &Screen = match self.find(from_id) {
            Some(s) => s,
            None => {
                return None;
            },
        };
        if x < s.rect.x {
            Some(Direction::Left)
        } else if x as i64 >= s.rect.x as i64 + s.rect.w as i64 {
            Some(Direction::Right)
        } else if y < s.rect.y {
            Some(Direction::Top)
        } else if y as i64 >= s.rect.y as i64 + s.rect.h as i64 {
            Some(Direction::Bottom)
        } else {
            None
        }
    }
}

} // verus!
