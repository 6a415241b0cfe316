//! What a crossing guarantees, in coordinates: which screen a cursor
//! reaches that leaves through an edge, and at which of its pixels.
use vstd::prelude::*;

use crate::layout::{
    across, candidate, edge_is_alive, entry, exit_side, find_screen, first_where, is_first,
    lemma_first_where, lookup_is_complete, nearest, neighbor_of, search_is_complete, Direction,
};
use crate::protocol::Screen;

verus! {

/// A lookup gives the first screen that carries the id.
pub proof fn lookup_gives_the_first_screen(s: Seq<Screen>, id: u8, e: Screen)
    ensures
        find_screen(s, id) == Some(e) <==> exists|k: int|
            0 <= k < s.len() && #[trigger] s[k] == e && e.id == id && forall|j: int|
                0 <= j < k ==> (#[trigger] s[j]).id != id,
        find_screen(s, id) is None <==> forall|k: int|
            0 <= k < s.len() ==> (#[trigger] s[k]).id != id,
{
    let p = |x: Screen| x.id == id;
    lookup_is_complete(s, id);
    if find_screen(s, id) == Some(e) {
        let k = choose|k: int| is_first(s, p, k);
        assert(is_first(s, p, k));
        assert forall|j: int| 0 <= j < k implies (#[trigger] s[j]).id != id by {
            assert(!p(s[j]));
        }
        assert(s[k] == e);
    }
    if exists|k: int|
        0 <= k < s.len() && #[trigger] s[k] == e && e.id == id && forall|j: int|
            0 <= j < k ==> (#[trigger] s[j]).id != id {
        let k = choose|k: int|
            0 <= k < s.len() && #[trigger] s[k] == e && e.id == id && forall|j: int|
                0 <= j < k ==> (#[trigger] s[j]).id != id;
        assert(is_first(s, p, k));
        lemma_first_where(s, p, k);
    }
}

/// How many pixels the line `v` is away from the stretch of `size` pixels
/// that begins at `lo`: none where the stretch has it. A stretch without
/// pixels counts as its first line.
pub open spec fn off_by(v: int, lo: int, size: int) -> int {
    if v < lo {
        lo - v
    } else if v < lo + size || v == lo {
        0
    } else if size > 0 {
        v - (lo + size - 1)
    } else {
        v - lo
    }
}

proof fn lemma_winner(s: Seq<Screen>, from: Screen, dir: Direction, x: int, y: int) -> (k: int)
    requires
        find_screen(s, from.id) == Some(from),
        neighbor_of(s, from.id, dir, x, y) is Some,
    ensures
        nearest(s, from, dir, across(dir, x, y), k),
        0 <= k < s.len(),
        neighbor_of(s, from.id, dir, x, y) == Some(
            (s[k].id, entry(s[k].rect, dir, x, y).0, entry(s[k].rect, dir, x, y).1),
        ),
{
    let at = across(dir, x, y);
    let k = choose|k: int| nearest(s, from, dir, at, k);
    assert(nearest(s, from, dir, at, k));
    k
}

/// Screen `j` is another one than `from` and lies to its left: at most 16
/// columns of it reach past `from`'s left edge.
pub open spec fn left_of(s: Seq<Screen>, from: Screen, j: int) -> bool {
    0 <= j < s.len() && s[j].id != from.id && s[j].rect.x + s[j].rect.w <= from.rect.x + 16
}

/// Screen `j` is another one than `from` and lies to its right.
pub open spec fn right_of(s: Seq<Screen>, from: Screen, j: int) -> bool {
    0 <= j < s.len() && s[j].id != from.id && s[j].rect.x + 16 >= from.rect.x + from.rect.w
}

/// Screen `j` is another one than `from` and lies above it.
pub open spec fn above(s: Seq<Screen>, from: Screen, j: int) -> bool {
    0 <= j < s.len() && s[j].id != from.id && s[j].rect.y + s[j].rect.h <= from.rect.y + 16
}

/// Screen `j` is another one than `from` and lies below it.
pub open spec fn below(s: Seq<Screen>, from: Screen, j: int) -> bool {
    0 <= j < s.len() && s[j].id != from.id && s[j].rect.y + 16 >= from.rect.y + from.rect.h
}

/// Leaving to the left at row `y`: there is a destination exactly when some
/// screen lies there. The destination has the row wherever any screen there
/// has it; more generally none there is nearer to the row, of those as near
/// none is reached over a smaller gap, and of those reached alike none
/// comes earlier in the layout. It is entered at its last column, on the
/// same row where it has it, else on the row next to it.
pub proof fn leaving_to_the_left(s: Seq<Screen>, from: Screen, x: int, y: int)
    requires
        find_screen(s, from.id) == Some(from),
    ensures
        neighbor_of(s, from.id, Direction::Left, x, y) is Some <==> exists|j: int|
            left_of(s, from, j),
        neighbor_of(s, from.id, Direction::Left, x, y) matches Some((id, ex, ey)) ==> exists|k: int| {
            let r = s[k].rect;
            &&& #[trigger] left_of(s, from, k)
            &&& s[k].id == id
            &&& forall|j: int| #[trigger] left_of(s, from, j) && s[j].rect.y <= y < s[j].rect.y + s[j].rect.h
                ==> r.y <= y && (y < r.y + r.h || y == r.y)
            &&& forall|j: int| #[trigger]
                left_of(s, from, j) ==> {
                    let q = s[j].rect;
                    let d = off_by(y, r.y as int, r.h as int);
                    let e = off_by(y, q.y as int, q.h as int);
                    &&& d <= e
                    &&& d == e ==> r.x + r.w >= q.x + q.w || r.x + r.w >= from.rect.x
                    &&& d == e && j < k ==> q.x + q.w < r.x + r.w && q.x + q.w < from.rect.x
                }
            &&& ex == if r.w > 0 { r.w - 1 } else { 0 }
            &&& r.y <= y < r.y + r.h ==> r.y + ey == y
            &&& y < r.y ==> ey == 0
            &&& y >= r.y + r.h ==> ey == if r.h > 0 { r.h - 1 } else { 0 }
        },
{
    let dir = Direction::Left;
    edge_is_alive(s, from, dir, x, y);
    assert forall|j: int| #[trigger] left_of(s, from, j) == candidate(s, from, dir, j) by {}
    if exists|j: int| candidate(s, from, dir, j) {
        let j = choose|j: int| candidate(s, from, dir, j);
        assert(left_of(s, from, j));
        let k = lemma_winner(s, from, dir, x, y);
        assert(left_of(s, from, k));
        assert forall|j: int| #[trigger] left_of(s, from, j) implies candidate(s, from, dir, j) by {}
    }
}

/// Leaving to the right at row `y`: as to the left, with the destination
/// entered at its first column.
pub proof fn leaving_to_the_right(s: Seq<Screen>, from: Screen, x: int, y: int)
    requires
        find_screen(s, from.id) == Some(from),
    ensures
        neighbor_of(s, from.id, Direction::Right, x, y) is Some <==> exists|j: int|
            right_of(s, from, j),
        neighbor_of(s, from.id, Direction::Right, x, y) matches Some((id, ex, ey)) ==> exists|k: int| {
            let r = s[k].rect;
            &&& #[trigger] right_of(s, from, k)
            &&& s[k].id == id
            &&& forall|j: int| #[trigger] right_of(s, from, j) && s[j].rect.y <= y < s[j].rect.y + s[j].rect.h
                ==> r.y <= y && (y < r.y + r.h || y == r.y)
            &&& forall|j: int| #[trigger]
                right_of(s, from, j) ==> {
                    let q = s[j].rect;
                    let d = off_by(y, r.y as int, r.h as int);
                    let e = off_by(y, q.y as int, q.h as int);
                    &&& d <= e
                    &&& d == e ==> r.x <= q.x || r.x <= from.rect.x + from.rect.w
                    &&& d == e && j < k ==> r.x < q.x && from.rect.x + from.rect.w < q.x
                }
            &&& ex == 0
            &&& r.y <= y < r.y + r.h ==> r.y + ey == y
            &&& y < r.y ==> ey == 0
            &&& y >= r.y + r.h ==> ey == if r.h > 0 { r.h - 1 } else { 0 }
        },
{
    let dir = Direction::Right;
    edge_is_alive(s, from, dir, x, y);
    assert forall|j: int| #[trigger] right_of(s, from, j) == candidate(s, from, dir, j) by {}
    if exists|j: int| candidate(s, from, dir, j) {
        let j = choose|j: int| candidate(s, from, dir, j);
        assert(right_of(s, from, j));
        let k = lemma_winner(s, from, dir, x, y);
        assert(right_of(s, from, k));
        assert forall|j: int| #[trigger] right_of(s, from, j) implies candidate(s, from, dir, j) by {}
    }
}

/// Leaving upward at column `x`: as to the left with columns for rows, and
/// the destination entered at its last row.
pub proof fn leaving_upward(s: Seq<Screen>, from: Screen, x: int, y: int)
    requires
        find_screen(s, from.id) == Some(from),
    ensures
        neighbor_of(s, from.id, Direction::Top, x, y) is Some <==> exists|j: int|
            above(s, from, j),
        neighbor_of(s, from.id, Direction::Top, x, y) matches Some((id, ex, ey)) ==> exists|k: int| {
            let r = s[k].rect;
            &&& #[trigger] above(s, from, k)
            &&& s[k].id == id
            &&& forall|j: int| #[trigger] above(s, from, j) && s[j].rect.x <= x < s[j].rect.x + s[j].rect.w
                ==> r.x <= x && (x < r.x + r.w || x == r.x)
            &&& forall|j: int| #[trigger]
                above(s, from, j) ==> {
                    let q = s[j].rect;
                    let d = off_by(x, r.x as int, r.w as int);
                    let e = off_by(x, q.x as int, q.w as int);
                    &&& d <= e
                    &&& d == e ==> r.y + r.h >= q.y + q.h || r.y + r.h >= from.rect.y
                    &&& d == e && j < k ==> q.y + q.h < r.y + r.h && q.y + q.h < from.rect.y
                }
            &&& ey == if r.h > 0 { r.h - 1 } else { 0 }
            &&& r.x <= x < r.x + r.w ==> r.x + ex == x
            &&& x < r.x ==> ex == 0
            &&& x >= r.x + r.w ==> ex == if r.w > 0 { r.w - 1 } else { 0 }
        },
{
    let dir = Direction::Top;
    edge_is_alive(s, from, dir, x, y);
    assert forall|j: int| #[trigger] above(s, from, j) == candidate(s, from, dir, j) by {}
    if exists|j: int| candidate(s, from, dir, j) {
        let j = choose|j: int| candidate(s, from, dir, j);
        assert(above(s, from, j));
        let k = lemma_winner(s, from, dir, x, y);
        assert(above(s, from, k));
        assert forall|j: int| #[trigger] above(s, from, j) implies candidate(s, from, dir, j) by {}
    }
}

/// Leaving downward at column `x`: as upward, with the destination entered
/// at its first row.
pub proof fn leaving_downward(s: Seq<Screen>, from: Screen, x: int, y: int)
    requires
        find_screen(s, from.id) == Some(from),
    ensures
        neighbor_of(s, from.id, Direction::Bottom, x, y) is Some <==> exists|j: int|
            below(s, from, j),
        neighbor_of(s, from.id, Direction::Bottom, x, y) matches Some((id, ex, ey)) ==> exists|k: int| {
            let r = s[k].rect;
            &&& #[trigger] below(s, from, k)
            &&& s[k].id == id
            &&& forall|j: int| #[trigger] below(s, from, j) && s[j].rect.x <= x < s[j].rect.x + s[j].rect.w
                ==> r.x <= x && (x < r.x + r.w || x == r.x)
            &&& forall|j: int| #[trigger]
                below(s, from, j) ==> {
                    let q = s[j].rect;
                    let d = off_by(x, r.x as int, r.w as int);
                    let e = off_by(x, q.x as int, q.w as int);
                    &&& d <= e
                    &&& d == e ==> r.y <= q.y || r.y <= from.rect.y + from.rect.h
                    &&& d == e && j < k ==> r.y < q.y && from.rect.y + from.rect.h < q.y
                }
            &&& ey == 0
            &&& r.x <= x < r.x + r.w ==> r.x + ex == x
            &&& x < r.x ==> ex == 0
            &&& x >= r.x + r.w ==> ex == if r.w > 0 { r.w - 1 } else { 0 }
        },
{
    let dir = Direction::Bottom;
    edge_is_alive(s, from, dir, x, y);
    assert forall|j: int| #[trigger] below(s, from, j) == candidate(s, from, dir, j) by {}
    if exists|j: int| candidate(s, from, dir, j) {
        let j = choose|j: int| candidate(s, from, dir, j);
        assert(below(s, from, j));
        let k = lemma_winner(s, from, dir, x, y);
        assert(below(s, from, k));
        assert forall|j: int| #[trigger] below(s, from, j) implies candidate(s, from, dir, j) by {}
    }
}

/// A screen that is not in the layout has no neighbors and no edges to
/// leave through.
pub proof fn a_missing_screen_leads_nowhere(s: Seq<Screen>, id: u8, dir: Direction, x: int, y: int)
    requires
        forall|k: int| 0 <= k < s.len() ==> (#[trigger] s[k]).id != id,
    ensures
        neighbor_of(s, id, dir, x, y) is None,
        exit_side(s, id, x, y) is None,
{
    lookup_is_complete(s, id);
}

/// The edge through which a point lies outside a screen, in coordinates: a
/// point beside the screen has left to that side, whatever its row; one
/// straight above or below it has left upward or downward; a point on the
/// screen has not left.
pub proof fn the_exit_edge_in_coordinates(s: Seq<Screen>, from: Screen, x: int, y: int)
    requires
        find_screen(s, from.id) == Some(from),
    ensures
        ({
            let r = from.rect;
            let beside = x < r.x || x >= r.x + r.w;
            let out = exit_side(s, from.id, x, y);
            &&& out == Some(Direction::Left) <==> x < r.x
            &&& out == Some(Direction::Right) <==> x >= r.x && x >= r.x + r.w
            &&& out == Some(Direction::Top) <==> !beside && y < r.y
            &&& out == Some(Direction::Bottom) <==> !beside && y >= r.y && y >= r.y + r.h
            &&& out is None <==> r.x <= x < r.x + r.w && r.y <= y < r.y + r.h
        }),
{
}

/// The first screen that covers a point is the one that is found there.
pub proof fn the_screen_at_a_point(s: Seq<Screen>, x: int, y: int, e: Screen)
    ensures
        first_where(s, |c: Screen| c.rect.covers(x, y)) == Some(e) <==> exists|k: int|
            0 <= k < s.len() && #[trigger] s[k] == e && e.rect.x <= x < e.rect.x + e.rect.w && e.rect.y
                <= y < e.rect.y + e.rect.h && forall|j: int|
                0 <= j < k ==> {
                    let q = (#[trigger] s[j]).rect;
                    !(q.x <= x < q.x + q.w && q.y <= y < q.y + q.h)
                },
{
    let p = |c: Screen| c.rect.covers(x, y);
    search_is_complete(s, p);
    if first_where(s, p) == Some(e) {
        let k = choose|k: int| is_first(s, p, k);
        assert(is_first(s, p, k));
        assert forall|j: int| 0 <= j < k implies {
            let q = (#[trigger] s[j]).rect;
            !(q.x <= x < q.x + q.w && q.y <= y < q.y + q.h)
        } by {
            assert(!p(s[j]));
        }
        assert(p(s[k]));
        assert(s[k] == e);
    }
    if exists|k: int|
        0 <= k < s.len() && #[trigger] s[k] == e && e.rect.x <= x < e.rect.x + e.rect.w && e.rect.y
            <= y < e.rect.y + e.rect.h && forall|j: int|
            0 <= j < k ==> {
                let q = (#[trigger] s[j]).rect;
                !(q.x <= x < q.x + q.w && q.y <= y < q.y + q.h)
            } {
        let k = choose|k: int|
            0 <= k < s.len() && #[trigger] s[k] == e && e.rect.x <= x < e.rect.x + e.rect.w
                && e.rect.y <= y < e.rect.y + e.rect.h && forall|j: int|
                0 <= j < k ==> {
                    let q = (#[trigger] s[j]).rect;
                    !(q.x <= x < q.x + q.w && q.y <= y < q.y + q.h)
                };
        assert(is_first(s, p, k));
        lemma_first_where(s, p, k);
    }
}

} // verus!
