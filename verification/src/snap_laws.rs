//! What snapping does to a pair of screens and to a whole desktop, in
//! coordinates.
use vstd::prelude::*;

use crate::protocol::{Rect, Screen};
use crate::snap::{
    fitted, in_range, lemma_round_of_two, lemma_rounds_room, lemma_row_keeps, snap_round,
    snap_rounds, snap_room, snap_row, snap_rows, snapped, two_screens_settle_in_one_round,
    SNAP_ROUNDS,
};

verus! {

/// The rows of the two rectangles overlap or are less than 16 apart.
pub open spec fn share_rows(a: Rect, b: Rect) -> bool {
    a.y < b.y + b.h + 16 && b.y < a.y + a.h + 16
}

/// The columns of the two rectangles overlap or are less than 16 apart.
pub open spec fn share_columns(a: Rect, b: Rect) -> bool {
    a.x < b.x + b.w + 16 && b.x < a.x + a.w + 16
}

/// The two lines are at most 16 px apart.
pub open spec fn within_16(u: int, v: int) -> bool {
    u <= v + 16 && v <= u + 16
}

/// Where one screen is fitted to another. A screen whose facing edge is at
/// most 16 px off the other's is brought into contact, above or below first
/// of all, and lines up with it where they are at most 16 px out of line.
/// A screen that faces none of the four edges so closely stays. The size
/// stays in any case.
pub proof fn a_near_screen_is_brought_into_contact(a: Rect, b: Rect)
    requires
        in_range(a, b),
    ensures
        ({
            let c = snapped(a, b);
            let right = within_16(a.x + a.w, b.x as int) && share_rows(a, b);
            let left = within_16(b.x + b.w, a.x as int) && share_rows(a, b);
            let under = within_16(a.y + a.h, b.y as int) && share_columns(a, b);
            let over = within_16(b.y + b.h, a.y as int) && share_columns(a, b);
            &&& c.w == b.w && c.h == b.h
            &&& under ==> c.y == a.y + a.h
            &&& over && !under ==> c.y + c.h == a.y
            &&& !under && !over && (right || left) ==> c.y == if within_16(b.y as int, a.y as int) {
                a.y
            } else {
                b.y
            }
            &&& !under && !over && right ==> c.x == a.x + a.w
            &&& !under && !over && left && !right ==> c.x + c.w == a.x
            &&& (under || over) && !right && !left ==> c.x == if within_16(b.x as int, a.x as int) {
                a.x
            } else {
                b.x
            }
            &&& (under || over) && right ==> c.x == if within_16(a.x + a.w, a.x as int) {
                a.x as int
            } else {
                a.x + a.w
            }
            &&& (under || over) && left && !right ==> c.x == if within_16(
                a.x - b.w,
                a.x as int,
            ) {
                a.x as int
            } else {
                a.x - b.w
            }
            &&& !under && !over && !right && !left ==> c == b
        }),
{
}

proof fn lemma_row(s: Seq<Screen>, i: int, m: nat, j: int)
    requires
        0 <= i < s.len(),
        m <= s.len(),
        0 <= j < s.len(),
    ensures
        snap_row(s, i, m).len() == s.len(),
        snap_row(s, i, m)[j].id == s[j].id,
        snap_row(s, i, m)[j].name == s[j].name,
        snap_row(s, i, m)[j].rect == if j < m && j != i {
            snapped(s[i].rect, s[j].rect)
        } else {
            s[j].rect
        },
    decreases m,
{
    if m > 0 {
        lemma_row(s, i, (m - 1) as nat, j);
        lemma_row_keeps(s, i, (m - 1) as nat);
    }
}

/// Within a row every other screen is fitted to the one screen of the row,
/// from where it was, and that one stays. A round has one row for each
/// screen, in the order of the layout, each starting from where the last
/// left the desktop.
pub proof fn a_row_fits_all_to_one(s: Seq<Screen>, i: int, j: int, m: nat)
    requires
        0 <= i < s.len(),
        0 <= j < s.len(),
        m < s.len(),
    ensures
        ({
            let t = snap_row(s, i, s.len());
            &&& t.len() == s.len()
            &&& t[j].id == s[j].id && t[j].name == s[j].name
            &&& j != i ==> t[j].rect == snapped(s[i].rect, s[j].rect)
            &&& j == i ==> t[j].rect == s[j].rect
        }),
        snap_rows(s, 0) == s,
        snap_rows(s, m + 1) == snap_row(snap_rows(s, m), m as int, s.len()),
        snap_round(s) == snap_rows(s, s.len()),
        snap_rounds(s, 0) == s,
        snap_rounds(s, m + 1) == snap_round(snap_rounds(s, m)),
{
    lemma_row(s, i, s.len(), j);
}

/// Of two screens of some size that have more than 16 rows or columns in
/// common the second comes to the first: a normalization leaves the first where it is
/// and fits the second to it.
pub proof fn the_second_of_two_screens_comes_to_the_first(s: Seq<Screen>)
    requires
        s.len() == 2,
        snap_room(s),
        s[0].rect.w > 32 && s[0].rect.h > 32 && s[1].rect.w > 32 && s[1].rect.h > 32,
        ({
            let (a, b) = (s[0].rect, s[1].rect);
            ||| a.y + 16 < b.y + b.h && b.y + 16 < a.y + a.h
            ||| a.x + 16 < b.x + b.w && b.x + 16 < a.x + a.w
        }),
    ensures
        ({
            let t = snap_rounds(s, 8);
            &&& t.len() == 2
            &&& t[0] == s[0]
            &&& t[1].id == s[1].id && t[1].name == s[1].name
            &&& t[1].rect == snapped(s[0].rect, s[1].rect)
        }),
{
    assert forall|k: int| 0 <= k < s.len() implies (#[trigger] s[k]).rect.w > 32 && s[k].rect.h
        > 32 by {}
    two_screens_settle_in_one_round(s);
    assert(SNAP_ROUNDS as nat == 8);
    lemma_round_of_two(s);
    lemma_rounds_room(s, 1, 8);
    reveal_with_fuel(snap_rounds, 2);
    assert(snap_rounds(s, 0) == s);
    let a = s[0].rect;
    let b = snapped(a, s[1].rect);
    assert(in_range(a, s[1].rect) && in_range(b, a));
    assert(fitted(b, a) == (a.x as int, a.y as int));
    assert(snapped(b, a) == a);
}

} // verus!
