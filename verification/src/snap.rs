//! Removing layout noise: near-adjacent screens are snapped into exact
//! contact.
use vstd::prelude::*;

use crate::layout::{Layout, EDGE_TOLERANCE};
use crate::protocol::{Rect, Screen};

verus! {

/// The rounds of snapping that one normalization makes at most.
pub const SNAP_ROUNDS: usize = 8;

/// The most one pair rule moves a coordinate (px).
pub const SNAP_REACH: i32 = 32;

/// Two coordinates are within [`EDGE_TOLERANCE`] of each other.
pub open spec fn close(a: int, b: int) -> bool {
    -EDGE_TOLERANCE <= a - b <= EDGE_TOLERANCE
}

/// The spans `[a_lo, a_hi)` and `[b_lo, b_hi)` overlap, with
/// [`EDGE_TOLERANCE`] px of slack at the ends.
pub open spec fn overlapping(a_lo: int, a_hi: int, b_lo: int, b_hi: int) -> bool {
    a_lo - EDGE_TOLERANCE < b_hi && b_lo - EDGE_TOLERANCE < a_hi
}

/// `b` stands just right of `a`.
pub open spec fn right_of(a: Rect, b: Rect) -> bool {
    close(a.r(), b.l()) && overlapping(a.t(), a.b(), b.t(), b.b())
}

/// `b` stands just below `a`.
pub open spec fn below(a: Rect, b: Rect) -> bool {
    close(a.b(), b.t()) && overlapping(a.l(), a.r(), b.l(), b.r())
}

/// `to` when `v` is close to it, else `v`.
pub open spec fn aligned(v: int, to: int) -> int {
    if close(v, to) {
        to
    } else {
        v
    }
}

/// Where `b` stands after it has been fitted to the side of `a`.
pub open spec fn beside(a: Rect, b: Rect) -> (int, int) {
    if right_of(a, b) {
        (a.r(), aligned(b.y as int, a.y as int))
    } else if right_of(b, a) {
        (a.l() - b.w, aligned(b.y as int, a.y as int))
    } else {
        (b.x as int, b.y as int)
    }
}

/// Where `b` stands after it has been fitted to `a` on all sides: beside
/// it first, then above or below it.
pub open spec fn fitted(a: Rect, b: Rect) -> (int, int) {
    let p = beside(a, b);
    if below(a, b) {
        (aligned(p.0, a.x as int), a.b())
    } else if below(b, a) {
        (aligned(p.0, a.x as int), a.t() - b.h)
    } else {
        p
    }
}

/// `b` after it has been fitted to `a`. Its size never changes.
pub open spec fn snapped(a: Rect, b: Rect) -> Rect {
    Rect { x: fitted(a, b).0 as i32, y: fitted(a, b).1 as i32, w: b.w, h: b.h }
}

/// The layout after screen `j` has been fitted to screen `i`.
pub open spec fn snap_pair(s: Seq<Screen>, i: int, j: int) -> Seq<Screen> {
    if i == j {
        s
    } else {
        s.update(
            j,
            Screen { id: s[j].id, name: s[j].name, rect: snapped(s[i].rect, s[j].rect) },
        )
    }
}

/// The layout after the first `m` screens have been fitted to screen `i`.
pub open spec fn snap_row(s: Seq<Screen>, i: int, m: nat) -> Seq<Screen>
    decreases m,
{
    if m == 0 {
        s
    } else {
        snap_pair(snap_row(s, i, (m - 1) as nat), i, m - 1)
    }
}

/// The layout after every screen has been fitted to each of the first
/// `m` screens in turn.
pub open spec fn snap_rows(s: Seq<Screen>, m: nat) -> Seq<Screen>
    decreases m,
{
    if m == 0 {
        s
    } else {
        snap_row(snap_rows(s, (m - 1) as nat), m - 1, s.len())
    }
}

/// One round: every screen fitted to every other.
pub open spec fn snap_round(s: Seq<Screen>) -> Seq<Screen> {
    snap_rows(s, s.len())
}

/// The layout after `n` rounds.
pub open spec fn snap_rounds(s: Seq<Screen>, n: nat) -> Seq<Screen>
    decreases n,
{
    if n == 0 {
        s
    } else {
        snap_round(snap_rounds(s, (n - 1) as nat))
    }
}

/// The position of `b` fitted to `a` is made of machine integers.
pub open spec fn in_range(a: Rect, b: Rect) -> bool {
    &&& i32::MIN <= fitted(a, b).0 <= i32::MAX
    &&& i32::MIN <= fitted(a, b).1 <= i32::MAX
}

/// Every position that [`snap_row`] makes is made of machine integers.
pub open spec fn row_room(s: Seq<Screen>, i: int, m: nat) -> bool
    decreases m,
{
    m > 0 ==> {
        let t = snap_row(s, i, (m - 1) as nat);
        &&& row_room(s, i, (m - 1) as nat)
        &&& i == m - 1 || in_range(t[i].rect, t[m - 1].rect)
    }
}

/// Every position that [`snap_rows`] makes is made of machine integers.
pub open spec fn rows_room(s: Seq<Screen>, m: nat) -> bool
    decreases m,
{
    m > 0 ==> {
        &&& rows_room(s, (m - 1) as nat)
        &&& row_room(snap_rows(s, (m - 1) as nat), m - 1, s.len())
    }
}

/// Every position that the first `n` rounds make is made of machine
/// integers.
pub open spec fn rounds_room(s: Seq<Screen>, n: nat) -> bool
    decreases n,
{
    n > 0 ==> {
        let t = snap_rounds(s, (n - 1) as nat);
        &&& rounds_room(s, (n - 1) as nat)
        &&& rows_room(t, t.len())
    }
}

/// Every position that a normalization makes is made of machine integers.
pub open spec fn snap_room(s: Seq<Screen>) -> bool {
    rounds_room(s, SNAP_ROUNDS as nat)
}

/// `t` is `s` with every screen moved by at most `steps` pair rules:
/// same screens, same order, same sizes.
pub open spec fn within_drift(s: Seq<Screen>, t: Seq<Screen>, steps: int) -> bool {
    &&& t.len() == s.len()
    &&& forall|k: int|
        0 <= k < s.len() ==> {
            &&& (#[trigger] t[k]).id == s[k].id
            &&& t[k].name == s[k].name
            &&& t[k].rect.w == s[k].rect.w
            &&& t[k].rect.h == s[k].rect.h
            &&& -SNAP_REACH * steps <= t[k].rect.x - s[k].rect.x <= SNAP_REACH * steps
            &&& -SNAP_REACH * steps <= t[k].rect.y - s[k].rect.y <= SNAP_REACH * steps
        }
}

/// One pair rule moves each coordinate by at most [`SNAP_REACH`].
proof fn lemma_fitted_reach(a: Rect, b: Rect)
    ensures
        -SNAP_REACH <= fitted(a, b).0 - b.x <= SNAP_REACH,
        -SNAP_REACH <= fitted(a, b).1 - b.y <= SNAP_REACH,
{
}

pub(crate) proof fn lemma_row_keeps(s: Seq<Screen>, i: int, m: nat)
    requires
        m <= s.len(),
    ensures
        snap_row(s, i, m).len() == s.len(),
        forall|k: int| m <= k < s.len() ==> #[trigger] snap_row(s, i, m)[k] == s[k],
        0 <= i < s.len() ==> snap_row(s, i, m)[i] == s[i],
    decreases m,
{
    if m > 0 {
        lemma_row_keeps(s, i, (m - 1) as nat);
    }
}

proof fn lemma_rows_len(s: Seq<Screen>, m: nat)
    requires
        m <= s.len(),
    ensures
        snap_rows(s, m).len() == s.len(),
    decreases m,
{
    if m > 0 {
        lemma_rows_len(s, (m - 1) as nat);
        lemma_row_keeps(snap_rows(s, (m - 1) as nat), m - 1, s.len());
    }
}

proof fn lemma_rounds_stay(s: Seq<Screen>, p: nat, n: nat)
    requires
        p <= n,
        snap_round(snap_rounds(s, p)) == snap_rounds(s, p),
    ensures
        snap_rounds(s, n) == snap_rounds(s, p),
    decreases n,
{
    if p < n {
        lemma_rounds_stay(s, p, (n - 1) as nat);
    }
}

proof fn lemma_row_room(s: Seq<Screen>, i: int, m: nat, n: nat)
    requires
        m <= n,
        row_room(s, i, n),
    ensures
        row_room(s, i, m),
    decreases n,
{
    if m < n {
        lemma_row_room(s, i, m, (n - 1) as nat);
    }
}

proof fn lemma_rows_room(s: Seq<Screen>, m: nat, n: nat)
    requires
        m <= n,
        rows_room(s, n),
    ensures
        rows_room(s, m),
    decreases n,
{
    if m < n {
        lemma_rows_room(s, m, (n - 1) as nat);
    }
}

pub(crate) proof fn lemma_rounds_room(s: Seq<Screen>, m: nat, n: nat)
    requires
        m <= n,
        rounds_room(s, n),
    ensures
        rounds_room(s, m),
    decreases n,
{
    if m < n {
        lemma_rounds_room(s, m, (n - 1) as nat);
    }
}

/// A layout that settles with room has room for any further round.
proof fn lemma_settled_room(s: Seq<Screen>, p: nat, n: nat)
    requires
        p <= n,
        rounds_room(s, p),
        snap_round(snap_rounds(s, p)) == snap_rounds(s, p),
        rows_room(snap_rounds(s, p), snap_rounds(s, p).len()),
    ensures
        rounds_room(s, n),
    decreases n,
{
    if p < n {
        lemma_settled_room(s, p, (n - 1) as nat);
        lemma_rounds_stay(s, p, (n - 1) as nat);
    }
}

/// A layout that one round leaves alone is normal already.
pub proof fn settled_layout_is_normal(s: Seq<Screen>)
    requires
        snap_round(s) == s,
    ensures
        snap_rounds(s, SNAP_ROUNDS as nat) == s,
{
    lemma_rounds_stay(s, 0, SNAP_ROUNDS as nat);
}

/// Normalizing twice is normalizing once, for a layout that settles
/// within the rounds.
pub proof fn normalizing_twice_changes_nothing(s: Seq<Screen>)
    requires
        snap_round(snap_rounds(s, SNAP_ROUNDS as nat)) == snap_rounds(s, SNAP_ROUNDS as nat),
    ensures
        snap_rounds(snap_rounds(s, SNAP_ROUNDS as nat), SNAP_ROUNDS as nat) == snap_rounds(
            s,
            SNAP_ROUNDS as nat,
        ),
{
    settled_layout_is_normal(snap_rounds(s, SNAP_ROUNDS as nat));
}

/// A pair of large enough rectangles settles in one exchange: once `b` has
/// been fitted to `a` and then `a` to `b`, both rules leave them alone.
proof fn lemma_pair_settles(a: Rect, b: Rect)
    requires
        a.w > SNAP_REACH && a.h > SNAP_REACH && b.w > SNAP_REACH && b.h > SNAP_REACH,
        in_range(a, b),
        in_range(snapped(a, b), a),
    ensures
        ({
            let b1 = snapped(a, b);
            let a1 = snapped(b1, a);
            snapped(a1, b1) == b1 && snapped(b1, a1) == a1
        }),
{
    let b1 = snapped(a, b);
    assert(b1.x == fitted(a, b).0 && b1.y == fitted(a, b).1);
    let a1 = snapped(b1, a);
    assert(a1.x == fitted(b1, a).0 && a1.y == fitted(b1, a).1);
    assert(fitted(a1, b1) == (b1.x as int, b1.y as int));
    assert(fitted(b1, a1) == (a1.x as int, a1.y as int));
}

pub(crate) proof fn lemma_round_of_two(s: Seq<Screen>)
    requires
        s.len() == 2,
    ensures
        snap_round(s).len() == 2,
        snap_round(s)[1].rect == snapped(s[0].rect, s[1].rect),
        snap_round(s)[0].rect == snapped(snap_round(s)[1].rect, s[0].rect),
        snap_round(s)[0].id == s[0].id && snap_round(s)[0].name == s[0].name,
        snap_round(s)[1].id == s[1].id && snap_round(s)[1].name == s[1].name,
        rows_room(s, 2) ==> in_range(s[0].rect, s[1].rect) && in_range(
            snap_round(s)[1].rect,
            s[0].rect,
        ),
{
    reveal_with_fuel(rows_room, 3);
    reveal_with_fuel(row_room, 3);
    reveal_with_fuel(snap_rows, 3);
    reveal_with_fuel(snap_row, 3);
    let t = snap_row(s, 0, 2);
    assert(t == snap_pair(s, 0, 1));
    assert(snap_rows(s, 1) == t);
    assert(snap_round(s) == snap_row(t, 1, 2));
    assert(snap_row(t, 1, 2) == snap_pair(t, 1, 0));
}

/// Normalizing is idempotent on one or two screens of more than
/// [`SNAP_REACH`] px either way: a single round settles them, so
/// normalizing the result again changes nothing.
pub proof fn two_screens_settle_in_one_round(s: Seq<Screen>)
    requires
        s.len() <= 2,
        snap_room(s),
        forall|k: int|
            0 <= k < s.len() ==> (#[trigger] s[k]).rect.w > SNAP_REACH && s[k].rect.h > SNAP_REACH,
    ensures
        snap_rounds(s, SNAP_ROUNDS as nat) == snap_round(s),
        snap_round(snap_rounds(s, SNAP_ROUNDS as nat)) == snap_rounds(s, SNAP_ROUNDS as nat),
        snap_rounds(snap_rounds(s, SNAP_ROUNDS as nat), SNAP_ROUNDS as nat) == snap_rounds(
            s,
            SNAP_ROUNDS as nat,
        ),
{
    reveal_with_fuel(snap_rounds, 2);
    lemma_rounds_room(s, 1, SNAP_ROUNDS as nat);
    assert(snap_rounds(s, 0) == s);
    let t = snap_round(s);
    assert(snap_rounds(s, 1) == t);
    assert(snap_round(t) == t) by {
        if s.len() == 2 {
            lemma_round_of_two(s);
            lemma_round_of_two(t);
            lemma_pair_settles(s[0].rect, s[1].rect);
            assert(snap_round(t) =~= t);
        } else {
            reveal_with_fuel(snap_rows, 2);
            reveal_with_fuel(snap_row, 2);
        }
    }
    lemma_rounds_stay(s, 1, SNAP_ROUNDS as nat);
    normalizing_twice_changes_nothing(s);
}

/// Two rectangles are too far apart for a pair rule.
pub open spec fn apart(a: Rect, b: Rect) -> bool {
    !right_of(a, b) && !right_of(b, a) && !below(a, b) && !below(b, a)
}

proof fn lemma_row_apart(s: Seq<Screen>, i: int, m: nat)
    requires
        0 <= i < s.len(),
        m <= s.len(),
        forall|a: int, b: int|
            0 <= a < s.len() && 0 <= b < s.len() && a != b ==> apart(
                (#[trigger] s[a]).rect,
                (#[trigger] s[b]).rect,
            ),
    ensures
        snap_row(s, i, m) == s,
        row_room(s, i, m),
    decreases m,
{
    if m > 0 {
        lemma_row_apart(s, i, (m - 1) as nat);
        if i != m - 1 {
            assert(apart(s[i].rect, s[m - 1].rect));
            assert(s.update(m - 1, s[m - 1]) =~= s);
        }
    }
}

proof fn lemma_rows_apart(s: Seq<Screen>, m: nat)
    requires
        m <= s.len(),
        forall|a: int, b: int|
            0 <= a < s.len() && 0 <= b < s.len() && a != b ==> apart(
                (#[trigger] s[a]).rect,
                (#[trigger] s[b]).rect,
            ),
    ensures
        snap_rows(s, m) == s,
        rows_room(s, m),
    decreases m,
{
    if m > 0 {
        lemma_rows_apart(s, (m - 1) as nat);
        lemma_row_apart(s, m - 1, s.len());
    }
}

/// Gaps the user placed deliberately are not closed: a layout in which no
/// two screens are within the tolerance is left as it is, wherever its
/// screens stand.
pub proof fn deliberate_gaps_stay(s: Seq<Screen>)
    requires
        forall|a: int, b: int|
            0 <= a < s.len() && 0 <= b < s.len() && a != b ==> apart(
                (#[trigger] s[a]).rect,
                (#[trigger] s[b]).rect,
            ),
    ensures
        snap_room(s),
        snap_rounds(s, SNAP_ROUNDS as nat) == s,
{
    lemma_rows_apart(s, s.len());
    settled_layout_is_normal(s);
    lemma_settled_room(s, 0, SNAP_ROUNDS as nat);
}

/// Every position is at least `steps` times [`SNAP_REACH`] away from the
/// ends of the integer range.
pub open spec fn clear_of_the_ends(s: Seq<Screen>, steps: int) -> bool {
    forall|k: int|
        0 <= k < s.len() ==> {
            &&& i32::MIN + SNAP_REACH * steps <= (#[trigger] s[k]).rect.x <= i32::MAX - SNAP_REACH
                * steps
            &&& i32::MIN + SNAP_REACH * steps <= s[k].rect.y <= i32::MAX - SNAP_REACH * steps
        }
}

proof fn lemma_row_drifts(s0: Seq<Screen>, s: Seq<Screen>, i: int, m: nat, steps: int)
    requires
        0 <= steps,
        within_drift(s0, s, steps),
        clear_of_the_ends(s0, steps + 1),
        0 <= i < s.len(),
        m <= s.len(),
    ensures
        row_room(s, i, m),
        within_drift(s0, snap_row(s, i, m), steps + 1),
    decreases m,
{
    if m == 0 {
        assert forall|k: int| 0 <= k < s0.len() implies -SNAP_REACH * (steps + 1) <= (
        #[trigger] s[k]).rect.x - s0[k].rect.x by {}
    } else {
        lemma_row_drifts(s0, s, i, (m - 1) as nat, steps);
        lemma_row_keeps(s, i, (m - 1) as nat);
        let t = snap_row(s, i, (m - 1) as nat);
        let j = m - 1;
        assert(t[j] == s[j]);
        assert(s[j].id == s0[j].id);
        assert(i32::MIN + SNAP_REACH * (steps + 1) <= s0[j].rect.x);
        lemma_fitted_reach(t[i].rect, t[j].rect);
        let u = snap_row(s, i, m);
        assert forall|k: int| 0 <= k < s0.len() implies {
            &&& (#[trigger] u[k]).id == s0[k].id
            &&& u[k].name == s0[k].name
            &&& u[k].rect.w == s0[k].rect.w
            &&& u[k].rect.h == s0[k].rect.h
            &&& -SNAP_REACH * (steps + 1) <= u[k].rect.x - s0[k].rect.x <= SNAP_REACH * (steps + 1)
            &&& -SNAP_REACH * (steps + 1) <= u[k].rect.y - s0[k].rect.y <= SNAP_REACH * (steps + 1)
        } by {
            assert(t[k].id == s0[k].id);
        }
    }
}

proof fn lemma_rows_drift(s0: Seq<Screen>, s: Seq<Screen>, m: nat, steps: int)
    requires
        0 <= steps,
        within_drift(s0, s, steps),
        clear_of_the_ends(s0, steps + m),
        m <= s.len(),
    ensures
        rows_room(s, m),
        within_drift(s0, snap_rows(s, m), steps + m),
    decreases m,
{
    if m > 0 {
        assert forall|k: int| 0 <= k < s0.len() implies {
            &&& i32::MIN + SNAP_REACH * (steps + (m - 1)) <= (#[trigger] s0[k]).rect.x <= i32::MAX
                - SNAP_REACH * (steps + (m - 1))
            &&& i32::MIN + SNAP_REACH * (steps + (m - 1)) <= s0[k].rect.y <= i32::MAX - SNAP_REACH
                * (steps + (m - 1))
        } by {}
        lemma_rows_drift(s0, s, (m - 1) as nat, steps);
        lemma_row_drifts(s0, snap_rows(s, (m - 1) as nat), m - 1, s.len(), steps + (m - 1));
    }
}

proof fn lemma_rounds_drift(s: Seq<Screen>, n: nat)
    requires
        clear_of_the_ends(s, (n * s.len()) as int),
    ensures
        rounds_room(s, n),
        within_drift(s, snap_rounds(s, n), (n * s.len()) as int),
    decreases n,
{
    if n > 0 {
        let len = s.len();
        assert((n - 1) * len + len == n * len) by (nonlinear_arith);
        assert(0 <= (n - 1) * len) by (nonlinear_arith)
            requires
                n > 0,
                0 <= len,
        ;
        assert forall|k: int| 0 <= k < s.len() implies {
            &&& i32::MIN + SNAP_REACH * ((n - 1) * len) <= (#[trigger] s[k]).rect.x <= i32::MAX
                - SNAP_REACH * ((n - 1) * len)
            &&& i32::MIN + SNAP_REACH * ((n - 1) * len) <= s[k].rect.y <= i32::MAX - SNAP_REACH * ((
            n - 1) * len)
        } by {}
        lemma_rounds_drift(s, (n - 1) as nat);
        lemma_rows_drift(s, snap_rounds(s, (n - 1) as nat), len, (n - 1) * len);
    }
}

/// A layout whose positions are clear of the ends of the integer range has
/// room for its normalization.
pub proof fn clear_layout_has_room(s: Seq<Screen>)
    requires
        clear_of_the_ends(s, SNAP_ROUNDS * s.len()),
    ensures
        snap_room(s),
{
    lemma_rounds_drift(s, SNAP_ROUNDS as nat);
}

/// A pair rule brings a side-by-side pair into exact contact: when only
/// that rule applies, `b` ends where `a`'s right edge is, and its top
/// line is `a`'s when they were close.
pub proof fn snapping_makes_contact(a: Rect, b: Rect)
    requires
        in_range(a, b),
    ensures
        right_of(a, b) && !below(a, b) && !below(b, a) ==> snapped(a, b).l() == a.r() && (close(
            a.t(),
            b.t(),
        ) ==> snapped(a, b).t() == a.t()),
        right_of(b, a) && !right_of(a, b) && !below(a, b) && !below(b, a) ==> snapped(a, b).r()
            == a.l() && (close(a.t(), b.t()) ==> snapped(a, b).t() == a.t()),
        below(a, b) ==> snapped(a, b).t() == a.b(),
        below(b, a) && !below(a, b) ==> snapped(a, b).b() == a.t(),
{
}

/// Are two facing edges within the tolerance of each other (touching
/// counts)?
fn near(edge_a: i64, edge_b: i64) -> (r: bool)
    requires
        -0x2_0000_0000 <= edge_a <= 0x2_0000_0000,
        -0x2_0000_0000 <= edge_b <= 0x2_0000_0000,
    ensures
        r == close(edge_a as int, edge_b as int),
{
    let gap: i64 = edge_a - edge_b;
    -(EDGE_TOLERANCE as i64) <= gap && gap <= EDGE_TOLERANCE as i64
}

/// Do two 1-D spans overlap, allowing the tolerance at the ends?
fn spans_overlap(a_lo: i64, a_hi: i64, b_lo: i64, b_hi: i64) -> (r: bool)
    requires
        -0x2_0000_0000 <= a_lo <= 0x2_0000_0000,
        -0x2_0000_0000 <= b_lo <= 0x2_0000_0000,
    ensures
        r == overlapping(a_lo as int, a_hi as int, b_lo as int, b_hi as int),
{
    a_lo - (EDGE_TOLERANCE as i64) < b_hi && b_lo - (EDGE_TOLERANCE as i64) < a_hi
}

/// [`fitted`] as a value.
fn fit(a: &Rect, b: &Rect) -> (r: (i64, i64))
    ensures
        (r.0 as int, r.1 as int) == fitted(*a, *b),
{
    let (al, at): (i64, i64) = (a.x as i64, a.y as i64);
    let (ar, ab): (i64, i64) = (al + a.w as i64, at + a.h as i64);
    let (bl, bt): (i64, i64) = (b.x as i64, b.y as i64);
    let (br, bb): (i64, i64) = (bl + b.w as i64, bt + b.h as i64);
    let mut x: i64 = bl;
    let mut y: i64 = bt;
    if near(ar, bl) && spans_overlap(at, ab, bt, bb) {
        x = ar;
        if near(y, at) {
            y = at;
        }
    } else if near(br, al) && spans_overlap(bt, bb, at, ab) {
        x = al - b.w as i64;
        if near(y, at) {
            y = at;
        }
    }
    if near(ab, bt) && spans_overlap(al, ar, bl, br) {
        y = ab;
        if near(x, al) {
            x = al;
        }
    } else if near(bb, at) && spans_overlap(bl, br, al, ar) {
        y = at - b.h as i64;
        if near(x, al) {
            x = al;
        }
    }
    (x, y)
}

/// Fit `b` to `a`, where the position is made of machine integers.
fn snap(a: &Rect, b: &Rect) -> (r: Option<Rect>)
    ensures
        r == if in_range(*a, *b) {
            Some(snapped(*a, *b))
        } else {
            None
        },
{
    let (x, y): (i64, i64) = fit(a, b);
    let lo: i64 = i32::MIN as i64;
    let hi: i64 = i32::MAX as i64;
    if lo <= x && x <= hi && lo <= y && y <= hi {
        Some(Rect { x: x as i32, y: y as i32, w: b.w, h: b.h })
    } else {
        None
    }
}

impl Layout {
    /// The layout after all the rounds of a normalization, where every
    /// position on the way is made of machine integers.
    fn settled(&self) -> (r: Option<Layout>)
        ensures
            r is Some <==> snap_room(self@),
            r matches Some(l) ==> {
                &&& l@ == snap_rounds(self@, SNAP_ROUNDS as nat)
                &&& within_drift(self@, l@, SNAP_ROUNDS * self@.len())
            },
    {
        let ghost s0 = self@;
        let mut screens: Vec<Screen> = self.clone().screens;
        let n: usize = screens.len();
        let mut p: usize = 0;
        let mut settled: bool = false;
        while p < SNAP_ROUNDS && !settled
            invariant
                p <= SNAP_ROUNDS,
                s0 == self@,
                n == s0.len(),
                screens@.len() == n,
                screens@ == snap_rounds(s0, p as nat),
                rounds_room(s0, p as nat),
                settled ==> snap_round(screens@) == screens@ && rows_room(screens@, n as nat),
                within_drift(s0, screens@, p * n),
            decreases SNAP_ROUNDS - p,
        {
            let ghost start = screens@;
            let mut changed: bool = false;
            let mut i: usize = 0;
            proof {
                lemma_rows_len(start, start.len());
            }
            while i < n
                invariant
                    i <= n,
                    p < SNAP_ROUNDS,
                    s0 == self@,
                    n == s0.len(),
                    start == snap_rounds(s0, p as nat),
                    start.len() == n,
                    screens@.len() == n,
                    screens@ == snap_rows(start, i as nat),
                    rows_room(start, i as nat),
                    !changed ==> screens@ == start,
                    within_drift(s0, screens@, p * n + i),
                decreases n - i,
            {
                let ghost base = screens@;
                let a: Rect = screens[i].rect;
                let mut j: usize = 0;
                while j < n
                    invariant
                        j <= n,
                        i < n,
                        p < SNAP_ROUNDS,
                        s0 == self@,
                        n == s0.len(),
                        start == snap_rounds(s0, p as nat),
                        start.len() == n,
                        base.len() == n,
                        base == snap_rows(start, i as nat),
                        a == base[i as int].rect,
                        screens@.len() == n,
                        screens@ == snap_row(base, i as int, j as nat),
                        row_room(base, i as int, j as nat),
                        !changed ==> screens@ == start,
                        within_drift(s0, base, p * n + i),
                        within_drift(s0, screens@, p * n + i + 1),
                        forall|k: int| j <= k < n ==> #[trigger] screens@[k] == base[k],
                        screens@[i as int] == base[i as int],
                    decreases n - j,
                {
                    if i != j {
                        let b: Rect = screens[j].rect;
                        let ghost before = screens@;
                        proof {
                            assert(before[j as int] == base[j as int]);
                            lemma_fitted_reach(a, b);
                        }
                        let nb: Rect = match snap(&a, &b) {
                            Some(nb) => nb,
                            None => {
                                proof {
                                    assert(!row_room(base, i as int, (j + 1) as nat));
                                    lemma_no_room(s0, p as nat, i as nat, (j + 1) as nat);
                                }
                                return None;
                            },
                        };
                        if nb != b {
                            screens[j].rect = nb;
                            changed = true;
                        }
                        assert(screens@ =~= snap_pair(before, i as int, j as int));
                    }
                    j += 1;
                }
                proof {
                    lemma_row_keeps(base, i as int, n as nat);
                }
                i += 1;
            }
            proof {
                assert(p * n + n == (p + 1) * n) by (nonlinear_arith);
            }
            settled = !changed;
            p += 1;
        }
        proof {
            if settled {
                lemma_rounds_stay(s0, p as nat, SNAP_ROUNDS as nat);
                lemma_settled_room(s0, p as nat, SNAP_ROUNDS as nat);
            }
            assert(p * n <= SNAP_ROUNDS * n) by (nonlinear_arith)
                requires
                    p <= SNAP_ROUNDS,
                    0 <= n,
            ;
        }
        Some(Layout { screens })
    }

    /// Is every position that a normalization makes made of machine
    /// integers?
    pub fn has_snap_room(&self) -> (r: bool)
        ensures
            r == snap_room(self@),
    {
        self.settled().is_some()
    }

    /// Return a copy with layout noise removed: near-adjacent screens
    /// (within [`EDGE_TOLERANCE`]) are snapped into exact contact and
    /// their perpendicular spans aligned, so the boundary math is
    /// pixel-exact. Larger gaps stay: crossing them works anyway.
    pub fn normalized(&self) -> (r: Layout)
        requires
            snap_room(self@),
        ensures
            r@ == snap_rounds(self@, SNAP_ROUNDS as nat),
            within_drift(self@, r@, SNAP_ROUNDS * self@.len()),
    {
        match self.settled() {
            Some(l) => l,
            None => self.clone(),
        }
    }
}

/// A position out of range in one row leaves no room for the whole.
proof fn lemma_no_room(s: Seq<Screen>, p: nat, i: nat, m: nat)
    requires
        p < SNAP_ROUNDS,
        snap_rounds(s, p).len() == s.len(),
        i < s.len(),
        m <= s.len(),
        !row_room(snap_rows(snap_rounds(s, p), i), i as int, m),
    ensures
        !snap_room(s),
{
    let start = snap_rounds(s, p);
    if snap_room(s) {
        lemma_rounds_room(s, p + 1, SNAP_ROUNDS as nat);
        lemma_rows_room(start, i + 1, start.len());
        lemma_row_room(snap_rows(start, i), i as int, m, start.len());
    }
}

} // verus!
