//! Which walls of a screen a cursor sits on, as a bit mask.
use vstd::prelude::*;

use crate::layout::Direction;
use crate::protocol::Rect;

verus! {

/// Wall-band width (px). A real cursor within this many pixels of a
/// screen edge counts as "at the wall". Two pixels absorb pointer
/// position quantization without making the band wide enough to steal
/// aim from UI elements near the edge.
pub const EDGE_BAND: i32 = 2;

pub const BIT_LEFT: u8 = 1;

pub const BIT_RIGHT: u8 = 2;

pub const BIT_TOP: u8 = 4;

pub const BIT_BOTTOM: u8 = 8;

/// The mask bit of a direction.
pub open spec fn bit_of(dir: Direction) -> u8 {
    match dir {
        Direction::Left => BIT_LEFT,
        Direction::Right => BIT_RIGHT,
        Direction::Top => BIT_TOP,
        Direction::Bottom => BIT_BOTTOM,
    }
}

/// The directions whose bit is set.
pub open spec fn walls(bits: u8) -> Set<Direction> {
    Set::new(|d: Direction| bits & bit_of(d) != 0)
}

/// The local position `(x, y)` lies in the band along `rect`'s edge
/// `dir`. A screen no wider (or taller) than two bands has no such wall.
pub open spec fn touches(rect: Rect, x: int, y: int, dir: Direction) -> bool {
    match dir {
        Direction::Left => rect.w > 2 * EDGE_BAND && x < EDGE_BAND,
        Direction::Right => rect.w > 2 * EDGE_BAND && x >= rect.w - EDGE_BAND,
        Direction::Top => rect.h > 2 * EDGE_BAND && y < EDGE_BAND,
        Direction::Bottom => rect.h > 2 * EDGE_BAND && y >= rect.h - EDGE_BAND,
    }
}

/// The walls that the local position `(x, y)` touches.
pub open spec fn touched(rect: Rect, x: int, y: int) -> Set<Direction> {
    Set::new(|d: Direction| touches(rect, x, y, d))
}

proof fn lemma_set_bit(m: u8)
    by (bit_vector)
    ensures
        m < 16 ==> m | 1 < 16 && m | 2 < 16 && m | 4 < 16 && m | 8 < 16,
        (m | 1) & 1 != 0,
        (m | 1) & 2 == m & 2,
        (m | 1) & 4 == m & 4,
        (m | 1) & 8 == m & 8,
        (m | 2) & 1 == m & 1,
        (m | 2) & 2 != 0,
        (m | 2) & 4 == m & 4,
        (m | 2) & 8 == m & 8,
        (m | 4) & 1 == m & 1,
        (m | 4) & 2 == m & 2,
        (m | 4) & 4 != 0,
        (m | 4) & 8 == m & 8,
        (m | 8) & 1 == m & 1,
        (m | 8) & 2 == m & 2,
        (m | 8) & 4 == m & 4,
        (m | 8) & 8 != 0,
{
}

proof fn lemma_clear_bit(m: u8)
    by (bit_vector)
    ensures
        m < 16 ==> m & !1 < 16 && m & !2 < 16 && m & !4 < 16 && m & !8 < 16,
        (m & !1) & 1 == 0,
        (m & !1) & 2 == m & 2,
        (m & !1) & 4 == m & 4,
        (m & !1) & 8 == m & 8,
        (m & !2) & 1 == m & 1,
        (m & !2) & 2 == 0,
        (m & !2) & 4 == m & 4,
        (m & !2) & 8 == m & 8,
        (m & !4) & 1 == m & 1,
        (m & !4) & 2 == m & 2,
        (m & !4) & 4 == 0,
        (m & !4) & 8 == m & 8,
        (m & !8) & 1 == m & 1,
        (m & !8) & 2 == m & 2,
        (m & !8) & 4 == m & 4,
        (m & !8) & 8 == 0,
{
}

proof fn lemma_new_bits(a: u8, b: u8)
    by (bit_vector)
    ensures
        a & !b & 1 != 0 <==> a & 1 != 0 && b & 1 == 0,
        a & !b & 2 != 0 <==> a & 2 != 0 && b & 2 == 0,
        a & !b & 4 != 0 <==> a & 4 != 0 && b & 4 == 0,
        a & !b & 8 != 0 <==> a & 8 != 0 && b & 8 == 0,
{
}

proof fn lemma_no_bits(m: u8)
    by (bit_vector)
    ensures
        0u8 & m == 0,
        m < 16 ==> (m == 0 <==> m & 1 == 0 && m & 2 == 0 && m & 4 == 0 && m & 8 == 0),
{
}

/// An empty mask has no walls, and a mask of direction bits without walls
/// is empty.
pub proof fn mask_is_empty(bits: u8)
    requires
        bits < 16,
    ensures
        bits == 0 <==> walls(bits) =~= Set::<Direction>::empty(),
{
    lemma_no_bits(bits);
    if walls(bits) =~= Set::<Direction>::empty() {
        assert(!walls(bits).contains(Direction::Left));
        assert(!walls(bits).contains(Direction::Right));
        assert(!walls(bits).contains(Direction::Top));
        assert(!walls(bits).contains(Direction::Bottom));
    }
    if bits == 0 {
        assert forall|d: Direction| !walls(bits).contains(d) by {
            lemma_no_bits(bit_of(d));
        }
    }
}

/// The mask bit of a direction.
pub fn bit(dir: Direction) -> (r: u8)
    ensures
        r == bit_of(dir),
{
    match dir {
        Direction::Left => BIT_LEFT,
        Direction::Right => BIT_RIGHT,
        Direction::Top => BIT_TOP,
        Direction::Bottom => BIT_BOTTOM,
    }
}

/// Which walls a *local* position sits on, if any. `x`/`y` are local
/// pixels inside `rect` (or up to a hair past it). The OS pins the
/// pointer at the outer pixel column/row (`0` / `w - 1`), so those are
/// the walls; [`EDGE_BAND`] gives the test slack. Degenerate screens
/// smaller than two bands arm nothing.
pub fn wall_bits(rect: &Rect, x: i32, y: i32) -> (bits: u8)
    ensures
        bits < 16,
        walls(bits) =~= touched(*rect, x as int, y as int),
{
    let mut bits: u8 = 0;
    proof {
        lemma_no_bits(1);
        lemma_no_bits(2);
        lemma_no_bits(4);
        lemma_no_bits(8);
    }
    if rect.w > 2 * EDGE_BAND {
        if x <= EDGE_BAND - 1 {
            proof {
                lemma_set_bit(bits);
            }
            bits = bits | BIT_LEFT;
        }
        if x >= rect.w - EDGE_BAND {
            proof {
                lemma_set_bit(bits);
            }
            bits = bits | BIT_RIGHT;
        }
    }
    if rect.h > 2 * EDGE_BAND {
        if y <= EDGE_BAND - 1 {
            proof {
                lemma_set_bit(bits);
            }
            bits = bits | BIT_TOP;
        }
        if y >= rect.h - EDGE_BAND {
            proof {
                lemma_set_bit(bits);
            }
            bits = bits | BIT_BOTTOM;
        }
    }
    assert forall|d: Direction| walls(bits).contains(d) == touched(*rect, x as int, y as int).contains(d) by {
        match d {
            Direction::Left => {},
            Direction::Right => {},
            Direction::Top => {},
            Direction::Bottom => {},
        }
    }
    bits
}

/// Is the direction's bit set?
pub(crate) fn armed(bits: u8, dir: Direction) -> (r: bool)
    ensures
        r == walls(bits).contains(dir),
{
    bits & bit(dir) != 0
}

/// The mask without the direction's bit.
pub(crate) fn disarmed(bits: u8, dir: Direction) -> (r: u8)
    requires
        bits < 16,
    ensures
        r < 16,
        walls(r) =~= walls(bits).remove(dir),
{
    proof {
        lemma_clear_bit(bits);
    }
    let r: u8 = bits & !bit(dir);
    assert forall|d: Direction| walls(r).contains(d) == walls(bits).remove(dir).contains(d) by {
        match dir {
            Direction::Left => {},
            Direction::Right => {},
            Direction::Top => {},
            Direction::Bottom => {},
        }
        match d {
            Direction::Left => {},
            Direction::Right => {},
            Direction::Top => {},
            Direction::Bottom => {},
        }
    }
    r
}

/// The bits of `bits` that `before` lacks.
pub(crate) fn newly_set(bits: u8, before: u8) -> (r: u8)
    ensures
        walls(r) =~= walls(bits).difference(walls(before)),
{
    proof {
        lemma_new_bits(bits, before);
    }
    let r: u8 = bits & !before;
    assert forall|d: Direction| walls(r).contains(d) == walls(bits).difference(walls(before)).contains(d) by {
        match d {
            Direction::Left => {},
            Direction::Right => {},
            Direction::Top => {},
            Direction::Bottom => {},
        }
    }
    r
}

} // verus!
