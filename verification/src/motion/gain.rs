//! The windows from which the server's own pixels-per-count transform is
//! measured.
use vstd::prelude::*;

verus! {

/// Minimum raw counts in a window for it to be measurable.
pub const GAIN_MIN_REL: u128 = 12;

/// Minimum real travel (px) in a window for it to be measurable.
pub const GAIN_MIN_REAL: u128 = 4;

/// A window whose real travel exceeds this multiple of its raw counts is
/// a *jump*, not motion (a crossing park, a warp, a grab transition).
pub const GAIN_MAX_JUMP_FACTOR: u128 = 4;

/// One measured window: real travel against raw counts.
#[derive(Debug, Clone, Copy, PartialEq, Eq, Structural)]
pub struct Window {
    /// Real cursor travel (px).
    pub travel: u128,
    /// Raw device counts.
    pub rel: u128,
    /// How many windows have been measured, this one included.
    pub sample: u32,
}

/// What a tracker knows.
pub struct Tally {
    /// Real cursor position at the last beacon.
    pub last: Option<(i32, i32)>,
    /// Raw counts since the last beacon.
    pub rel: (int, int),
    /// Windows measured so far.
    pub samples: int,
}

/// The magnitude of a number.
pub open spec fn magnitude(v: int) -> int {
    if v >= 0 {
        v
    } else {
        -v
    }
}

/// A window with this much travel and this many counts is motion: not
/// idle and not a jump.
pub open spec fn measurable(seen: int, rel: int) -> bool {
    rel >= GAIN_MIN_REL && seen >= GAIN_MIN_REAL && seen <= GAIN_MAX_JUMP_FACTOR * rel
}

impl Tally {
    /// The counts of the open window.
    pub open spec fn counts(self) -> int {
        magnitude(self.rel.0) + magnitude(self.rel.1)
    }

    /// The travel of a window that a beacon at `(x, y)` closes.
    pub open spec fn travel(self, x: int, y: int) -> int {
        match self.last {
            Some((px, py)) => magnitude(x - px) + magnitude(y - py),
            None => 0,
        }
    }

    /// A beacon at `(x, y)` closes a measurable window.
    pub open spec fn measures(self, x: int, y: int) -> bool {
        self.last is Some && measurable(self.travel(x, y), self.counts())
    }

    /// A delta was counted.
    pub open spec fn counted(self, dx: int, dy: int) -> Tally {
        Tally { rel: (self.rel.0 + dx, self.rel.1 + dy), ..self }
    }

    /// A beacon at `(x, y)` closed the window and opened the next.
    pub open spec fn closed_at(self, x: i32, y: i32) -> Tally {
        Tally {
            last: Some((x, y)),
            rel: (0, 0),
            samples: self.samples + if self.measures(x as int, y as int) {
                1int
            } else {
                0
            },
        }
    }

    /// Another delta can be counted.
    pub open spec fn can_count(self, dx: int, dy: int) -> bool {
        &&& i64::MIN <= self.rel.0 + dx <= i64::MAX
        &&& i64::MIN <= self.rel.1 + dy <= i64::MAX
    }
}

/// Measures the server's own pointer transform from the capture stream:
/// every raw delta goes into [`GainTracker::on_delta`] and every
/// real-position beacon into [`GainTracker::on_beacon`].
#[derive(Debug)]
pub struct GainTracker {
    last: Option<(i32, i32)>,
    rel: (i64, i64),
    samples: u32,
}

impl View for GainTracker {
    type V = Tally;

    closed spec fn view(&self) -> Tally {
        Tally {
            last: self.last,
            rel: (self.rel.0 as int, self.rel.1 as int),
            samples: self.samples as int,
        }
    }
}

/// The magnitude of a difference.
fn distance(a: i32, b: i32) -> (r: u128)
    ensures
        r == magnitude(a - b),
{
    if a >= b {
        (a as i128 - b as i128) as u128
    } else {
        (b as i128 - a as i128) as u128
    }
}

/// The magnitude of a count.
fn size(v: i64) -> (r: u128)
    ensures
        r == magnitude(v as int),
{
    if v >= 0 {
        v as u128
    } else {
        (-(v as i128)) as u128
    }
}

impl Default for GainTracker {
    /// A tracker that has measured nothing.
    fn default() -> (r: Self)
        ensures
            r@ == (Tally { last: None, rel: (0, 0), samples: 0 }),
    {
        GainTracker::new()
    }
}

impl GainTracker {
    /// A tracker that has measured nothing.
    pub fn new() -> (r: Self)
        ensures
            r@ == (Tally { last: None, rel: (0, 0), samples: 0 }),
    {
        GainTracker { last: None, rel: (0, 0), samples: 0 }
    }

    /// Count one raw device delta since the last beacon.
    pub fn on_delta(&mut self, dx: i32, dy: i32)
        requires
            old(self)@.can_count(dx as int, dy as int),
        ensures
            final(self)@ == (Tally {
                rel: (old(self)@.rel.0 + dx, old(self)@.rel.1 + dy),
                ..old(self)@
            }),
            final(self)@ == old(self)@.counted(dx as int, dy as int),
    {
        self.rel = (self.rel.0 + dx as i64, self.rel.1 + dy as i64);
    }

    /// Can the delta be counted in a machine integer?
    pub fn counts(&self, dx: i32, dy: i32) -> (r: bool)
        ensures
            r == self@.can_count(dx as int, dy as int),
    {
        self.rel.0.checked_add(dx as i64).is_some() && self.rel.1.checked_add(dy as i64).is_some()
    }

    /// The real cursor reached `(x, y)`: close the window opened by the
    /// last beacon. Gives the window when it is measurable; idle and
    /// jump-polluted windows are skipped.
    pub fn on_beacon(&mut self, x: i32, y: i32) -> (r: Option<Window>)
        requires
            old(self)@.samples < u32::MAX,
        ensures
            final(self)@ == (Tally {
                last: Some((x, y)),
                rel: (0, 0),
                samples: old(self)@.samples + if old(self)@.measures(x as int, y as int) {
                    1int
                } else {
                    0
                },
            }),
            final(self)@ == old(self)@.closed_at(x, y),
            r is Some <==> old(self)@.measures(x as int, y as int),
            r matches Some(w) ==> w.travel == old(self)@.travel(x as int, y as int) && w.rel == old(
                self,
            )@.counts() && w.sample == final(self)@.samples,
    {
        let mut out: Option<Window> = None;
        match self.last {
            Some((px, py)) => {
                let rel: u128 = size(self.rel.0) + size(self.rel.1);
                let seen: u128 = distance(x, px) + distance(y, py);
                if rel >= GAIN_MIN_REL && seen >= GAIN_MIN_REAL && seen <= GAIN_MAX_JUMP_FACTOR
                    * rel {
                    self.samples = self.samples + 1;
                    out = Some(Window { travel: seen, rel, sample: self.samples });
                }
            },
            None => {},
        }
        self.last = Some((x, y));
        self.rel = (0, 0);
        out
    }

    /// How many windows have been measured.
    pub fn samples(&self) -> (r: u32)
        ensures
            r == self@.samples,
    {
        self.samples
    }
}

/// The first beacon only anchors the window: there is nothing to measure
/// against yet.
pub proof fn first_beacon_only_anchors(t: Tally, x: int, y: int)
    requires
        t.last is None,
    ensures
        !t.measures(x, y),
{
}

} // verus!
