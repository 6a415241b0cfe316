//! Layout geometry: turning a config into a layout, and correcting
//! configured sizes to the real ones.
use vstd::prelude::*;
use vstd::string::*;

use crate::config::{at_least_one, positive, Config, ScreenConfig};
use crate::layout::Layout;
use crate::protocol::{Rect, Screen};
use crate::snap::{snap_room, snap_rounds, within_drift, SNAP_ROUNDS};
use crate::text::same;

verus! {

/// The screens of a config on the plane: id 0 is the server, then upward
/// in order.
pub open spec fn placed(s: Seq<ScreenConfig>) -> Seq<Screen> {
    Seq::new(
        s.len(),
        |i: int|
            Screen {
                id: (i % 256) as u8,
                name: s[i].name,
                rect: Rect { x: s[i].x, y: s[i].y, w: s[i].width as i32, h: s[i].height as i32 },
            },
    )
}

/// The difference between the new and the old size of the server's own
/// screen.
pub open spec fn growth(new: u32, past: u32) -> int {
    (new as i32) - (past as i32)
}

/// A coordinate after the edge that it may be built against moved:
/// coordinates at or past the old edge follow it.
pub open spec fn follow(v: int, edge: u32, by: int) -> int {
    if v >= edge as i32 {
        v + by
    } else {
        v
    }
}

/// The server's own screen is of another size.
pub open spec fn stale(s: Seq<ScreenConfig>, w: u32, h: u32) -> bool {
    s.len() > 0 && (s[0].width != w || s[0].height != h)
}

/// Correcting the server's own screen stays in the integer range.
pub open spec fn correction_room(s: Seq<ScreenConfig>, w: u32, h: u32) -> bool {
    stale(s, w, h) ==> {
        let dx = growth(w, s[0].width);
        let dy = growth(h, s[0].height);
        &&& i32::MIN <= dx <= i32::MAX
        &&& i32::MIN <= dy <= i32::MAX
        &&& forall|k: int|
            0 < k < s.len() ==> {
                &&& i32::MIN <= follow((#[trigger] s[k]).x as int, s[0].width, dx) <= i32::MAX
                &&& i32::MIN <= follow(s[k].y as int, s[0].height, dy) <= i32::MAX
            }
    }
}

/// The screens after the server's own one was corrected to its real size:
/// screens placed against its old right or bottom edge follow that edge,
/// everything else stays.
pub open spec fn corrected(s: Seq<ScreenConfig>, w: u32, h: u32) -> Seq<ScreenConfig> {
    if !stale(s, w, h) {
        s
    } else {
        let dx = growth(w, s[0].width);
        let dy = growth(h, s[0].height);
        Seq::new(
            s.len(),
            |k: int|
                if k == 0 {
                    ScreenConfig { width: w, height: h, ..s[0] }
                } else {
                    ScreenConfig {
                        x: follow(s[k].x as int, s[0].width, dx) as i32,
                        y: follow(s[k].y as int, s[0].height, dy) as i32,
                        ..s[k]
                    }
                },
        )
    }
}

/// Screen `i` is the first one with this name.
pub open spec fn first_named(s: Seq<ScreenConfig>, name: Seq<char>, i: int) -> bool {
    &&& 0 <= i < s.len()
    &&& s[i].name@ == name
    &&& forall|j: int| 0 <= j < i ==> (#[trigger] s[j]).name@ != name
}

impl Config {
    /// Build the wire layout: id 0 is the server, then upward in order,
    /// with near-adjacent screens snapped into exact contact.
    pub fn to_layout(&self) -> (r: Layout)
        requires
            snap_room(placed(self.screens@)),
        ensures
            r@ == snap_rounds(placed(self.screens@), SNAP_ROUNDS as nat),
            within_drift(placed(self.screens@), r@, SNAP_ROUNDS * self.screens@.len()),
    {
        self.plane().normalized()
    }

    /// The screens where the config puts them, before any snapping.
    pub fn plane(&self) -> (r: Layout)
        ensures
            r@ == placed(self.screens@),
    {
        let mut screens: Vec<Screen> = Vec::new();
        let mut i: usize = 0;
        while i < self.screens.len()
            invariant
                i <= self.screens@.len(),
                screens@ == placed(self.screens@).take(i as int),
            decreases self.screens@.len() - i,
        {
            let s: &ScreenConfig = &self.screens[i];
            screens.push(
                Screen {
                    id: (i % 256) as u8,
                    name: s.name.clone(),
                    rect: Rect { x: s.x, y: s.y, w: s.width as i32, h: s.height as i32 },
                },
            );
            i += 1;
            assert(screens@ =~= placed(self.screens@).take(i as int));
        }
        assert(screens@ =~= placed(self.screens@));
        Layout::new(screens)
    }

    /// Does a correction to this size stay in the integer range?
    pub fn has_correction_room(&self, w: u32, h: u32) -> (r: bool)
        ensures
            r == correction_room(self.screens@, w, h),
    {
        let ghost s = self.screens@;
        if self.screens.len() == 0 {
            return true;
        }
        let ow: u32 = self.screens[0].width;
        let oh: u32 = self.screens[0].height;
        if ow == w && oh == h {
            return true;
        }
        let dx: i64 = w as i32 as i64 - ow as i32 as i64;
        let dy: i64 = h as i32 as i64 - oh as i32 as i64;
        let lo: i64 = i32::MIN as i64;
        let hi: i64 = i32::MAX as i64;
        if dx < lo || dx > hi || dy < lo || dy > hi {
            return false;
        }
        let mut i: usize = 1;
        while i < self.screens.len()
            invariant
                1 <= i <= s.len(),
                s == self.screens@,
                ow == s[0].width,
                oh == s[0].height,
                dx == growth(w, ow),
                dy == growth(h, oh),
                lo == i32::MIN,
                hi == i32::MAX,
                lo <= dx <= hi,
                lo <= dy <= hi,
                stale(s, w, h),
                forall|k: int|
                    0 < k < i ==> {
                        &&& lo <= follow((#[trigger] s[k]).x as int, ow, dx as int) <= hi
                        &&& lo <= follow(s[k].y as int, oh, dy as int) <= hi
                    },
            decreases s.len() - i,
        {
            let e: &ScreenConfig = &self.screens[i];
            let x: i64 = if e.x >= ow as i32 {
                e.x as i64 + dx
            } else {
                e.x as i64
            };
            let y: i64 = if e.y >= oh as i32 {
                e.y as i64 + dy
            } else {
                e.y as i64
            };
            assert(x == follow(s[i as int].x as int, ow, dx as int));
            assert(y == follow(s[i as int].y as int, oh, dy as int));
            if x < lo || x > hi || y < lo || y > hi {
                return false;
            }
            i += 1;
        }
        true
    }

    /// Correct the server's own screen to the display's real size, and
    /// shift the screens that were placed against its old right or bottom
    /// edge, so that they stay adjacent. Says whether anything changed: a
    /// platform that reports no display changes nothing.
    pub fn correct_local_screen(&mut self, display: Option<(u32, u32)>) -> (r: bool)
        requires
            display matches Some((w, h)) ==> correction_room(
                old(self).screens@,
                positive(w),
                positive(h),
            ),
        ensures
            final(self).port == old(self).port,
            final(self).network == old(self).network,
            match display {
                Some((w, h)) => {
                    &&& final(self).screens@ == corrected(old(self).screens@, positive(w), positive(h))
                    &&& r == stale(old(self).screens@, positive(w), positive(h))
                },
                None => !r && final(self).screens@ == old(self).screens@,
            },
    {
        match display {
            Some((w, h)) => self.correct_local_screen_to(at_least_one(w), at_least_one(h)),
            None => false,
        }
    }

    /// Correct the server's own screen to this size.
    pub fn correct_local_screen_to(&mut self, w: u32, h: u32) -> (r: bool)
        requires
            correction_room(old(self).screens@, w, h),
        ensures
            final(self).port == old(self).port,
            final(self).network == old(self).network,
            final(self).screens@ == corrected(old(self).screens@, w, h),
            r == stale(old(self).screens@, w, h),
    {
        let ghost s = self.screens@;
        let ghost t = corrected(s, w, h);
        let n: usize = self.screens.len();
        if n == 0 {
            return false;
        }
        let ow: u32 = self.screens[0].width;
        let oh: u32 = self.screens[0].height;
        if ow == w && oh == h {
            return false;
        }
        self.screens[0].width = w;
        self.screens[0].height = h;
        let dx: i32 = w as i32 - ow as i32;
        let dy: i32 = h as i32 - oh as i32;
        let mut i: usize = 1;
        while i < n
            invariant
                1 <= i <= n,
                n == s.len(),
                n == self.screens@.len(),
                t == corrected(s, w, h),
                stale(s, w, h),
                correction_room(s, w, h),
                ow == s[0].width,
                oh == s[0].height,
                dx == growth(w, ow),
                dy == growth(h, oh),
                self.port == old(self).port,
                self.network == old(self).network,
                forall|k: int| 0 <= k < i ==> #[trigger] self.screens@[k] == t[k],
                forall|k: int| i <= k < n ==> #[trigger] self.screens@[k] == s[k],
            decreases n - i,
        {
            let ghost e = s[i as int];
            assert(self.screens@[i as int] == e);
            if self.screens[i].x >= ow as i32 {
                let x: i32 = self.screens[i].x + dx;
                self.screens[i].x = x;
            }
            if self.screens[i].y >= oh as i32 {
                let y: i32 = self.screens[i].y + dy;
                self.screens[i].y = y;
            }
            assert(self.screens@[i as int] == t[i as int]);
            i += 1;
        }
        assert(self.screens@ =~= t);
        true
    }

    /// Correct the configured size of the screen with this name to the
    /// size that its client just reported. Only the size of that screen is
    /// touched. Says whether anything changed.
    pub fn record_reported_size(&mut self, name: &str, width: u32, height: u32) -> (r: bool)
        ensures
            final(self).port == old(self).port,
            final(self).network == old(self).network,
            (forall|i: int| 0 <= i < old(self).screens@.len() ==> (#[trigger] old(
                self,
            ).screens@[i]).name@ != name@) ==> !r && final(self).screens@ == old(self).screens@,
            forall|i: int| #[trigger]
                first_named(old(self).screens@, name@, i) ==> {
                    let s = old(self).screens@;
                    &&& final(self).screens@ == s.update(
                        i,
                        ScreenConfig { width: positive(width), height: positive(height), ..s[i] },
                    )
                    &&& r == (s[i].width != positive(width) || s[i].height != positive(height))
                },
    {
        let ghost s = self.screens@;
        let w: u32 = at_least_one(width);
        let h: u32 = at_least_one(height);
        let mut i: usize = 0;
        while i < self.screens.len()
            invariant
                i <= self.screens@.len(),
                s == self.screens@,
                *self == *old(self),
                w == positive(width),
                h == positive(height),
                forall|k: int| 0 <= k < i ==> (#[trigger] s[k]).name@ != name@,
            decreases self.screens@.len() - i,
        {
            if same(self.screens[i].name.as_str(), name) {
                assert(first_named(s, name@, i as int));
                assert forall|k: int| #[trigger] first_named(s, name@, k) implies k == i by {}
                if self.screens[i].width == w && self.screens[i].height == h {
                    assert(s.update(i as int, s[i as int]) =~= s);
                    return false;
                }
                self.screens[i].width = w;
                self.screens[i].height = h;
                assert(self.screens@ =~= s.update(
                    i as int,
                    ScreenConfig { width: w, height: h, ..s[i as int] },
                ));
                return true;
            }
            i += 1;
        }
        false
    }
}

// ---------------------------------------------------------------------
// Laws
// ---------------------------------------------------------------------

/// A second correction to the same size changes nothing.
pub proof fn correcting_twice_changes_nothing(s: Seq<ScreenConfig>, w: u32, h: u32)
    ensures
        !stale(corrected(s, w, h), w, h),
        corrected(corrected(s, w, h), w, h) == corrected(s, w, h),
{
}

/// A screen placed at or past the old right edge keeps its distance to
/// that edge, and one placed at or past the old bottom edge keeps its
/// distance to that one: neighbors stay adjacent.
pub proof fn neighbors_stay_adjacent(s: Seq<ScreenConfig>, w: u32, h: u32, k: int)
    requires
        0 < k < s.len(),
        correction_room(s, w, h),
    ensures
        s[k].x >= s[0].width as i32 ==> corrected(s, w, h)[k].x - (w as i32) == s[k].x - (
        s[0].width as i32),
        s[k].y >= s[0].height as i32 ==> corrected(s, w, h)[k].y - (h as i32) == s[k].y - (
        s[0].height as i32),
{
    if stale(s, w, h) {
        assert(i32::MIN <= follow(s[k].x as int, s[0].width, growth(w, s[0].width)) <= i32::MAX);
    }
}

/// A screen that starts before the old right edge does not move sideways,
/// and one that starts above the old bottom edge does not move up or down:
/// overlapping screens and screens to the left or above stay put. No
/// correction renames or resizes a client's screen.
pub proof fn other_screens_stay_put(s: Seq<ScreenConfig>, w: u32, h: u32, k: int)
    requires
        0 < k < s.len(),
    ensures
        s[k].x < s[0].width as i32 ==> corrected(s, w, h)[k].x == s[k].x,
        s[k].y < s[0].height as i32 ==> corrected(s, w, h)[k].y == s[k].y,
        corrected(s, w, h)[k].name == s[k].name,
        corrected(s, w, h)[k].width == s[k].width,
        corrected(s, w, h)[k].height == s[k].height,
{
}

} // verus!
