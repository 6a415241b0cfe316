//! What a config is good for, and what becomes of its screens, entry by
//! entry.
use vstd::prelude::*;

use crate::config::geometry::{corrected, correction_room, first_named, placed, stale};
use crate::config::start::{configured, startable};
use crate::config::{
    blank, complaint, display_size, first_flaw, flawed, positive, sound, Config, ScreenConfig,
};
use crate::snap::{snap_room, snap_rounds};
use crate::session::bounded_layout;
use crate::text::white;
use crate::text_laws::white_text_is_trimmed_to_nothing;

verus! {

/// The name of screen `i` is nothing but white space.
pub open spec fn nameless(s: Seq<ScreenConfig>, i: int) -> bool {
    forall|k: int| 0 <= k < s[i].name@.len() ==> white(#[trigger] s[i].name@[k])
}

/// The name of screen `i` is that of a screen before it.
pub open spec fn named_before(s: Seq<ScreenConfig>, i: int) -> bool {
    exists|j: int| 0 <= j < i && (#[trigger] s[j]).name@ == s[i].name@
}

/// A config can be used exactly when it lists a screen, and no screen is
/// nameless or has the name of another one. What is wrong with it is told
/// of the first screen that is at fault, and a missing name before a name
/// that is taken.
pub proof fn what_makes_a_config_usable(s: Seq<ScreenConfig>, i: int, quoted: Seq<char>)
    requires
        0 <= i < s.len(),
    ensures
        blank(s, i) <==> nameless(s, i),
        flawed(s, i) <==> nameless(s, i) || named_before(s, i),
        first_flaw(s, i) <==> (nameless(s, i) || named_before(s, i)) && forall|j: int|
            0 <= j < i ==> !(#[trigger] nameless(s, j)) && !named_before(s, j),
        sound(s) <==> forall|j: int|
            0 <= j < s.len() ==> !(#[trigger] nameless(s, j)) && !named_before(s, j),
        nameless(s, i) ==> complaint(s, i, quoted) == "screen names must not be empty"@,
        !nameless(s, i) ==> complaint(s, i, quoted) == "duplicate screen name "@ + quoted,
{
    white_text_is_trimmed_to_nothing(s[i].name@);
    assert forall|j: int| 0 <= j < s.len() implies #[trigger] flawed(s, j) == (nameless(s, j)
        || named_before(s, j)) by {
        white_text_is_trimmed_to_nothing(s[j].name@);
    }
    if first_flaw(s, i) {
        assert forall|j: int| 0 <= j < i implies !(#[trigger] nameless(s, j)) && !named_before(
            s,
            j,
        ) by {
            assert(!flawed(s, j));
        }
    }
    if (nameless(s, i) || named_before(s, i)) && forall|j: int|
        0 <= j < i ==> !(#[trigger] nameless(s, j)) && !named_before(s, j) {
        assert forall|j: int| 0 <= j < i implies !#[trigger] flawed(s, j) by {
            assert(!nameless(s, j));
        }
    }
    if sound(s) {
        assert forall|j: int| 0 <= j < s.len() implies !(#[trigger] nameless(s, j))
            && !named_before(s, j) by {
            assert(!flawed(s, j));
        }
    }
    if forall|j: int| 0 <= j < s.len() ==> !(#[trigger] nameless(s, j)) && !named_before(s, j) {
        assert forall|j: int| 0 <= j < s.len() implies !#[trigger] flawed(s, j) by {
            assert(!nameless(s, j));
        }
    }
}

/// No screens, no config.
pub proof fn a_config_lists_a_screen(s: Seq<ScreenConfig>)
    requires
        s.len() == 0,
    ensures
        !sound(s),
{
}

/// A size that a platform reports counts as at least one pixel; where it
/// reports none, a screen is 1920 by 1080.
pub proof fn a_screen_has_a_size(w: u32, h: u32)
    ensures
        w > 0 ==> positive(w) == w,
        positive(0) == 1,
        display_size(Some((w, h))) == (positive(w), positive(h)),
        display_size(None) == (1920u32, 1080u32),
{
}

/// Each entry of a config becomes a screen with its name, at its place and
/// of its size; the screens are numbered in order, the server's own first.
pub proof fn each_entry_becomes_a_screen(s: Seq<ScreenConfig>, i: int)
    requires
        0 <= i < s.len(),
        s[i].width <= i32::MAX,
        s[i].height <= i32::MAX,
    ensures
        placed(s).len() == s.len(),
        i < 256 ==> placed(s)[i].id == i,
        placed(s)[i].name == s[i].name,
        placed(s)[i].rect.x == s[i].x,
        placed(s)[i].rect.y == s[i].y,
        placed(s)[i].rect.w == s[i].width,
        placed(s)[i].rect.h == s[i].height,
{
}

/// A server's layout is its config's screens after eight rounds of
/// snapping; it starts where there is a screen and every coordinate is a
/// machine integer.
pub proof fn a_server_starts_from_its_screens(cfg: Config)
    ensures
        configured(cfg) == snap_rounds(placed(cfg.screens@), 8),
        startable(cfg) <==> cfg.screens@.len() > 0 && snap_room(placed(cfg.screens@))
            && bounded_layout(snap_rounds(placed(cfg.screens@), 8)),
{
}

/// Correcting the server's own screen to its real size: the first screen
/// takes the size and keeps its place and name. Every screen that stood at
/// or past its old right edge moves with that edge, every one at or past
/// its old bottom edge with that one, and nothing else moves. It is news
/// exactly when the size differs.
pub proof fn the_own_screen_is_corrected(s: Seq<ScreenConfig>, w: u32, h: u32, k: int)
    requires
        0 < k < s.len(),
        correction_room(s, w, h),
        w <= i32::MAX && h <= i32::MAX,
        s[0].width <= i32::MAX && s[0].height <= i32::MAX,
    ensures
        ({
            let t = corrected(s, w, h);
            &&& t.len() == s.len()
            &&& t[0] == ScreenConfig { width: w, height: h, ..s[0] }
            &&& t[k].name == s[k].name && t[k].width == s[k].width && t[k].height == s[k].height
            &&& t[k].x - s[k].x == if s[k].x >= s[0].width {
                w - s[0].width
            } else {
                0
            }
            &&& t[k].y - s[k].y == if s[k].y >= s[0].height {
                h - s[0].height
            } else {
                0
            }
            &&& stale(s, w, h) <==> s[0].width != w || s[0].height != h
        }),
        !stale(Seq::empty(), w, h),
{
    if stale(s, w, h) {
        assert(i32::MIN <= crate::config::geometry::follow(
            s[k].x as int,
            s[0].width,
            crate::config::geometry::growth(w, s[0].width),
        ));
    }
}

/// The correction has room exactly where every moved place is a machine
/// integer.
pub proof fn a_correction_stays_in_range(s: Seq<ScreenConfig>, w: u32, h: u32, k: int)
    requires
        0 < k < s.len(),
        w <= i32::MAX && h <= i32::MAX,
        s[0].width <= i32::MAX && s[0].height <= i32::MAX,
        correction_room(s, w, h),
        s[0].width != w || s[0].height != h,
    ensures
        s[k].x >= s[0].width ==> i32::MIN <= s[k].x + w - s[0].width <= i32::MAX,
        s[k].y >= s[0].height ==> i32::MIN <= s[k].y + h - s[0].height <= i32::MAX,
{
    assert(i32::MIN <= crate::config::geometry::follow(
        s[k].x as int,
        s[0].width,
        crate::config::geometry::growth(w, s[0].width),
    ));
}

/// The first screen with a name is the one that no other of that name comes
/// before.
pub proof fn the_first_screen_of_a_name(s: Seq<ScreenConfig>, name: Seq<char>, i: int)
    ensures
        first_named(s, name, i) <==> 0 <= i < s.len() && s[i].name@ == name && forall|j: int|
            0 <= j < i ==> (#[trigger] s[j]).name@ != name,
{
}

} // verus!
