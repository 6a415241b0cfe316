//! Giving a client its place on the desktop.
use vstd::prelude::*;
use vstd::string::*;

use crate::layout::{
    find_screen, first_where, imax, is_first, lemma_first_where, lookup_is_complete,
};
use crate::protocol::{Rect, Screen, ScreenInfo};
use crate::session::{bounded, is_spanned, lemma_push_contains, spans, Session, State};
use crate::text::same;
use crate::Mode;

verus! {

/// The name is that of the server's own screen.
pub open spec fn own_name(s: Seq<Screen>, name: Seq<char>) -> bool {
    find_screen(s, 0) matches Some(e) && e.name@ == name
}

/// The client screen with this name.
pub open spec fn named_screen(s: Seq<Screen>, name: Seq<char>) -> Option<Screen> {
    first_where(s, |e: Screen| e.id != 0 && e.name@ == name)
}

/// The lowest client id that no screen has.
pub open spec fn next_free(s: Seq<Screen>, id: u8) -> bool {
    &&& id != 0
    &&& find_screen(s, id) is None
    &&& forall|j: u8| 0 < j < id ==> #[trigger] find_screen(s, j) is Some
}

/// The right end of the desktop.
pub open spec fn right_end(s: Seq<Screen>, local: Rect) -> int
    decreases s.len(),
{
    if s.len() == 0 {
        local.r()
    } else {
        imax(right_end(s.drop_last(), local), s.last().rect.r())
    }
}

/// Where a new screen with this shape is placed: right of the desktop,
/// level with the top of the server's own screen.
pub open spec fn slot(st: State, info: ScreenInfo) -> Rect {
    Rect {
        x: right_end(st.layout, st.local) as i32,
        y: st.local.y,
        w: info.logical_w,
        h: info.logical_h,
    }
}

/// A new screen with this shape can be placed right of the desktop: an id
/// is free, and its coordinates are machine integers.
pub open spec fn has_slot(st: State, info: ScreenInfo) -> bool {
    &&& exists|id: u8| next_free(st.layout, id)
    &&& i32::MIN <= right_end(st.layout, st.local) <= i32::MAX
    &&& bounded(slot(st, info))
}

/// `t` is the session `s` with a new screen: it has the next free id and
/// this name and shape, and stands right of the desktop, level with the
/// top of the server's own screen. It is a guest's from here on.
/// Everything else is as it was.
pub open spec fn with_newcomer(
    s: State,
    t: State,
    id: u8,
    name: Seq<char>,
    info: ScreenInfo,
) -> bool {
    &&& next_free(s.layout, id)
    &&& t.layout.len() == s.layout.len() + 1
    &&& t.layout.drop_last() == s.layout
    &&& t.layout.last().id == id
    &&& t.layout.last().name@ == name
    &&& t.layout.last().rect == slot(s, info)
    &&& t == (State { layout: t.layout, guests: s.guests.insert(id), ..s })
}

proof fn lemma_known_ids_stay(s: Seq<Screen>, e: Screen, id: u8)
    requires
        find_screen(s, id) is Some,
    ensures
        find_screen(s.push(e), id) is Some,
{
    let t = s.push(e);
    lookup_is_complete(s, id);
    lookup_is_complete(t, id);
    let k = choose|k: int| 0 <= k < s.len() && (#[trigger] s[k]).id == id;
    assert(t[k].id == id);
}

/// A newcomer takes nobody's place: every screen that was there keeps its
/// id and is found as before.
pub proof fn newcomer_takes_nobodys_place(
    s: State,
    t: State,
    id: u8,
    name: Seq<char>,
    info: ScreenInfo,
    other: u8,
)
    requires
        with_newcomer(s, t, id, name, info),
        find_screen(s.layout, other) is Some,
    ensures
        other != id,
        find_screen(t.layout, other) == find_screen(s.layout, other),
{
    let p = |e: Screen| e.id == other;
    let k = choose|k: int| is_first(s.layout, p, k);
    assert(is_first(s.layout, p, k));
    assert(t.layout =~= s.layout.push(t.layout.last()));
    assert(is_first(t.layout, p, k));
    lemma_first_where(s.layout, p, k);
    lemma_first_where(t.layout, p, k);
}

proof fn lemma_right_end_covers(s: Seq<Screen>, local: Rect, k: int)
    requires
        0 <= k < s.len(),
    ensures
        s[k].rect.r() <= right_end(s, local),
    decreases s.len(),
{
    if k < s.len() - 1 {
        lemma_right_end_covers(s.drop_last(), local, k);
        assert(s.drop_last()[k] == s[k]);
    }
}

/// A newcomer overlaps nobody: its screen begins where the last of the
/// others ends.
pub proof fn newcomer_overlaps_nobody(
    s: State,
    t: State,
    id: u8,
    name: Seq<char>,
    info: ScreenInfo,
    k: int,
)
    requires
        with_newcomer(s, t, id, name, info),
        has_slot(s, info),
        0 <= k < s.layout.len(),
    ensures
        s.layout[k].rect.r() <= t.layout.last().rect.l(),
{
    lemma_right_end_covers(s.layout, s.local, k);
}

impl Session {
    /// The lowest client id that no screen has, if any is left.
    fn free_id(&self) -> (r: Option<u8>)
        ensures
            match r {
                Some(id) => next_free(self@.layout, id),
                None => forall|id: u8| !next_free(self@.layout, id),
            },
    {
        let mut id: u8 = 1;
        loop
            invariant
                id >= 1,
                forall|j: u8| 0 < j < id ==> #[trigger] find_screen(self@.layout, j) is Some,
            decreases 255 - id,
        {
            if self.layout.find(id).is_none() {
                return Some(id);
            }
            if id == 255 {
                assert forall|j: u8| !next_free(self@.layout, j) by {
                    if j != 0 {
                        assert(find_screen(self@.layout, j) is Some);
                    }
                }
                return None;
            }
            id += 1;
        }
    }

    /// The right end of the desktop.
    fn desktop_end(&self) -> (r: i64)
        requires
            self.wf(),
        ensures
            r == right_end(self@.layout, self@.local),
    {
        let ghost s = self@.layout;
        let mut end: i64 = self.local.x as i64 + self.local.w as i64;
        let mut i: usize = 0;
        assert(s.take(0) =~= Seq::<Screen>::empty());
        while i < self.layout.screens.len()
            invariant
                i <= self.layout.screens@.len(),
                s == self.layout.screens@,
                end == right_end(s.take(i as int), self@.local),
            decreases self.layout.screens@.len() - i,
        {
            proof {
                assert(s.take(i + 1).drop_last() =~= s.take(i as int));
                assert(s.take(i + 1).last() == s[i as int]);
            }
            let r: i64 = self.layout.screens[i].rect.x as i64 + self.layout.screens[i].rect.w as i64;
            if r > end {
                end = r;
            }
            i += 1;
        }
        assert(s.take(i as int) =~= s);
        end
    }

    /// Can a new screen with this shape be placed right of the desktop?
    pub fn has_room_for(&self, info: ScreenInfo) -> (r: bool)
        requires
            self.wf(),
        ensures
            r == has_slot(self@, info),
    {
        let end: i64 = self.desktop_end();
        let free: bool = match self.free_id() {
            Some(id) => {
                assert(next_free(self@.layout, id));
                true
            },
            None => false,
        };
        if end < i32::MIN as i64 || end > i32::MAX as i64 {
            return false;
        }
        let rect: Rect = Rect {
            x: end as i32,
            y: self.local.y,
            w: info.logical_w,
            h: info.logical_h,
        };
        free && is_spanned(&rect, &rect)
    }

    /// The screen of a client that introduced itself with `name`: its id,
    /// and whether it was made for it. A client that the layout has never
    /// heard of gets a new screen right of the desktop, so that a fresh
    /// pair of machines works before either has been configured. The
    /// server's own name is nobody else's.
    pub fn admit_client(&mut self, name: &str, info: ScreenInfo) -> (r: Option<(u8, bool)>)
        requires
            old(self).wf(),
            !own_name(old(self)@.layout, name@) && named_screen(old(self)@.layout, name@) is None
                ==> has_slot(old(self)@, info),
        ensures
            final(self).wf(),
            own_name(old(self)@.layout, name@) ==> r is None && final(self)@ == old(self)@,
            !own_name(old(self)@.layout, name@) ==> match named_screen(old(self)@.layout, name@) {
                Some(e) => r == Some((e.id, false)) && final(self)@ == old(self)@,
                None => {
                    &&& r matches Some((id, made))
                    &&& made
                    &&& with_newcomer(old(self)@, final(self)@, id, name@, info)
                },
            },
    {
        let ghost st = self@;
        let own: bool = match self.layout.find(0) {
            Some(e) => same(e.name.as_str(), name),
            None => false,
        };
        if own {
            return None;
        }
        match self.assign_screen_id(name) {
            Some(id) => {
                return Some((id, false));
            },
            None => {},
        }
        let end: i64 = self.desktop_end();
        let id: u8 = match self.free_id() {
            Some(id) => id,
            None => {
                let ghost w = choose|id: u8| next_free(st.layout, id);
                assert(!next_free(st.layout, w));
                assert(false);
                0
            },
        };
        let e: Screen = Screen {
            id,
            name: name.to_owned(),
            rect: Rect { x: end as i32, y: self.local.y, w: info.logical_w, h: info.logical_h },
        };
        proof {
            if let Mode::Remote(cur) = st.cursor.mode {
                lemma_known_ids_stay(st.layout, e, cur);
            }
        }
        self.layout.screens.push(e);
        let ghost before = self.guests@;
        self.guests.push(id);
        proof {
            assert(self.guests@.to_set() =~= before.to_set().insert(id)) by {
                assert forall|j: u8| self.guests@.to_set().contains(j) == before.to_set().insert(
                    id,
                ).contains(j) by {
                    lemma_push_contains(before, id, j);
                }
            }
            let t = self@.layout;
            assert(t.drop_last() =~= st.layout);
            lookup_is_complete(st.layout, id);
            assert forall|i: int, j: int|
                #![trigger t[i], t[j]]
                0 <= i < t.len() && 0 <= j < t.len() && t[i].id == t[j].id implies spans(
                t[i].rect,
                t[j].rect,
            ) by {
                let n = st.layout.len();
                if i < n && j < n {
                    assert(spans(st.layout[i].rect, st.layout[j].rect));
                } else if i < n {
                    assert(st.layout[i].id == id);
                } else if j < n {
                    assert(st.layout[j].id == id);
                }
            }
            assert(with_newcomer(st, self@, id, name@, info));
            if find_screen(st.layout, 0) is Some {
                newcomer_takes_nobodys_place(st, self@, id, name@, info, 0);
            } else {
                lookup_is_complete(st.layout, 0);
                lookup_is_complete(t, 0);
                if find_screen(t, 0) is Some {
                    let k = choose|k: int| 0 <= k < t.len() && (#[trigger] t[k]).id == 0;
                    assert(st.layout[k].id == 0);
                }
            }
        }
        Some((id, true))
    }
}

} // verus!
