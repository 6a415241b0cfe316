//! What the user should know about an arrangement before relying on it.
use vstd::prelude::*;
use vstd::string::*;

use crate::layout::Layout;
use crate::protocol::{Rect, Screen};
use crate::text::{debug_text, quote_all, texts};

verus! {

/// Both rectangles cover some common point of the plane's grid lines:
/// their columns and their rows overlap.
pub open spec fn overlap(a: Rect, b: Rect) -> bool {
    a.l() < b.r() && b.l() < a.r() && a.t() < b.b() && b.t() < a.b()
}

/// The warning for a screen without a size.
pub open spec fn no_size_text(quoted: Seq<char>) -> Seq<char> {
    "screen "@ + quoted + " has no size — give it its real resolution"@
}

/// The warning for two screens that overlap.
pub open spec fn overlap_text(a: Seq<char>, b: Seq<char>) -> Seq<char> {
    "screens "@ + a + " and "@ + b + " overlap — the cursor can only be on one; move them apart"@
}

/// The overlap warnings of screen `i` against the screens from `j` on,
/// in layout order. `q` holds the quoted names.
pub open spec fn overlaps_from(s: Seq<Screen>, q: Seq<Seq<char>>, i: int, j: int) -> Seq<Seq<char>>
    decreases s.len() - j,
{
    if j >= s.len() {
        Seq::empty()
    } else if overlap(s[i].rect, s[j].rect) {
        seq![overlap_text(q[i], q[j])] + overlaps_from(s, q, i, j + 1)
    } else {
        overlaps_from(s, q, i, j + 1)
    }
}

/// The warnings of screen `i`: that it has no size, or else each later
/// screen that it overlaps.
pub open spec fn issues_of(s: Seq<Screen>, q: Seq<Seq<char>>, i: int) -> Seq<Seq<char>> {
    if s[i].rect.nonempty() {
        overlaps_from(s, q, i, i + 1)
    } else {
        seq![no_size_text(q[i])]
    }
}

/// The warnings of the screens from `i` on, in layout order.
pub open spec fn issues_from(s: Seq<Screen>, q: Seq<Seq<char>>, i: int) -> Seq<Seq<char>>
    decreases s.len() - i,
{
    if i >= s.len() {
        Seq::empty()
    } else {
        issues_of(s, q, i) + issues_from(s, q, i + 1)
    }
}

/// The quoted names of the screens.
pub open spec fn quoted_names(s: Seq<Screen>) -> Seq<Seq<char>> {
    Seq::new(s.len(), |i: int| debug_text(s[i].name@))
}

proof fn lemma_overlaps_empty(s: Seq<Screen>, q: Seq<Seq<char>>, i: int, j: int)
    requires
        0 <= i < j,
    ensures
        overlaps_from(s, q, i, j).len() == 0 <==> forall|b: int|
            j <= b < s.len() ==> !overlap(s[i].rect, (#[trigger] s[b]).rect),
    decreases s.len() - j,
{
    if j < s.len() {
        lemma_overlaps_empty(s, q, i, j + 1);
        if overlap(s[i].rect, s[j].rect) {
            assert(overlaps_from(s, q, i, j).len() > 0);
        }
    }
}

proof fn lemma_issues_empty(s: Seq<Screen>, q: Seq<Seq<char>>, i: int)
    requires
        0 <= i,
    ensures
        issues_from(s, q, i).len() == 0 <==> {
            &&& forall|a: int| i <= a < s.len() ==> (#[trigger] s[a]).rect.nonempty()
            &&& forall|a: int, b: int|
                i <= a < b < s.len() ==> !overlap((#[trigger] s[a]).rect, (#[trigger] s[b]).rect)
        },
    decreases s.len() - i,
{
    if i < s.len() {
        lemma_issues_empty(s, q, i + 1);
        lemma_overlaps_empty(s, q, i, i + 1);
        if issues_from(s, q, i).len() == 0 {
            assert(issues_of(s, q, i).len() == 0);
            assert forall|a: int, b: int| i <= a < b < s.len() implies !overlap(
                (#[trigger] s[a]).rect,
                (#[trigger] s[b]).rect,
            ) by {
                if a > i {
                    assert(i + 1 <= a);
                }
            }
        } else if issues_of(s, q, i).len() != 0 {
            if s[i].rect.nonempty() {
                let b = choose|b: int| i + 1 <= b < s.len() && overlap(s[i].rect, (#[trigger] s[b]).rect);
                assert(overlap(s[i].rect, s[b].rect));
            }
        }
    }
}

/// No warnings means that the layout is unambiguous: every screen has a
/// size and no two overlap.
pub proof fn no_issues_means_unambiguous(s: Seq<Screen>)
    ensures
        issues_from(s, quoted_names(s), 0).len() == 0 <==> {
            &&& forall|a: int| 0 <= a < s.len() ==> (#[trigger] s[a]).rect.nonempty()
            &&& forall|a: int, b: int|
                0 <= a < b < s.len() ==> !overlap((#[trigger] s[a]).rect, (#[trigger] s[b]).rect)
        },
{
    lemma_issues_empty(s, quoted_names(s), 0);
}

/// [`no_size_text`] as a string.
fn no_size_issue(quoted: &str) -> (r: String)
    ensures
        r@ == no_size_text(quoted@),
{
    let mut out: String = "screen ".to_owned();
    out.append(quoted);
    out.append(" has no size — give it its real resolution");
    out
}

/// [`overlap_text`] as a string.
fn overlap_issue(a: &str, b: &str) -> (r: String)
    ensures
        r@ == overlap_text(a@, b@),
{
    let mut out: String = "screens ".to_owned();
    out.append(a);
    out.append(" and ");
    out.append(b);
    out.append(" overlap — the cursor can only be on one; move them apart");
    out
}

fn overlaps(a: &Rect, b: &Rect) -> (r: bool)
    ensures
        r == overlap(*a, *b),
{
    (a.x as i64) < b.x as i64 + b.w as i64 && (b.x as i64) < a.x as i64 + a.w as i64 && (a.y as i64)
        < b.y as i64 + b.h as i64 && (b.y as i64) < a.y as i64 + a.h as i64
}

impl Layout {
    /// The warnings about the arrangement, given the quoted form of each
    /// screen's name.
    pub fn issues_quoting(&self, quoted: &Vec<String>) -> (out: Vec<String>)
        requires
            quoted@.len() == self@.len(),
        ensures
            texts(out@) == issues_from(self@, texts(quoted@), 0),
    {
        let ghost q = texts(quoted@);
        let mut out: Vec<String> = Vec::new();
        let mut i: usize = 0;
        proof {
            assert(texts(out@) + issues_from(self@, q, 0) =~= issues_from(self@, q, 0));
        }
        while i < self.screens.len()
            invariant
                i <= self.screens@.len(),
                quoted@.len() == self@.len(),
                q == texts(quoted@),
                texts(out@) + issues_from(self@, q, i as int) == issues_from(self@, q, 0),
            decreases self.screens@.len() - i,
        {
            let a: &Screen = &self.screens[i];
            let ghost before = texts(out@);
            let ghost rest = issues_from(self@, q, i + 1);
            if a.rect.w <= 0 || a.rect.h <= 0 {
                out.push(no_size_issue(quoted[i].as_str()));
                assert(texts(out@) =~= before + issues_of(self@, q, i as int));
            } else {
                let mut j: usize = i + 1;
                proof {
                    assert(before + overlaps_from(self@, q, i as int, i + 1) =~= before + issues_of(
                        self@,
                        q,
                        i as int,
                    ));
                }
                while j < self.screens.len()
                    invariant
                        i < j <= self.screens@.len(),
                        *a == self@[i as int],
                        quoted@.len() == self@.len(),
                        q == texts(quoted@),
                        texts(out@) + overlaps_from(self@, q, i as int, j as int) == before
                            + issues_of(self@, q, i as int),
                    decreases self.screens@.len() - j,
                {
                    let ghost prev = texts(out@);
                    if overlaps(&a.rect, &self.screens[j].rect) {
                        out.push(overlap_issue(quoted[i].as_str(), quoted[j].as_str()));
                        assert(texts(out@) =~= prev.push(overlap_text(q[i as int], q[j as int])));
                        assert(texts(out@) + overlaps_from(self@, q, i as int, j + 1) =~= prev
                            + overlaps_from(self@, q, i as int, j as int));
                    }
                    j += 1;
                }
                assert(texts(out@) =~= before + issues_of(self@, q, i as int));
            }
            assert(texts(out@) + rest =~= before + issues_from(self@, q, i as int));
            i += 1;
        }
        assert(texts(out@) =~= issues_from(self@, q, 0));
        out
    }

    /// Everything about the arrangement the user should know before
    /// relying on it: human-readable, actionable warnings. Empty means
    /// that the layout is unambiguous.
    pub fn issues(&self) -> (out: Vec<String>)
        ensures
            texts(out@) == issues_from(self@, quoted_names(self@), 0),
    {
        let mut names: Vec<String> = Vec::new();
        let mut i: usize = 0;
        while i < self.screens.len()
            invariant
                i <= self.screens@.len(),
                names@.len() == i,
                forall|k: int| 0 <= k < i ==> (#[trigger] names@[k])@ == self@[k].name@,
            decreases self.screens@.len() - i,
        {
            names.push(self.screens[i].name.clone());
            i += 1;
        }
        let quoted: Vec<String> = quote_all(&names);
        assert(texts(quoted@) =~= quoted_names(self@));
        self.issues_quoting(&quoted)
    }
}

} // verus!
