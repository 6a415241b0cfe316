//! The list of connected clients that the app layer publishes.
use vstd::prelude::*;
use vstd::string::*;

use crate::server::hub::ServerEvent;
use crate::text::same;

verus! {

/// A connected client.
#[derive(Debug, PartialEq, Eq)]
pub struct Entry {
    pub name: String,
    pub id: String,
    pub addr: String,
    pub since_ms: u64,
}

/// What is known of a connected client beside its name.
pub struct Presence {
    pub id: Seq<char>,
    pub addr: Seq<char>,
    pub since_ms: u64,
}

/// The connected clients, by screen name.
#[derive(Debug)]
pub struct Roster {
    entries: Vec<Entry>,
}

spec fn presence(e: Entry) -> Presence {
    Presence { id: e.id@, addr: e.addr@, since_ms: e.since_ms }
}

spec fn distinct(s: Seq<Entry>) -> bool {
    forall|i: int, j: int|
        0 <= i < s.len() && 0 <= j < s.len() && (#[trigger] s[i]).name@ == (
        #[trigger] s[j]).name@ ==> i == j
}

spec fn at(s: Seq<Entry>, name: Seq<char>, i: int) -> bool {
    0 <= i < s.len() && s[i].name@ == name
}

spec fn index(s: Seq<Entry>) -> Map<Seq<char>, Presence> {
    Map::new(
        |name: Seq<char>| exists|i: int| at(s, name, i),
        |name: Seq<char>| presence(s[choose|i: int| at(s, name, i)]),
    )
}

proof fn lemma_index(s: Seq<Entry>, i: int)
    requires
        distinct(s),
        0 <= i < s.len(),
    ensures
        index(s).contains_key(s[i].name@),
        index(s)[s[i].name@] == presence(s[i]),
{
    let name = s[i].name@;
    assert(at(s, name, i));
    let c = choose|k: int| at(s, name, k);
    assert(at(s, name, c));
    assert(s[c].name@ == s[i].name@);
}

/// Dropping an entry drops its name.
proof fn lemma_remove(s: Seq<Entry>, i: int)
    requires
        distinct(s),
        0 <= i < s.len(),
    ensures
        distinct(s.remove(i)),
        index(s.remove(i)) == index(s).remove(s[i].name@),
{
    let t = s.remove(i);
    assert forall|j: int, k: int|
        0 <= j < t.len() && 0 <= k < t.len() && (#[trigger] t[j]).name@ == (
        #[trigger] t[k]).name@ implies j == k by {
        let a = if j < i { j } else { j + 1 };
        let b = if k < i { k } else { k + 1 };
        assert(s[a].name@ == s[b].name@);
    }
    let m = index(s).remove(s[i].name@);
    assert forall|name: Seq<char>| #[trigger] index(t).contains_key(name) <==> m.contains_key(
        name,
    ) by {
        if index(t).contains_key(name) {
            let k = choose|k: int| at(t, name, k);
            let b = if k < i { k } else { k + 1 };
            assert(at(s, name, b));
            if name == s[i].name@ {
                assert(s[b].name@ == s[i].name@);
            }
        }
        if m.contains_key(name) {
            let b = choose|b: int| at(s, name, b);
            assert(b != i);
            let k = if b < i { b } else { b - 1 };
            assert(at(t, name, k));
        }
    }
    assert forall|name: Seq<char>| #[trigger] index(t).contains_key(name) implies index(t)[name]
        == m[name] by {
        let k = choose|k: int| at(t, name, k);
        lemma_index(t, k);
        let b = if k < i { k } else { k + 1 };
        lemma_index(s, b);
        assert(t[k] == s[b]);
    }
    assert(index(t) =~= m);
}

/// Adding an entry with a new name adds that name.
proof fn lemma_push(s: Seq<Entry>, e: Entry)
    requires
        distinct(s),
        !index(s).contains_key(e.name@),
    ensures
        distinct(s.push(e)),
        index(s.push(e)) == index(s).insert(e.name@, presence(e)),
{
    let t = s.push(e);
    let n = s.len() as int;
    assert forall|j: int, k: int|
        0 <= j < t.len() && 0 <= k < t.len() && (#[trigger] t[j]).name@ == (
        #[trigger] t[k]).name@ implies j == k by {
        if j == n && k < n {
            assert(at(s, e.name@, k));
        } else if k == n && j < n {
            assert(at(s, e.name@, j));
        } else if j < n {
            assert(s[j].name@ == s[k].name@);
        }
    }
    let m = index(s).insert(e.name@, presence(e));
    assert forall|name: Seq<char>| #[trigger] index(t).contains_key(name) <==> m.contains_key(
        name,
    ) by {
        if index(t).contains_key(name) {
            let k = choose|k: int| at(t, name, k);
            if k < n {
                assert(at(s, name, k));
            }
        }
        if m.contains_key(name) {
            if name == e.name@ {
                assert(at(t, name, n));
            } else {
                let k = choose|k: int| at(s, name, k);
                assert(at(t, name, k));
            }
        }
    }
    assert forall|name: Seq<char>| #[trigger] index(t).contains_key(name) implies index(t)[name]
        == m[name] by {
        let k = choose|k: int| at(t, name, k);
        lemma_index(t, k);
        if k < n {
            lemma_index(s, k);
        }
    }
    assert(index(t) =~= m);
}

/// The connected clients after a lifecycle event.
pub open spec fn after_event(m: Map<Seq<char>, Presence>, evt: ServerEvent) -> Map<
    Seq<char>,
    Presence,
> {
    match evt {
        ServerEvent::ClientConnected { name, id, addr, since_ms, .. } => m.insert(
            name@,
            Presence { id: id@, addr: addr@, since_ms },
        ),
        ServerEvent::ClientDisconnected { name } => m.remove(name@),
    }
}

impl View for Roster {
    type V = Map<Seq<char>, Presence>;

    closed spec fn view(&self) -> Map<Seq<char>, Presence> {
        index(self.entries@)
    }
}

impl Roster {
    /// No two entries share a name.
    pub closed spec fn wf(self) -> bool {
        distinct(self.entries@)
    }

    /// Nobody is connected.
    pub fn new() -> (r: Self)
        ensures
            r.wf(),
            r@ == Map::<Seq<char>, Presence>::empty(),
    {
        let r = Roster { entries: Vec::new() };
        assert(index(r.entries@) =~= Map::<Seq<char>, Presence>::empty());
        r
    }

    fn drop_name(&mut self, name: &str)
        requires
            old(self).wf(),
        ensures
            final(self).wf(),
            final(self)@ == old(self)@.remove(name@),
    {
        let ghost s = self.entries@;
        let mut i: usize = 0;
        while i < self.entries.len()
            invariant
                i <= self.entries@.len(),
                s == self.entries@,
                distinct(s),
                *self == *old(self),
                forall|k: int| 0 <= k < i ==> (#[trigger] s[k]).name@ != name@,
            decreases self.entries@.len() - i,
        {
            if same(self.entries[i].name.as_str(), name) {
                proof {
                    lemma_remove(s, i as int);
                }
                let _ = self.entries.remove(i);
                return;
            }
            i += 1;
        }
        proof {
            if index(s).contains_key(name@) {
                let k = choose|k: int| at(s, name@, k);
                assert(s[k].name@ != name@);
            }
            assert(index(s).remove(name@) =~= index(s));
        }
    }

    /// A client connected or disconnected. A name that connects again
    /// replaces its entry.
    pub fn on_event(&mut self, evt: &ServerEvent)
        requires
            old(self).wf(),
        ensures
            final(self).wf(),
            final(self)@ == after_event(old(self)@, *evt),
    {
        match evt {
            ServerEvent::ClientConnected { name, id, addr, since_ms, .. } => {
                self.drop_name(name.as_str());
                let e = Entry {
                    name: name.clone(),
                    id: id.clone(),
                    addr: addr.clone(),
                    since_ms: *since_ms,
                };
                proof {
                    lemma_push(self.entries@, e);
                    assert(old(self)@.remove(name@).insert(name@, presence(e)) =~= old(
                        self,
                    )@.insert(name@, presence(e)));
                }
                self.entries.push(e);
            },
            ServerEvent::ClientDisconnected { name } => {
                self.drop_name(name.as_str());
            },
        }
    }

    /// The connected clients, each once, in no particular order.
    pub fn entries(&self) -> (r: &Vec<Entry>)
        requires
            self.wf(),
        ensures
            forall|i: int, j: int|
                0 <= i < r@.len() && 0 <= j < r@.len() && (#[trigger] r@[i]).name@ == (
                #[trigger] r@[j]).name@ ==> i == j,
            forall|i: int|
                0 <= i < r@.len() ==> {
                    let e = #[trigger] r@[i];
                    &&& self@.contains_key(e.name@)
                    &&& self@[e.name@] == (Presence {
                        id: e.id@,
                        addr: e.addr@,
                        since_ms: e.since_ms,
                    })
                },
            forall|name: Seq<char>| #[trigger]
                self@.contains_key(name) ==> exists|i: int|
                    0 <= i < r@.len() && (#[trigger] r@[i]).name@ == name,
    {
        proof {
            let s = self.entries@;
            assert forall|i: int| 0 <= i < s.len() implies {
                let e = #[trigger] s[i];
                &&& self@.contains_key(e.name@)
                &&& self@[e.name@] == presence(e)
            } by {
                lemma_index(s, i);
            }
            assert forall|name: Seq<char>| #[trigger] self@.contains_key(name) implies exists|i: int|
                0 <= i < s.len() && (#[trigger] s[i]).name@ == name by {
                let k = choose|k: int| at(s, name, k);
                assert(s[k].name@ == name);
            }
        }
        &self.entries
    }
}

} // verus!
