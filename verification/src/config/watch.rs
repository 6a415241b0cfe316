//! When a changed config file is read again.
use vstd::prelude::*;

verus! {

/// What tells one version of a file from the next: when it was modified
/// (nanoseconds since the epoch) and its length.
#[derive(Debug, Clone, Copy, PartialEq, Eq, Structural)]
pub struct Stamp {
    pub modified: u64,
    pub len: u64,
}

/// Follows a file by its stamp.
#[derive(Debug)]
pub struct Watch {
    last: Option<Stamp>,
}

impl Watch {
    /// The version in use, where there was one.
    pub closed spec fn in_use(self) -> Option<Stamp> {
        self.last
    }

    /// Start with the file as it is now, so that only real changes count.
    pub fn new(now: Option<Stamp>) -> (r: Self)
        ensures
            r.in_use() == now,
    {
        Watch { last: now }
    }

    /// Is the file, as it is now, to be read? A missing file keeps the
    /// version in use.
    pub fn is_due(&self, now: Option<Stamp>) -> (r: bool)
        ensures
            r == (now is Some && self.in_use() != now),
    {
        match (now, self.last) {
            (None, _) => false,
            (Some(n), Some(l)) => n != l,
            (Some(_), None) => true,
        }
    }

    /// The file was read. A version that could not be used (a file in the
    /// middle of being written) is tried again; a usable one is now in
    /// use.
    pub fn on_read(&mut self, stamp: Stamp, usable: bool)
        ensures
            final(self).in_use() == (if usable {
                Some(stamp)
            } else {
                old(self).in_use()
            }),
    {
        if usable {
            self.last = Some(stamp);
        }
    }
}

} // verus!
