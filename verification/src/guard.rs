//! Role locking: a machine runs one role at a time.
//!
//! Each process takes an exclusive lock on its role's file in the state
//! directory when it starts, and refuses to start while the other role is
//! running. A lock dies with its process, so there is nothing to clean up
//! after a crash. Taking the locks is the caller's part; the rules are
//! here.
use crate::text::{debug_text, quoted, same};
use vstd::prelude::*;
use vstd::string::*;

verus! {

pub const ROLE_SERVER: &'static str = "server";

pub const ROLE_CLIENT: &'static str = "client";

/// The role is one of the two.
pub open spec fn known_role(role: Seq<char>) -> bool {
    role == ROLE_SERVER@ || role == ROLE_CLIENT@
}

/// The role that must not run beside this one.
pub open spec fn rival(role: Seq<char>) -> Seq<char> {
    if role == ROLE_SERVER@ {
        ROLE_CLIENT@
    } else {
        ROLE_SERVER@
    }
}

/// The name of a role's lock file.
pub open spec fn lock_file(role: Seq<char>) -> Seq<char> {
    role + ".lock"@
}

/// A process of this role may start: the role is one of the two, and
/// neither its own lock nor the other role's is taken.
pub open spec fn may_start(role: Seq<char>, own_locked: bool, other_locked: bool) -> bool {
    known_role(role) && !own_locked && !other_locked
}

/// The complaint about a role, given in quotes.
pub fn unknown_role(quoted_role: &str) -> (r: String)
    ensures
        r@ == "unknown role "@ + quoted_role@,
{
    let mut r: String = "unknown role ".to_owned();
    r.append(quoted_role);
    r
}

fn rival_of(role: &str) -> (r: &'static str)
    ensures
        r@ == rival(role@),
{
    if same(role, ROLE_SERVER) {
        ROLE_CLIENT
    } else {
        ROLE_SERVER
    }
}

/// The names of the lock files that a start involves.
#[derive(Debug, PartialEq, Eq)]
pub struct LockFiles {
    /// The role's own lock, held while the process lives.
    pub own: String,
    /// The other role's lock, only probed.
    pub other: String,
}

/// The lock files of a role, in the order in which they are tried.
pub fn lock_files(role: &str) -> (r: Result<LockFiles, String>)
    ensures
        match r {
            Ok(f) => {
                &&& known_role(role@)
                &&& f.own@ == lock_file(role@)
                &&& f.other@ == lock_file(rival(role@))
            },
            Err(e) => !known_role(role@) && e@ == "unknown role "@ + debug_text(role@),
        },
{
    if !same(role, ROLE_SERVER) && !same(role, ROLE_CLIENT) {
        return Err(unknown_role(quoted(role).as_str()));
    }
    let mut own: String = role.to_owned();
    own.append(".lock");
    let mut other: String = rival_of(role).to_owned();
    other.append(".lock");
    Ok(LockFiles { own, other })
}

/// What came of trying a lock file.
#[derive(Debug)]
pub struct Probe<'a> {
    /// The file's path, as it is shown.
    pub path: &'a str,
    /// Another process holds the lock.
    pub locked: bool,
}

/// The complaint that the role itself is already running.
pub open spec fn own_taken(role: Seq<char>, path: Seq<char>) -> Seq<char> {
    "another kvmshare "@ + role + " is already running on this machine ("@ + path + " is locked)"@
}

/// The complaint that the other role is running.
pub open spec fn other_taken(role: Seq<char>, path: Seq<char>) -> Seq<char> {
    "a kvmshare "@ + rival(role)
        + " is already running on this machine — a machine runs as a server or a client, not both ("@
        + path + " is locked)"@
}

/// May a process of this role start, given what came of trying the two
/// locks? It errs when this role is already running here, or when the
/// other role is. The own lock is tried first; where it is taken, the
/// other one decides nothing.
pub fn acquire_in(role: &str, own: Probe, other: Probe) -> (r: Result<(), String>)
    ensures
        r is Ok == may_start(role@, own.locked, other.locked),
        r matches Err(e) ==> {
            ||| !known_role(role@) && e@ == "unknown role "@ + debug_text(role@)
            ||| known_role(role@) && own.locked && e@ == own_taken(role@, own.path@)
            ||| known_role(role@) && !own.locked && other.locked && e@ == other_taken(
                role@,
                other.path@,
            )
        },
{
    if !same(role, ROLE_SERVER) && !same(role, ROLE_CLIENT) {
        return Err(unknown_role(quoted(role).as_str()));
    }
    if own.locked {
        let mut e: String = "another kvmshare ".to_owned();
        e.append(role);
        e.append(" is already running on this machine (");
        e.append(own.path);
        e.append(" is locked)");
        return Err(e);
    }
    if other.locked {
        let mut e: String = "a kvmshare ".to_owned();
        e.append(rival_of(role));
        e.append(
            " is already running on this machine — a machine runs as a server or a client, not both (",
        );
        e.append(other.path);
        e.append(" is locked)");
        return Err(e);
    }
    Ok(())
}

// ---------------------------------------------------------------------
// Laws
// ---------------------------------------------------------------------

/// A directory of lock files.
pub struct LockDir {
    /// The lock files that exist. They accumulate: nothing removes one.
    pub files: Set<Seq<char>>,
    /// The files whose lock a live process holds. A lock dies with its
    /// process.
    pub held: Set<Seq<char>>,
}

impl LockDir {
    /// A process of the role tries its own lock, then the other role's.
    /// Trying a lock creates its file; [`acquire_in`] judges what came of
    /// both. Where it allows the start, the process keeps its own lock;
    /// where it does not, it keeps none.
    pub open spec fn acquired(self, role: Seq<char>) -> (LockDir, bool) {
        let own = lock_file(role);
        let other = lock_file(rival(role));
        if !known_role(role) {
            (self, false)
        } else if may_start(role, self.held.contains(own), self.held.contains(other)) {
            (
                LockDir {
                    files: self.files.insert(own).insert(other),
                    held: self.held.insert(own),
                },
                true,
            )
        } else if self.held.contains(own) {
            (LockDir { files: self.files.insert(own), ..self }, false)
        } else {
            (LockDir { files: self.files.insert(own).insert(other), ..self }, false)
        }
    }

    /// The process of the role is gone. The file stays; its lock does not.
    pub open spec fn released(self, role: Seq<char>) -> LockDir {
        LockDir { held: self.held.remove(lock_file(role)), ..self }
    }

    /// The directory after a run of attempts, one role after another.
    pub open spec fn attempts(self, roles: Seq<Seq<char>>) -> LockDir
        decreases roles.len(),
    {
        if roles.len() == 0 {
            self
        } else {
            self.attempts(roles.drop_last()).acquired(roles.last()).0
        }
    }
}

proof fn lemma_lock_files()
    ensures
        lock_file(ROLE_SERVER@) != lock_file(ROLE_CLIENT@),
        ROLE_SERVER@ != ROLE_CLIENT@,
{
    reveal_strlit("server");
    reveal_strlit("client");
    assert(ROLE_SERVER@[0] == 's' && ROLE_CLIENT@[0] == 'c');
    assert(lock_file(ROLE_SERVER@)[0] == 's' && lock_file(ROLE_CLIENT@)[0] == 'c');
}

/// A machine runs one role at a time: while the process that took a role's
/// lock lives, whatever other attempts are made meanwhile, no process of
/// either role can start, and none changes which locks are held.
pub proof fn locks_are_exclusive(
    d: LockDir,
    role: Seq<char>,
    tries: Seq<Seq<char>>,
    next: Seq<char>,
)
    requires
        d.acquired(role).1,
    ensures
        !d.acquired(role).0.attempts(tries).acquired(next).1,
        d.acquired(role).0.attempts(tries).held == d.acquired(role).0.held,
    decreases tries.len(),
{
    lemma_lock_files();
    if tries.len() > 0 {
        locks_are_exclusive(d, role, tries.drop_last(), tries.last());
    }
}

/// Giving the lock back frees the machine for either role, although the
/// lock files still exist: the start that follows succeeds, and holds the
/// lock of its role alone.
pub proof fn release_frees_the_machine(
    d: LockDir,
    role: Seq<char>,
    tries: Seq<Seq<char>>,
    next: Seq<char>,
)
    requires
        d.acquired(role).1,
        known_role(next),
    ensures
        ({
            let free = d.acquired(role).0.attempts(tries).released(role);
            &&& free.files.contains(lock_file(role))
            &&& free.files.contains(lock_file(rival(role)))
            &&& free.acquired(next).1
            &&& free.acquired(next).0.held == d.held.insert(lock_file(next))
        }),
{
    lemma_lock_files();
    locks_are_exclusive(d, role, tries, next);
    lemma_files_stay(d.acquired(role).0, tries, lock_file(role));
    lemma_files_stay(d.acquired(role).0, tries, lock_file(rival(role)));
    let free = d.acquired(role).0.attempts(tries).released(role);
    assert(free.held =~= d.held);
}

proof fn lemma_files_stay(d: LockDir, tries: Seq<Seq<char>>, file: Seq<char>)
    requires
        d.files.contains(file),
    ensures
        d.attempts(tries).files.contains(file),
    decreases tries.len(),
{
    if tries.len() > 0 {
        lemma_files_stay(d, tries.drop_last(), file);
    }
}

/// A role other than the two is always refused, and leaves no trace.
pub proof fn unknown_roles_are_refused(d: LockDir, role: Seq<char>)
    requires
        !known_role(role),
    ensures
        d.acquired(role) == (d, false),
{
}

} // verus!
