//! One launcher at a time: the lock file and what a second start does.
use vstd::prelude::*;
use crate::num::{parse_i32, parse_i32_spec};

verus! {

/// Where the lock file lives.
pub const LOCK_FILE: &'static str = "/tmp/sherlock.lock";

/// The lock file, removed when the launcher ends.
pub struct LockFile {
    pub path: String,
}

/// What was found at the lock file's place before starting.
pub enum LockPresence {
    Absent,
    /// A lock file is there; its text where it could be read.
    Present(Option<String>),
}

/// The first step of taking the lock.
#[derive(PartialEq, Eq, Structural)]
pub enum LockStep {
    /// Go on and create the lock file.
    Create,
    /// A lock names the process `pid`: find out whether it still runs.
    Probe(i32),
}

/// A lock that holds a process id sends us to check that process; anything
/// else goes straight to creating the lock.
pub open spec fn lock_step(presence: LockPresence) -> LockStep {
    match presence {
        LockPresence::Present(Some(text)) => match parse_i32_spec(text@) {
            Some(pid) => LockStep::Probe(pid),
            None => LockStep::Create,
        },
        _ => LockStep::Create,
    }
}

/// What a second start does before taking the lock.
pub fn ensure_single_instance(presence: LockPresence) -> (r: LockStep)
    ensures
        r == lock_step(presence),
{
    match presence {
        LockPresence::Present(Some(text)) => match parse_i32(text.as_str()) {
            Some(pid) => LockStep::Probe(pid),
            None => LockStep::Create,
        },
        _ => LockStep::Create,
    }
}

/// What follows the check of the process named by the lock.
#[derive(PartialEq, Eq, Structural)]
pub enum ProbeAction {
    /// It runs: hand the request to its daemon.
    NotifyDaemon,
    /// It is gone: the lock is stale and is removed.
    RemoveStale,
}

pub fn after_probe(alive: bool) -> (r: ProbeAction)
    ensures
        r == if alive {
            ProbeAction::NotifyDaemon
        } else {
            ProbeAction::RemoveStale
        },
{
    if alive {
        ProbeAction::NotifyDaemon
    } else {
        ProbeAction::RemoveStale
    }
}

/// How creating the lock file went.
pub enum LockCreate {
    /// The file was created and our process id written to it.
    Created,
    /// The file could not be created.
    CreateFailed(String),
    /// It was created but writing the process id failed.
    WriteFailed(String),
}

/// What checking the lock's place answers.
pub open spec fn check_result(exists: bool) -> Result<(), Seq<char>> {
    if exists {
        Err("Lockfile already exists. Aborting..."@)
    } else {
        Ok(())
    }
}

/// The path of the lock that creating its file as `created` says gives, or
/// the message of the failure.
pub open spec fn new_result(path: Seq<char>, created: LockCreate) -> Result<Seq<char>, Seq<char>> {
    match created {
        LockCreate::Created => Ok(path),
        LockCreate::CreateFailed(e) => Err("Failed to create lock file: "@ + e@),
        LockCreate::WriteFailed(e) => Err(e@),
    }
}

pub open spec fn lock_view(r: Result<LockFile, String>) -> Result<Seq<char>, Seq<char>> {
    match r {
        Ok(l) => Ok(l.path@),
        Err(m) => Err(m@),
    }
}

/// A released lock can be taken again: once its file is gone (a lock's
/// file is removed when the lock is dropped), a start goes straight to
/// creating the lock, the check lets it through, and creating the file
/// gives a lock at the same place.
pub proof fn lemma_released_lock_taken_again(path: Seq<char>)
    ensures
        lock_step(LockPresence::Absent) == LockStep::Create,
        check_result(false) == Ok::<(), Seq<char>>(()),
        new_result(path, LockCreate::Created) == Ok::<Seq<char>, Seq<char>>(path),
{
}

impl LockFile {
    /// Refuses to take a lock that is already there.
    pub fn check(exists: bool) -> (r: Result<(), String>)
        ensures
            match r {
                Ok(()) => check_result(exists) is Ok,
                Err(m) => check_result(exists) == Err::<(), Seq<char>>(m@),
            },
            match r {
                Ok(()) => !exists,
                Err(m) => exists && m@ == "Lockfile already exists. Aborting..."@,
            },
    {
        if exists {
            return Err(String::from_str("Lockfile already exists. Aborting..."));
        }
        Ok(())
    }

    /// The lock for `path`, once creating its file went as `created` says.
    pub fn new(path: &str, created: LockCreate) -> (r: Result<Self, String>)
        ensures
            lock_view(r) == new_result(path@, created),
            match created {
                LockCreate::Created => r matches Ok(l) && l.path@ == path@,
                LockCreate::CreateFailed(e) => r matches Err(m) && m@ == "Failed to create lock file: "@
                    + e@,
                LockCreate::WriteFailed(e) => r matches Err(m) && m@ == e@,
            },
    {
        match created {
            LockCreate::Created => Ok(LockFile { path: String::from_str(path) }),
            LockCreate::CreateFailed(e) => {
                let mut m = String::from_str("Failed to create lock file: ");
                m.append(e.as_str());
                Err(m)
            },
            LockCreate::WriteFailed(e) => Err(e),
        }
    }

    /// The message for a lock file that could not be removed.
    pub fn remove_error(error: &str) -> (r: String)
        ensures
            r@ == "Failed to remove lock file: "@ + error@,
    {
        let mut m = String::from_str("Failed to remove lock file: ");
        m.append(error);
        m
    }
}

} // verus!
