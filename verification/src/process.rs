//! The process tile: which user processes are listed, under which name, and
//! which ids a kill signal goes to.
use vstd::prelude::*;
use std::collections::HashMap;
use crate::error::{SherlockError, SherlockErrorType};
use crate::num::{int_text, i64_text};

verus! {

broadcast use vstd::std_specs::hash::group_hash_axioms;

/// What `/proc/<pid>/stat` tells of a process: its id, its parent's id and
/// its controlling terminal.
#[derive(Clone, Copy)]
pub struct ProcStat {
    pub pid: i32,
    pub ppid: i32,
    pub tty_nr: i32,
}

/// What was read of one process: its owner, the file name of its
/// executable and its status, each where it could be read.
pub struct ProcInfo {
    pub pid: i32,
    pub uid: Option<u32>,
    pub exe_name: Option<String>,
    pub stat: Option<ProcStat>,
}

/// A process tile: its icon and the listed processes, each keyed by the id
/// that is shown and the id whose executable names it.
pub struct ProcessLauncher {
    pub icon: String,
    pub processes: Vec<((i32, i32), String)>,
}

/// The state while grouping: the child that stands for each parent so far,
/// the names not yet used, and the entries found.
pub type GroupState = (Map<i32, i32>, Map<i32, String>, Seq<((i32, i32), String)>);

/// One status record, as the grouping reads it. A child of `init` is listed
/// under the name of the process that stands for it (itself where none
/// does), once per name. A process on a terminal hands what stands for it
/// to its parent, or stands for its parent where nothing does yet; any other
/// process stands for its parent where nothing does yet.
pub open spec fn group_step(st: GroupState, item: ProcStat) -> GroupState {
    let (tmp, names, out) = st;
    if item.ppid == 1 {
        let named = if tmp.contains_key(item.pid) {
            tmp[item.pid]
        } else {
            item.pid
        };
        if names.contains_key(named) {
            (tmp, names.remove(named), out.push(((item.pid, named), names[named])))
        } else {
            st
        }
    } else if item.tty_nr != 0 {
        if tmp.contains_key(item.pid) {
            (tmp.remove(item.pid).insert(item.ppid, tmp[item.pid]), names, out)
        } else if !tmp.contains_key(item.ppid) {
            (tmp.insert(item.ppid, item.pid), names, out)
        } else {
            st
        }
    } else if !tmp.contains_key(item.ppid) {
        (tmp.insert(item.ppid, item.pid), names, out)
    } else {
        st
    }
}

/// The grouping of the status records, read from the last to the first.
pub open spec fn group_rev(stats: Seq<ProcStat>, names: Map<i32, String>) -> GroupState
    decreases stats.len(),
{
    if stats.len() == 0 {
        (Map::empty(), names, Seq::empty())
    } else {
        group_step(group_rev(stats.drop_first(), names), stats[0])
    }
}

/// The entries that the process tile lists, for the status records in the
/// order they were read and the executable names by process id.
pub fn group_processes(names: HashMap<i32, String>, stats: &Vec<ProcStat>) -> (r: Vec<
    ((i32, i32), String),
>)
    ensures
        r@ == group_rev(stats@, names@).2,
{
    let ghost names0 = names@;
    let mut names = names;
    let mut tmp: HashMap<i32, i32> = HashMap::new();
    let mut out: Vec<((i32, i32), String)> = Vec::new();
    let mut i: usize = stats.len();
    assert(stats@.skip(i as int) =~= Seq::<ProcStat>::empty());
    while i > 0
        invariant
            i <= stats@.len(),
            (tmp@, names@, out@) == group_rev(stats@.skip(i as int), names0),
        decreases i,
    {
        i = i - 1;
        let item = stats[i];
        assert(stats@.skip(i as int).drop_first() =~= stats@.skip(i + 1));
        assert(stats@.skip(i as int)[0] == item);
        if item.ppid == 1 {
            let named: i32 = match tmp.get(&item.pid) {
                Some(r) => *r,
                None => item.pid,
            };
            match names.remove(&named) {
                Some(name) => {
                    out.push(((item.pid, named), name));
                },
                None => {},
            }
        } else if item.tty_nr != 0 {
            match tmp.remove(&item.pid) {
                Some(r) => {
                    tmp.insert(item.ppid, r);
                },
                None => {
                    if !tmp.contains_key(&item.ppid) {
                        tmp.insert(item.ppid, item.pid);
                    }
                },
            }
        } else if !tmp.contains_key(&item.ppid) {
            tmp.insert(item.ppid, item.pid);
        }
    }
    assert(stats@.skip(0) =~= stats@);
    out
}

/// The processes a tile lists: those of users other than root.
pub open spec fn is_user(p: ProcInfo) -> bool {
    p.uid matches Some(u) && u > 0
}

/// Executable names of the user processes, by id; a later record of the
/// same id replaces an earlier one.
pub open spec fn user_names(procs: Seq<ProcInfo>) -> Map<i32, String>
    decreases procs.len(),
{
    if procs.len() == 0 {
        Map::empty()
    } else {
        let p = procs.last();
        let m = user_names(procs.drop_last());
        if is_user(p) && p.exe_name is Some {
            m.insert(p.pid, p.exe_name->0)
        } else {
            m
        }
    }
}

/// Status records of the user processes, in the order they were read.
pub open spec fn user_stats(procs: Seq<ProcInfo>) -> Seq<ProcStat>
    decreases procs.len(),
{
    if procs.len() == 0 {
        Seq::empty()
    } else {
        let p = procs.last();
        let s = user_stats(procs.drop_last());
        if is_user(p) && p.stat is Some {
            s.push(p.stat->0)
        } else {
            s
        }
    }
}

impl ProcessLauncher {
    /// A process tile with the given icon over the processes that were
    /// read, or `None` where the process list could not be read.
    pub fn new(icon: &str, procs: Option<Vec<ProcInfo>>) -> (r: Option<Self>)
        ensures
            match r {
                Some(l) => {
                    &&& procs is Some
                    &&& l.icon@ == icon@
                    &&& l.processes@ == group_rev(
                        user_stats(procs->0@),
                        user_names(procs->0@),
                    ).2
                },
                None => procs is None,
            },
    {
        match procs {
            None => None,
            Some(procs) => {
                let mut names: HashMap<i32, String> = HashMap::new();
                let mut stats: Vec<ProcStat> = Vec::new();
                let mut i: usize = 0;
                while i < procs.len()
                    invariant
                        i <= procs@.len(),
                        names@ == user_names(procs@.take(i as int)),
                        stats@ == user_stats(procs@.take(i as int)),
                    decreases procs@.len() - i,
                {
                    let p = &procs[i];
                    proof {
                        assert(procs@.take(i + 1).drop_last() =~= procs@.take(i as int));
                        assert(procs@.take(i + 1).last() == procs@[i as int]);
                    }
                    let user = match p.uid {
                        Some(u) => u > 0,
                        None => false,
                    };
                    if user {
                        match &p.exe_name {
                            Some(n) => {
                                names.insert(p.pid, n.clone());
                            },
                            None => {},
                        }
                        match p.stat {
                            Some(s) => {
                                stats.push(s);
                            },
                            None => {},
                        }
                    }
                    i = i + 1;
                }
                assert(procs@.take(procs@.len() as int) =~= procs@);
                let processes = group_processes(names, &stats);
                Some(ProcessLauncher { icon: String::from_str(icon), processes })
            },
        }
    }

    /// The ids a kill goes to, in order: the named child first where it
    /// differs from the listed process, then the listed process.
    pub fn kill_targets(pid: (i32, i32)) -> (r: Vec<i32>)
        ensures
            r@ == if pid.0 != pid.1 {
                seq![pid.1, pid.0]
            } else {
                seq![pid.0]
            },
    {
        let mut v: Vec<i32> = Vec::new();
        if pid.0 != pid.1 {
            v.push(pid.1);
        }
        v.push(pid.0);
        v
    }

    /// What each kill of a run names, in the order of `kill_targets`.
    pub fn kill_subjects(pid: (i32, i32)) -> (r: Vec<String>)
        ensures
            r@.len() == (if pid.0 != pid.1 { 2int } else { 1int }),
            forall|k: int|
                0 <= k < r@.len() ==> #[trigger] r@[k]@ == "Kill process \""@ + int_text(
                    (if pid.0 != pid.1 { seq![pid.1, pid.0] } else { seq![pid.0] })[k] as int,
                ) + "\""@,
    {
        let mut v: Vec<String> = Vec::new();
        if pid.0 != pid.1 {
            v.push(kill_subject(pid.1));
        }
        v.push(kill_subject(pid.0));
        v
    }

    /// The error reported where signalling `target` failed.
    pub fn kill_error(target: i32, traceback: String) -> (r: SherlockError)
        ensures
            r.error matches SherlockErrorType::CommandExecutionError(m) && m@ == "Kill process \""@
                + int_text(target as int) + "\""@,
            r.traceback@ == traceback@,
    {
        let mut m = String::from_str("Kill process \"");
        let t = i64_text(target as i64);
        m.append(t.as_str());
        m.append("\"");
        SherlockError { error: SherlockErrorType::CommandExecutionError(m), traceback }
    }
}

fn kill_subject(target: i32) -> (r: String)
    ensures
        r@ == "Kill process \""@ + int_text(target as int) + "\""@,
{
    let mut m = String::from_str("Kill process \"");
    let t = i64_text(target as i64);
    m.append(t.as_str());
    m.append("\"");
    m
}

/// Each listed entry's name is no longer available, and no two entries
/// share the process whose executable names them.
pub open spec fn names_used_once(st: GroupState) -> bool {
    let (tmp, names, out) = st;
    &&& forall|i: int| 0 <= i < out.len() ==> !names.contains_key(#[trigger] out[i].0.1)
    &&& forall|i: int, j: int| 0 <= i < j < out.len() ==> #[trigger] out[i].0.1 != #[trigger] out[j].0.1
}

proof fn lemma_step_keeps_names(st: GroupState, item: ProcStat)
    requires
        names_used_once(st),
    ensures
        names_used_once(group_step(st, item)),
{
    let (tmp, names, out) = st;
    let (t2, n2, o2) = group_step(st, item);
    if o2.len() > out.len() {
        assert forall|i: int| 0 <= i < o2.len() implies !n2.contains_key(#[trigger] o2[i].0.1) by {
            if i < out.len() {
                assert(o2[i] == out[i]);
            }
        }
        assert forall|i: int, j: int| 0 <= i < j < o2.len() implies #[trigger] o2[i].0.1
            != #[trigger] o2[j].0.1 by {
            if j == out.len() {
                assert(o2[i] == out[i]);
                assert(!names.contains_key(out[i].0.1));
            } else {
                assert(o2[i] == out[i] && o2[j] == out[j]);
            }
        }
    }
}

/// Grouping lists every process name at most once: no two listed entries
/// are named after the same process.
pub proof fn lemma_names_listed_once(stats: Seq<ProcStat>, names: Map<i32, String>)
    ensures
        forall|i: int, j: int|
            0 <= i < j < group_rev(stats, names).2.len() ==> #[trigger] group_rev(stats, names).2[i].0.1
                != #[trigger] group_rev(stats, names).2[j].0.1,
{
    lemma_group_invariant(stats, names);
}

proof fn lemma_group_invariant(stats: Seq<ProcStat>, names: Map<i32, String>)
    ensures
        names_used_once(group_rev(stats, names)),
    decreases stats.len(),
{
    if stats.len() > 0 {
        lemma_group_invariant(stats.drop_first(), names);
        lemma_step_keeps_names(group_rev(stats.drop_first(), names), stats[0]);
    }
}

} // verus!
