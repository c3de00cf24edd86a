//! The process group registry: in-flight engine process ids tracked by a
//! caller-supplied group tag, with group-wide cooperative termination.

use vstd::prelude::*;

use crate::text::str_eq;

verus! {

/// The signal number a process is asked to end with; a process that died
/// of it is reported as cancelled, not failed.
pub const TERMINATION_SIGNAL: i32 = 15;

/// How a finished process ended, as plain values: whether it succeeded,
/// its exit code if any, and the signal that ended it if any.
#[derive(Debug, Clone, Copy)]
pub struct ExitInfo {
    pub success: bool,
    pub code: Option<i32>,
    pub signal: Option<i32>,
}

/// Whether an exit looks like a termination requested through this
/// registry: the process died of the termination signal.
pub open spec fn was_terminated(status: ExitInfo) -> bool {
    status.signal == Some(TERMINATION_SIGNAL)
}

/// Tests with a command's exit status whether it was ended by a
/// termination request, rather than failing on its own.
pub fn process_was_terminated(status: &ExitInfo) -> (r: bool)
    ensures
        r == was_terminated(*status),
{
    match status.signal {
        Some(s) => s == TERMINATION_SIGNAL,
        None => false,
    }
}

/// One registry row: a group tag and the ids of its live processes.
#[derive(Debug)]
pub struct GroupEntry {
    pub name: String,
    pub pids: Vec<u32>,
}

/// The registry of running commands, grouped by tag. Rows are added at
/// spawn time and emptied at reap or termination time.
#[derive(Debug)]
pub struct CommandGroups {
    entries: Vec<GroupEntry>,
}

/// The first registry row carrying `name`, scanning from row `i` on.
pub open spec fn find_group_from(entries: Seq<GroupEntry>, name: Seq<char>, i: int) -> Option<int>
    decreases entries.len() - i,
{
    if i < 0 || i >= entries.len() {
        None
    } else if entries[i].name@ == name {
        Some(i)
    } else {
        find_group_from(entries, name, i + 1)
    }
}

/// The first registry row carrying `name`, if any.
pub open spec fn find_group(entries: Seq<GroupEntry>, name: Seq<char>) -> Option<int> {
    find_group_from(entries, name, 0)
}

proof fn lemma_find_group_skip(entries: Seq<GroupEntry>, name: Seq<char>, i: int)
    requires
        0 <= i <= entries.len(),
        forall|k: int| 0 <= k < i ==> (#[trigger] entries[k]).name@ != name,
    ensures
        find_group(entries, name) == find_group_from(entries, name, i),
    decreases i,
{
    if i > 0 {
        lemma_find_group_skip(entries, name, i - 1);
    }
}

proof fn lemma_find_group_from_props(entries: Seq<GroupEntry>, name: Seq<char>, i: int)
    requires
        0 <= i <= entries.len(),
    ensures
        match find_group_from(entries, name, i) {
            Some(j) => i <= j < entries.len() && entries[j].name@ == name,
            None => true,
        },
    decreases entries.len() - i,
{
    if i < entries.len() && entries[i].name@ != name {
        lemma_find_group_from_props(entries, name, i + 1);
    }
}

proof fn lemma_find_group_from_same_names(
    a: Seq<GroupEntry>,
    b: Seq<GroupEntry>,
    name: Seq<char>,
    i: int,
)
    requires
        a.len() == b.len(),
        forall|k: int| 0 <= k < a.len() ==> (#[trigger] a[k]).name@ == b[k].name@,
    ensures
        find_group_from(a, name, i) == find_group_from(b, name, i),
    decreases a.len() - i,
{
    if 0 <= i && i < a.len() {
        lemma_find_group_from_same_names(a, b, name, i + 1);
    }
}

proof fn lemma_find_group_from_push(entries: Seq<GroupEntry>, e: GroupEntry, name: Seq<char>, i: int)
    requires
        0 <= i <= entries.len(),
    ensures
        find_group_from(entries.push(e), name, i) == match find_group_from(entries, name, i) {
            Some(j) => Some(j),
            None => if e.name@ == name {
                Some(entries.len() as int)
            } else {
                None
            },
        },
    decreases entries.len() - i,
{
    if i < entries.len() {
        assert(entries.push(e)[i] == entries[i]);
        lemma_find_group_from_push(entries, e, name, i + 1);
    } else {
        assert(entries.push(e)[i] == e);
        if e.name@ != name {
            assert(find_group_from(entries.push(e), name, i + 1) is None);
        }
    }
}

/// The ids registered under `name`: the first matching row's list, or
/// empty where the group has no row.
pub open spec fn group_pids(entries: Seq<GroupEntry>, name: Seq<char>) -> Seq<u32> {
    match find_group(entries, name) {
        Some(i) => entries[i].pids@,
        None => Seq::empty(),
    }
}

/// A process id list with every occurrence of `pid` removed, order kept.
pub open spec fn without_pid(pids: Seq<u32>, pid: u32) -> Seq<u32>
    decreases pids.len(),
{
    if pids.len() == 0 {
        pids
    } else {
        let rest = without_pid(pids.drop_last(), pid);
        if pids.last() == pid {
            rest
        } else {
            rest.push(pids.last())
        }
    }
}

impl CommandGroups {
    /// The ids registered under `name`.
    pub closed spec fn pids_of(self, name: Seq<char>) -> Seq<u32> {
        group_pids(self.entries@, name)
    }

    /// A fresh registry with no rows.
    pub fn new() -> (r: CommandGroups)
        ensures
            forall|name: Seq<char>| #[trigger] r.pids_of(name) == Seq::<u32>::empty(),
    {
        let r = CommandGroups { entries: Vec::new() };
        proof {
            assert forall|name: Seq<char>| #[trigger] r.pids_of(name) == Seq::<u32>::empty() by {
                assert(find_group(r.entries@, name) is None);
            }
        }
        r
    }

    /// The index of the first row carrying `name`, if any.
    fn find(&self, name: &str) -> (r: Option<usize>)
        ensures
            match r {
                Some(i) => i < self.entries@.len() && find_group(self.entries@, name@) == Some(
                    i as int,
                ) && self.entries@[i as int].name@ == name@,
                None => find_group(self.entries@, name@) is None,
            },
    {
        let mut i: usize = 0;
        while i < self.entries.len()
            invariant
                0 <= i <= self.entries@.len(),
                forall|k: int| 0 <= k < i ==> (#[trigger] self.entries@[k]).name@ != name@,
            decreases self.entries@.len() - i,
        {
            if str_eq(self.entries[i].name.as_str(), name) {
                proof {
                    lemma_find_group_skip(self.entries@, name@, i as int);
                }
                return Some(i);
            }
            i = i + 1;
        }
        proof {
            lemma_find_group_skip(self.entries@, name@, self.entries@.len() as int);
        }
        None
    }

    /// The ids currently registered under a group, as a fresh list.
    pub fn pids_in_group(&self, name: &str) -> (r: Vec<u32>)
        ensures
            r@ == self.pids_of(name@),
    {
        match self.find(name) {
            None => Vec::new(),
            Some(idx) => {
                let source = &self.entries[idx].pids;
                let mut out: Vec<u32> = Vec::new();
                let mut k: usize = 0;
                while k < source.len()
                    invariant
                        0 <= k <= source@.len(),
                        out@ == source@.take(k as int),
                    decreases source@.len() - k,
                {
                    out.push(source[k]);
                    proof {
                        assert(out@ =~= source@.take(k + 1));
                    }
                    k = k + 1;
                }
                proof {
                    assert(source@.take(source@.len() as int) =~= source@);
                }
                out
            },
        }
    }
}

/// Relies on `nix::sys::signal::kill`: asks the OS to end the process
/// with this id by sending it the termination signal. Whether and when
/// the process ends rests with the OS.
#[verifier::external_body]
fn terminate_process_with_id(pid: u32) -> (r: Result<(), String>)
    requires
        1 <= pid <= 0x7fff_ffff,
{
    nix::sys::signal::kill(
        nix::unistd::Pid::from_raw(pid as i32),
        nix::sys::signal::Signal::SIGTERM,
    ).map_err(|err| err.to_string())
}

/// Asks the OS to end every process registered under the group, and
/// empties the group's row first, so a reaper finding the row later sees
/// none of them. Ids outside the range a process id can take are skipped.
pub fn terminate_all_commands_in_group(groups: &mut CommandGroups, command_group: &str) -> (r:
    Result<(), String>)
    ensures
        r is Ok,
        final(groups).pids_of(command_group@) == Seq::<u32>::empty(),
        forall|name: Seq<char>|
            name != command_group@ ==> #[trigger] final(groups).pids_of(name) == old(
                groups,
            ).pids_of(name),
{
    let found = groups.find(command_group);
    match found {
        None => {
            proof {
                assert forall|name: Seq<char>| #[trigger]
                    final(groups).pids_of(name) == old(groups).pids_of(name) by {}
            }
            Ok(())
        },
        Some(idx) => {
            let ghost entries0 = groups.entries@;
            let entry = groups.entries.remove(idx);
            groups.entries.insert(idx, GroupEntry { name: entry.name, pids: Vec::new() });
            proof {
                let entries1 = groups.entries@;
                assert(entries1 =~= entries0.update(idx as int, entries1[idx as int]));
                assert(forall|k: int|
                    0 <= k < entries0.len() ==> (#[trigger] entries1[k]).name@
                        == entries0[k].name@);
                lemma_find_group_from_same_names(entries0, entries1, command_group@, 0);
                assert forall|name: Seq<char>|
                    name != command_group@ implies #[trigger] group_pids(entries1, name)
                    == group_pids(entries0, name) by {
                    lemma_find_group_from_same_names(entries0, entries1, name, 0);
                    lemma_find_group_from_props(entries0, name, 0);
                    match find_group(entries0, name) {
                        Some(j) => {
                            assert(entries0[j].name@ == name);
                            assert(j != idx);
                            assert(entries1[j] == entries0[j]);
                        },
                        None => {},
                    }
                }
            }
            let running = entry.pids;
            let mut k: usize = 0;
            while k < running.len()
                decreases running@.len() - k,
            {
                let pid = running[k];
                if 1 <= pid && pid <= 0x7fff_ffff {
                    // a failed request is logged and ignored: the reaper
                    // still removes the id when the process exits
                    let _ = terminate_process_with_id(pid);
                }
                k = k + 1;
            }
            Ok(())
        },
    }
}

/// Registers a started process id under a group, appending a fresh row
/// when the group has none.
pub fn add_command_to_group(groups: &mut CommandGroups, command_group: &str, child_id: u32) -> (r:
    Result<(), String>)
    ensures
        r is Ok,
        final(groups).pids_of(command_group@) == old(groups).pids_of(command_group@).push(child_id),
        forall|name: Seq<char>|
            name != command_group@ ==> #[trigger] final(groups).pids_of(name) == old(
                groups,
            ).pids_of(name),
{
    let found = groups.find(command_group);
    match found {
        Some(idx) => {
            let ghost entries0 = groups.entries@;
            let mut entry = groups.entries.remove(idx);
            entry.pids.push(child_id);
            groups.entries.insert(idx, entry);
            proof {
                let entries1 = groups.entries@;
                assert(entries1 =~= entries0.update(idx as int, entries1[idx as int]));
                assert(forall|k: int|
                    0 <= k < entries0.len() ==> (#[trigger] entries1[k]).name@
                        == entries0[k].name@);
                lemma_find_group_from_same_names(entries0, entries1, command_group@, 0);
                assert(entries1[idx as int].pids@ == entries0[idx as int].pids@.push(child_id));
                assert forall|name: Seq<char>|
                    name != command_group@ implies #[trigger] group_pids(entries1, name)
                    == group_pids(entries0, name) by {
                    lemma_find_group_from_same_names(entries0, entries1, name, 0);
                    lemma_find_group_from_props(entries0, name, 0);
                    match find_group(entries0, name) {
                        Some(j) => {
                            assert(entries0[j].name@ == name);
                            assert(j != idx);
                            assert(entries1[j] == entries0[j]);
                        },
                        None => {},
                    }
                }
            }
            Ok(())
        },
        None => {
            let ghost entries0 = groups.entries@;
            let mut pids: Vec<u32> = Vec::new();
            pids.push(child_id);
            groups.entries.push(GroupEntry { name: command_group.to_owned(), pids });
            proof {
                let entries1 = groups.entries@;
                let e = entries1.last();
                lemma_find_group_from_push(entries0, e, command_group@, 0);
                assert(group_pids(entries0, command_group@) =~= Seq::<u32>::empty());
                assert(group_pids(entries1, command_group@) =~= Seq::<u32>::empty().push(
                    child_id,
                ));
                assert forall|name: Seq<char>|
                    name != command_group@ implies #[trigger] group_pids(entries1, name)
                    == group_pids(entries0, name) by {
                    lemma_find_group_from_push(entries0, e, name, 0);
                    lemma_find_group_from_props(entries0, name, 0);
                    match find_group(entries0, name) {
                        Some(j) => {
                            assert(entries1[j] == entries0[j]);
                        },
                        None => {},
                    }
                }
            }
            Ok(())
        },
    }
}

/// Unregisters a finished process id from its group; absent ids are a
/// no-op, so the call is idempotent and safe on every exit path.
pub fn remove_command_from_group(groups: &mut CommandGroups, command_group: &str, child_id: u32) -> (
    r: Result<(), String>)
    ensures
        r is Ok,
        final(groups).pids_of(command_group@) == without_pid(
            old(groups).pids_of(command_group@),
            child_id,
        ),
        forall|name: Seq<char>|
            name != command_group@ ==> #[trigger] final(groups).pids_of(name) == old(
                groups,
            ).pids_of(name),
{
    let found = groups.find(command_group);
    match found {
        None => {
            proof {
                assert(without_pid(Seq::<u32>::empty(), child_id) =~= Seq::<u32>::empty());
            }
            Ok(())
        },
        Some(idx) => {
            let ghost entries0 = groups.entries@;
            let entry = groups.entries.remove(idx);
            let old_pids = entry.pids;
            let mut kept: Vec<u32> = Vec::new();
            let mut k: usize = 0;
            proof {
                assert(kept@ =~= without_pid(old_pids@.take(0), child_id));
            }
            while k < old_pids.len()
                invariant
                    0 <= k <= old_pids@.len(),
                    kept@ == without_pid(old_pids@.take(k as int), child_id),
                decreases old_pids@.len() - k,
            {
                let ghost kept0 = kept@;
                let pid = old_pids[k];
                if pid != child_id {
                    kept.push(pid);
                }
                proof {
                    assert(old_pids@.take(k + 1).drop_last() =~= old_pids@.take(k as int));
                    assert(old_pids@.take(k + 1).last() == old_pids@[k as int]);
                }
                k = k + 1;
            }
            proof {
                assert(old_pids@.take(old_pids@.len() as int) =~= old_pids@);
            }
            groups.entries.insert(idx, GroupEntry { name: entry.name, pids: kept });
            proof {
                let entries1 = groups.entries@;
                assert(entries1 =~= entries0.update(idx as int, entries1[idx as int]));
                assert(forall|j: int|
                    0 <= j < entries0.len() ==> (#[trigger] entries1[j]).name@
                        == entries0[j].name@);
                lemma_find_group_from_same_names(entries0, entries1, command_group@, 0);
                assert forall|name: Seq<char>|
                    name != command_group@ implies #[trigger] group_pids(entries1, name)
                    == group_pids(entries0, name) by {
                    lemma_find_group_from_same_names(entries0, entries1, name, 0);
                    lemma_find_group_from_props(entries0, name, 0);
                    match find_group(entries0, name) {
                        Some(j) => {
                            assert(entries0[j].name@ == name);
                            assert(j != idx);
                            assert(entries1[j] == entries0[j]);
                        },
                        None => {},
                    }
                }
            }
            Ok(())
        },
    }
}

/// Law: superseding then reaping leaves no trace of a group. Whatever ids
/// a group held, terminating the group empties it; registering the one
/// new process and deregistering it on its exit path leaves the group
/// empty again, so repeated invocations cannot leak registrations.
pub proof fn lemma_supersede_then_reap_leaves_group_empty(
    after_terminate: Seq<u32>,
    after_register: Seq<u32>,
    after_reap: Seq<u32>,
    pid: u32,
)
    requires
        after_terminate == Seq::<u32>::empty(),
        after_register == after_terminate.push(pid),
        after_reap == without_pid(after_register, pid),
    ensures
        after_reap == Seq::<u32>::empty(),
{
    assert(after_register.drop_last() =~= Seq::<u32>::empty());
    assert(after_register.last() == pid);
    assert(without_pid(Seq::<u32>::empty(), pid) =~= Seq::<u32>::empty());
    assert(after_reap =~= Seq::<u32>::empty());
}

} // verus!
