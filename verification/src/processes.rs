//! Which process a process ID belongs to.
use vstd::prelude::*;

use crate::string_map::StringMap;

verus! {

/// A process ID as it stands in the table of the processes: the upper half of the
/// range wraps round to the negative numbers.
pub open spec fn table_pid(pid: u32) -> i32 {
    if pid <= 0x7fff_ffff {
        pid as i32
    } else {
        (pid - 0x1_0000_0000) as i32
    }
}

/// The first of `keys` whose process has the ID `pid`.
pub open spec fn first_owner(
    keys: Seq<Seq<char>>,
    processes: Map<Seq<char>, i32>,
    pid: i32,
) -> Option<Seq<char>>
    decreases keys.len(),
{
    if keys.len() == 0 {
        None
    } else if processes[keys[0]] == pid {
        Some(keys[0])
    } else {
        first_owner(keys.drop_first(), processes, pid)
    }
}

/// A process ID as it stands in the table of the processes.
pub fn to_table_pid(pid: u32) -> (entry: i32)
    ensures
        entry == table_pid(pid),
{
    if pid <= 0x7fff_ffff {
        pid as i32
    } else {
        (pid as i64 - 0x1_0000_0000) as i32
    }
}

/// The process that has the ID `pid`, or the first of them where several have it.
pub fn find_owner(processes: &StringMap<i32>, pid: i32) -> (owner: Option<String>)
    requires
        processes.wf(),
    ensures
        crate::text::view_of(owner) == first_owner(processes.keys(), processes@, pid),
{
    let ghost keys = processes.keys();
    let mut at: usize = 0;
    assert(keys.skip(0) =~= keys);
    while at < processes.len()
        invariant
            at <= keys.len(),
            processes.wf(),
            keys == processes.keys(),
            first_owner(keys, processes@, pid) == first_owner(
                keys.skip(at as int),
                processes@,
                pid,
            ),
        decreases keys.len() - at,
    {
        assert(keys.skip(at as int).drop_first() =~= keys.skip(at + 1));
        if *processes.value_at(at) == pid {
            return Some(processes.key_at(at).clone());
        }
        at = at + 1;
    }
    None
}

/// The owner of a process ID is one of the processes, and has that ID; where there
/// is no owner, none of the processes has it.
pub proof fn law_owner_has_the_pid(
    keys: Seq<Seq<char>>,
    processes: Map<Seq<char>, i32>,
    pid: i32,
)
    ensures
        match first_owner(keys, processes, pid) {
            Some(owner) => keys.contains(owner) && processes[owner] == pid,
            None => forall|key: Seq<char>| #[trigger] keys.contains(key) ==> processes[key] != pid,
        },
    decreases keys.len(),
{
    if keys.len() > 0 {
        let rest = keys.drop_first();
        law_owner_has_the_pid(rest, processes, pid);
        assert(keys[0] == keys.first());
        assert forall|key: Seq<char>| #[trigger] keys.contains(key) implies key == keys[0]
            || rest.contains(key) by {
            let i = keys.index_of(key);
            if i > 0 {
                assert(rest[i - 1] == key);
            }
        }
        assert forall|key: Seq<char>| #[trigger] rest.contains(key) implies keys.contains(key) by {
            let i = rest.index_of(key);
            assert(keys[i + 1] == key);
        }
        assert(keys.contains(keys[0]));
    }
}

/// Where one process alone has a process ID, it is the owner.
pub proof fn law_sole_holder_is_owner(
    keys: Seq<Seq<char>>,
    processes: Map<Seq<char>, i32>,
    pid: i32,
    holder: Seq<char>,
)
    requires
        keys.contains(holder),
        processes[holder] == pid,
        forall|key: Seq<char>| #[trigger]
            keys.contains(key) && processes[key] == pid ==> key == holder,
    ensures
        first_owner(keys, processes, pid) == Some(holder),
{
    law_owner_has_the_pid(keys, processes, pid);
}

} // verus!
