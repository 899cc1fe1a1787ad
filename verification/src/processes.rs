//! Which running processes belong to the bundled plugins.
use vstd::prelude::*;
use crate::text::{chars_of, contains_chars, has_infix};

verus! {

/// A running process: its id and its name.
pub struct ProcessInfo {
    pub pid: u32,
    pub name: String,
}

/// A process name of the extension host or of the computer-use helper.
pub open spec fn is_plugin_process_name(name: Seq<char>) -> bool {
    has_infix(name, "extension-host"@) || has_infix(name, "codex-computer-use"@)
}

/// Whether a process of this name belongs to the bundled plugins.
pub fn is_plugin_process(name: &str) -> (r: bool)
    ensures
        r == is_plugin_process_name(name@),
{
    let n = chars_of(name);
    let host = chars_of("extension-host");
    let helper = chars_of("codex-computer-use");
    contains_chars(n.as_slice(), host.as_slice()) || contains_chars(n.as_slice(), helper.as_slice())
}

/// The ids of the plugin processes, in the order of the list.
pub open spec fn plugin_pids(ps: Seq<ProcessInfo>) -> Seq<u32>
    decreases ps.len(),
{
    if ps.len() == 0 {
        Seq::empty()
    } else if is_plugin_process_name(ps.last().name@) {
        plugin_pids(ps.drop_last()).push(ps.last().pid)
    } else {
        plugin_pids(ps.drop_last())
    }
}

/// The ids of the plugin processes in `ps`, in order: the processes a repair stops.
pub fn plugin_process_ids(ps: &Vec<ProcessInfo>) -> (r: Vec<u32>)
    ensures
        r@ == plugin_pids(ps@),
{
    let mut r: Vec<u32> = Vec::new();
    let mut i: usize = 0;
    assert(ps@.take(0) =~= Seq::<ProcessInfo>::empty());
    while i < ps.len()
        invariant
            i <= ps@.len(),
            r@ == plugin_pids(ps@.take(i as int)),
        decreases ps@.len() - i,
    {
        assert(ps@.take(i + 1).drop_last() =~= ps@.take(i as int));
        assert(ps@.take(i + 1).last() == ps@[i as int]);
        if is_plugin_process(ps[i].name.as_str()) {
            r.push(ps[i].pid);
        }
        i = i + 1;
    }
    assert(ps@.take(ps@.len() as int) =~= ps@);
    r
}

/// How many of `ps` are plugin processes.
pub fn count_plugin_processes(ps: &Vec<ProcessInfo>) -> (r: usize)
    ensures
        r == plugin_pids(ps@).len(),
{
    plugin_process_ids(ps).len()
}

/// Whether a plugin process runs.
pub fn is_extension_host_running(ps: &Vec<ProcessInfo>) -> (r: bool)
    ensures
        r == (plugin_pids(ps@).len() > 0),
{
    count_plugin_processes(ps) > 0
}

} // verus!
