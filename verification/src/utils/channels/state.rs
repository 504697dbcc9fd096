use crate::utils::tasks::CancellableTask;
use vstd::prelude::*;

verus! {

/// One live channel: its identifier, the pause flag its producer reads every
/// tick, and the control state of the task running that producer.
#[derive(Debug, Clone)]
pub struct ChannelEntry {
    pub id: String,
    pub paused: bool,
    pub task: CancellableTask,
}

/// The registry: the single source of truth for which channels exist and
/// their run/paused state. The embedding runtime serializes access to it
/// through one exclusive guard, held only for the duration of a map edit.
#[derive(Debug)]
pub struct ChannelsInner {
    pub channels: Vec<ChannelEntry>,
}

/// At most one live entry per identifier.
pub open spec fn wf_entries(s: Seq<ChannelEntry>) -> bool {
    forall|i: int, j: int| 0 <= i < j < s.len() ==> s[i].id@ != s[j].id@
}

/// Some entry carries this identifier.
pub open spec fn has_id(s: Seq<ChannelEntry>, id: Seq<char>) -> bool {
    exists|i: int| 0 <= i < s.len() && s[i].id@ == id
}

/// The position of the entry carrying this identifier; meaningful only when
/// `has_id` holds, and unique under `wf_entries`.
pub open spec fn entry_index(s: Seq<ChannelEntry>, id: Seq<char>) -> int {
    choose|i: int| 0 <= i < s.len() && s[i].id@ == id
}

/// The pause flag of the entry carrying this identifier.
pub open spec fn paused_of(s: Seq<ChannelEntry>, id: Seq<char>) -> bool {
    s[entry_index(s, id)].paused
}

/// The task control state of the entry carrying this identifier.
pub open spec fn task_of(s: Seq<ChannelEntry>, id: Seq<char>) -> CancellableTask {
    s[entry_index(s, id)].task
}

/// The registry after the pause flag of `id` is set to `p`: that entry keeps
/// its identifier and task, every other entry is untouched.
pub open spec fn after_set_paused(s: Seq<ChannelEntry>, id: Seq<char>, p: bool) -> Seq<
    ChannelEntry,
> {
    s.update(entry_index(s, id), (ChannelEntry { paused: p, ..s[entry_index(s, id)] }))
}

/// The registry after the entry carrying `id` is removed.
pub open spec fn after_remove(s: Seq<ChannelEntry>, id: Seq<char>) -> Seq<ChannelEntry> {
    s.remove(entry_index(s, id))
}

/// Under `wf_entries`, the index of an entry is the unique position
/// carrying its identifier, so `entry_index` finds exactly it.
pub proof fn lemma_entry_index_unique(s: Seq<ChannelEntry>, i: int)
    requires
        wf_entries(s),
        0 <= i < s.len(),
    ensures
        has_id(s, s[i].id@),
        entry_index(s, s[i].id@) == i,
{
    assert(0 <= i < s.len() && s[i].id@ == s[i].id@);
    let j = entry_index(s, s[i].id@);
    assert(0 <= j < s.len() && s[j].id@ == s[i].id@);
    if j < i {
        assert(s[j].id@ != s[i].id@);
    }
    if i < j {
        assert(s[i].id@ != s[j].id@);
    }
}

impl ChannelsInner {
    pub open spec fn wf(self) -> bool {
        wf_entries(self.channels@)
    }

    pub open spec fn has(self, id: Seq<char>) -> bool {
        has_id(self.channels@, id)
    }

    pub open spec fn paused(self, id: Seq<char>) -> bool {
        paused_of(self.channels@, id)
    }

    pub fn new() -> (r: Self)
        ensures
            r.channels@.len() == 0,
            r.wf(),
    {
        ChannelsInner { channels: Vec::new() }
    }
}

impl Default for ChannelsInner {
    fn default() -> (r: Self)
        ensures
            r.channels@.len() == 0,
            r.wf(),
    {
        ChannelsInner { channels: Vec::new() }
    }
}

} // verus!
