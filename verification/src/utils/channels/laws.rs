//! Registry-level laws: facts that hold of every sequence of commands, stated
//! over the same spec functions the commands' contracts use and proved once
//! and for all.

use super::state::{
    after_remove, after_set_paused, entry_index, has_id, lemma_entry_index_unique, paused_of,
    wf_entries, ChannelEntry,
};
use vstd::prelude::*;

verus! {

/// A successful register is exclusive and non-destructive: afterwards the
/// identifier has an entry — so a second register of it meets the
/// `ChannelAlreadyExists` condition of `register`'s contract — and every
/// entry that was already present, its pause flag and its task included, is
/// exactly what it was.
pub proof fn lemma_register_is_exclusive(s: Seq<ChannelEntry>, e: ChannelEntry)
    requires
        !has_id(s, e.id@),
    ensures
        has_id(s.push(e), e.id@),
        forall|i: int| 0 <= i < s.len() ==> s.push(e)[i] == s[i],
{
    assert(s.push(e)[s.len() as int] == e);
}

/// A successful register preserves well-formedness: with the identifier
/// fresh, entries stay pairwise distinct.
pub proof fn lemma_register_preserves_wf(s: Seq<ChannelEntry>, e: ChannelEntry)
    requires
        wf_entries(s),
        !has_id(s, e.id@),
    ensures
        wf_entries(s.push(e)),
{
    assert forall|a: int, b: int| 0 <= a < b < s.push(e).len() implies s.push(e)[a].id@ != s.push(
        e,
    )[b].id@ by {
        if b == s.len() {
            assert(s[a].id@ != e.id@);
        } else {
            assert(s[a].id@ != s[b].id@);
        }
    }
}

/// Setting the pause flag touches exactly one entry: afterwards the flag of
/// `id` is `p`, its task and identifier are untouched, every other entry is
/// exactly what it was, and the registry stays well-formed.
pub proof fn lemma_set_paused_effect(s: Seq<ChannelEntry>, id: Seq<char>, p: bool)
    requires
        wf_entries(s),
        has_id(s, id),
    ensures
        wf_entries(after_set_paused(s, id, p)),
        after_set_paused(s, id, p).len() == s.len(),
        has_id(after_set_paused(s, id, p), id),
        paused_of(after_set_paused(s, id, p), id) == p,
        after_set_paused(s, id, p)[entry_index(s, id)].task == s[entry_index(s, id)].task,
        forall|k: int|
            0 <= k < s.len() && k != entry_index(s, id) ==> after_set_paused(s, id, p)[k] == s[k],
{
    let i = entry_index(s, id);
    assert(0 <= i < s.len() && s[i].id@ == id);
    let t = after_set_paused(s, id, p);
    assert forall|a: int, b: int| 0 <= a < b < t.len() implies t[a].id@ != t[b].id@ by {
        assert(s[a].id@ != s[b].id@);
    }
    lemma_entry_index_unique(t, i);
}

/// `start` immediately after `register` meets the `InvalidStateTransition`
/// condition of `start`'s contract, because a fresh entry is already
/// running; `pause` then `start` walks the flag to paused and back, ending
/// with the channel reported as running.
pub proof fn lemma_register_pause_start(s: Seq<ChannelEntry>, e: ChannelEntry)
    requires
        wf_entries(s),
        !has_id(s, e.id@),
        !e.paused,
    ensures
        !paused_of(s.push(e), e.id@),
        paused_of(after_set_paused(s.push(e), e.id@, true), e.id@),
        !paused_of(
            after_set_paused(after_set_paused(s.push(e), e.id@, true), e.id@, false),
            e.id@,
        ),
{
    lemma_register_preserves_wf(s, e);
    lemma_entry_index_unique(s.push(e), s.len() as int);
    lemma_set_paused_effect(s.push(e), e.id@, true);
    lemma_set_paused_effect(after_set_paused(s.push(e), e.id@, true), e.id@, false);
}

/// After a successful pause, the flag reads paused, so a second pause in a
/// row meets the `InvalidStateTransition` condition of `pause`'s contract.
pub proof fn lemma_pause_twice_invalid(s: Seq<ChannelEntry>, id: Seq<char>)
    requires
        wf_entries(s),
        has_id(s, id),
        !paused_of(s, id),
    ensures
        has_id(after_set_paused(s, id, true), id),
        paused_of(after_set_paused(s, id, true), id),
{
    lemma_set_paused_effect(s, id, true);
}

/// `stop` is single-shot: removing the entry for `id` leaves a well-formed
/// registry with no entry for `id`, so a second stop meets the
/// `ChannelNotFound` condition of `stop`'s contract.
pub proof fn lemma_stop_single_shot(s: Seq<ChannelEntry>, id: Seq<char>)
    requires
        wf_entries(s),
        has_id(s, id),
    ensures
        wf_entries(after_remove(s, id)),
        after_remove(s, id).len() == s.len() - 1,
        !has_id(after_remove(s, id), id),
{
    let i = entry_index(s, id);
    assert(0 <= i < s.len() && s[i].id@ == id);
    let t = after_remove(s, id);
    assert forall|a: int, b: int| 0 <= a < b < t.len() implies t[a].id@ != t[b].id@ by {
        assert(t[a] == if a < i {
            s[a]
        } else {
            s[a + 1]
        });
        assert(t[b] == if b < i {
            s[b]
        } else {
            s[b + 1]
        });
    }
    assert forall|k: int| 0 <= k < t.len() implies t[k].id@ != id by {
        assert(t[k] == if k < i {
            s[k]
        } else {
            s[k + 1]
        });
        if k < i {
            assert(s[k].id@ != s[i].id@);
        } else {
            assert(s[i].id@ != s[k + 1].id@);
        }
    }
}

/// The registry after a whole batch of registrations, one `push` per entry,
/// oldest first.
pub open spec fn after_register_all(s: Seq<ChannelEntry>, es: Seq<ChannelEntry>) -> Seq<
    ChannelEntry,
>
    decreases es.len(),
{
    if es.len() == 0 {
        s
    } else {
        after_register_all(s.push(es[0]), es.drop_first())
    }
}

/// A batch of registrations appends the batch in order.
pub proof fn lemma_register_all_is_concat(s: Seq<ChannelEntry>, es: Seq<ChannelEntry>)
    ensures
        after_register_all(s, es) == s + es,
    decreases es.len(),
{
    if es.len() == 0 {
        assert(s + es =~= s);
    } else {
        lemma_register_all_is_concat(s.push(es[0]), es.drop_first());
        assert(s.push(es[0]) + es.drop_first() =~= s + es);
    }
}

/// Registering N entries with pairwise-distinct, fresh identifiers yields
/// exactly N additional entries, and each of the new identifiers is present
/// with precisely the pause flag its entry carries — so a snapshot taken
/// afterwards has one record per registration, each matching its last
/// commanded state.
pub proof fn lemma_register_all_counts(s: Seq<ChannelEntry>, es: Seq<ChannelEntry>)
    requires
        wf_entries(s),
        forall|i: int, j: int| 0 <= i < j < es.len() ==> es[i].id@ != es[j].id@,
        forall|i: int| 0 <= i < es.len() ==> !has_id(s, #[trigger] es[i].id@),
    ensures
        after_register_all(s, es) == s + es,
        after_register_all(s, es).len() == s.len() + es.len(),
        wf_entries(s + es),
        forall|i: int|
            0 <= i < es.len() ==> has_id(s + es, #[trigger] es[i].id@) && paused_of(
                s + es,
                es[i].id@,
            ) == es[i].paused,
{
    lemma_register_all_is_concat(s, es);
    let t = s + es;
    assert forall|a: int, b: int| 0 <= a < b < t.len() implies t[a].id@ != t[b].id@ by {
        if b < s.len() {
            assert(s[a].id@ != s[b].id@);
        } else if a < s.len() {
            assert(!has_id(s, es[b - s.len()].id@));
            assert(t[a] == s[a]);
        } else {
            assert(es[a - s.len()].id@ != es[b - s.len()].id@);
        }
    }
    assert forall|i: int| 0 <= i < es.len() implies has_id(t, #[trigger] es[i].id@) && paused_of(
        t,
        es[i].id@,
    ) == es[i].paused by {
        assert(t[s.len() + i] == es[i]);
        lemma_entry_index_unique(t, s.len() + i);
    }
}

} // verus!
