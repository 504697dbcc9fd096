use super::error::Error;
use super::state::{
    after_remove, after_set_paused, has_id, task_of, ChannelEntry, ChannelsInner,
};
use crate::utils::tasks::{spec_cancel, CancellableTask};
use vstd::prelude::*;

verus! {

/// One synthetic reading pushed to the sink: the channel it belongs to, a
/// bounded value, and the moment it was produced.
///
/// The value is a fixed-point reading in ten-thousandths, drawn uniformly
/// from [-100000, 100000] — that is, four decimal places within ±10.0000.
/// The timestamp is an RFC 3339 string.
#[derive(Debug, Clone, PartialEq, Eq)]
pub struct Event {
    pub id: String,
    pub value: i64,
    pub timestamp: String,
}

/// What `get_status` and `list_channels` report for one identifier: whether
/// an entry exists, and its pause flag when it does.
#[derive(Debug, Clone, PartialEq, Eq)]
pub struct ChannelStatus {
    pub id: String,
    pub exists: bool,
    pub paused: Option<bool>,
}

/// rand's thread-local generator, declared so that a handle to it can pass
/// between the wrappers below; nothing of its inside is assumed.
#[verifier::external_type_specification]
#[verifier::external_body]
pub struct ExThreadRng(rand::rngs::ThreadRng);

/// Relies on rand's thread_rng: a handle to the thread-local generator.
#[verifier::external_body]
fn fresh_rng() -> rand::rngs::ThreadRng {
    rand::thread_rng()
}

/// Relies on rand's Rng::gen_range, which returns a value uniformly sampled
/// from the given range and panics only when the range is empty; this range
/// is inclusive on both ends and never empty. Nothing beyond the bounds is
/// assumed of the outcome.
#[verifier::external_body]
fn draw_scaled_value(rng: &mut rand::rngs::ThreadRng) -> (r: i64)
    ensures
        -100000 <= r <= 100000,
{
    rand::Rng::gen_range(rng, -100000i64..=100000i64)
}

/// Relies on chrono's Utc::now, converted to a plain value with
/// DateTime::to_rfc3339. The result depends on the clock, so nothing is
/// assumed of it.
#[verifier::external_body]
fn now_rfc3339() -> String {
    chrono::Utc::now().to_rfc3339()
}

/// A bounded synthetic reading: uniformly drawn, scaled to four decimal
/// places within ±10.0000, represented in ten-thousandths.
pub fn generate_random_scaled() -> (r: i64)
    ensures
        -100000 <= r <= 100000,
{
    let mut rng = fresh_rng();
    draw_scaled_value(&mut rng)
}

/// One tick of a producer loop, after the tick timer has won the race
/// against cancellation: a paused channel skips emission; a running one
/// produces a bounded reading stamped with the current time. The caller
/// delivers the event to the sink and treats a delivery failure as terminal
/// for this producer only.
pub fn produce_tick(id: &String, paused: bool) -> (r: Option<Event>)
    ensures
        paused ==> r is None,
        !paused ==> (r matches Some(e) && e.id == *id && -100000 <= e.value <= 100000),
{
    if paused {
        None
    } else {
        let value = generate_random_scaled();
        let timestamp = now_rfc3339();
        Some(Event { id: id.clone(), value, timestamp })
    }
}

/// The position of the first entry carrying `id`, if any.
fn find_index(channels: &Vec<ChannelEntry>, id: &String) -> (r: Option<usize>)
    ensures
        match r {
            Some(i) => 0 <= i < channels@.len() && channels@[i as int].id@ == id@,
            None => !has_id(channels@, id@),
        },
{
    let n = channels.len();
    let mut j: usize = 0;
    while j < n
        invariant
            n == channels@.len(),
            j <= n,
            forall|k: int| 0 <= k < j ==> channels@[k].id@ != id@,
        decreases n - j,
    {
        if channels[j].id == *id {
            return Some(j);
        }
        j += 1;
    }
    None
}

/// Create an entry for `id` with a fresh task and the pause flag clear, or
/// fail with `ChannelAlreadyExists` and leave the registry untouched. The
/// caller spawns the producer loop for the new entry.
pub fn register(channels: &mut ChannelsInner, id: String) -> (r: Result<(), Error>)
    requires
        old(channels).wf(),
    ensures
        final(channels).wf(),
        old(channels).has(id@) ==> r == Err::<(), Error>(Error::ChannelAlreadyExists { id })
            && final(channels).channels@ == old(channels).channels@,
        !old(channels).has(id@) ==> {
            &&& r == Ok::<(), Error>(())
            &&& final(channels).channels@ == old(channels).channels@.push(
                final(channels).channels@.last(),
            )
            &&& final(channels).channels@.last().id == id
            &&& !final(channels).channels@.last().paused
            &&& final(channels).channels@.last().task.is_fresh()
        },
{
    match find_index(&channels.channels, &id) {
        Some(i) => {
            proof {
                assert(has_id(channels.channels@, id@));
            }
            Err(Error::ChannelAlreadyExists { id })
        },
        None => {
            let task = CancellableTask::new();
            let entry = ChannelEntry { id, paused: false, task };
            channels.channels.push(entry);
            proof {
                super::laws::lemma_register_preserves_wf(old(channels).channels@, entry);
            }
            Ok(())
        },
    }
}

/// Remove the entry for `id`, requesting cancellation of its task before
/// the entry disappears, and hand the cancelled handle to the caller to
/// release; or fail with `ChannelNotFound` and leave the registry untouched.
pub fn unregister(channels: &mut ChannelsInner, id: String) -> (r: Result<CancellableTask, Error>)
    requires
        old(channels).wf(),
    ensures
        final(channels).wf(),
        !old(channels).has(id@) ==> r == Err::<CancellableTask, Error>(
            Error::ChannelNotFound { id },
        ) && final(channels).channels@ == old(channels).channels@,
        old(channels).has(id@) ==> r == Ok::<CancellableTask, Error>(
            spec_cancel(task_of(old(channels).channels@, id@)),
        ) && final(channels).channels@ == after_remove(old(channels).channels@, id@),
{
    match find_index(&channels.channels, &id) {
        Some(i) => {
            proof {
                super::state::lemma_entry_index_unique(channels.channels@, i as int);
            }
            let mut entry = channels.channels.remove(i);
            entry.task.cancel();
            proof {
                assert forall|a: int, b: int|
                    0 <= a < b < channels.channels@.len() implies channels.channels@[a].id@
                    != channels.channels@[b].id@ by {
                    let s = old(channels).channels@;
                    let i = i as int;
                    assert(channels.channels@[a] == if a < i {
                        s[a]
                    } else {
                        s[a + 1]
                    });
                    assert(channels.channels@[b] == if b < i {
                        s[b]
                    } else {
                        s[b + 1]
                    });
                }
            }
            Ok(entry.task)
        },
        None => Err(Error::ChannelNotFound { id }),
    }
}

/// Clear the pause flag of `id`. Fails with `ChannelNotFound` when no entry
/// carries `id`, and with `InvalidStateTransition` when the channel is
/// already running; in every case the set of entries and their tasks are
/// untouched.
pub fn start(channels: &mut ChannelsInner, id: String) -> (r: Result<(), Error>)
    requires
        old(channels).wf(),
    ensures
        final(channels).wf(),
        !old(channels).has(id@) ==> r == Err::<(), Error>(Error::ChannelNotFound { id })
            && final(channels).channels@ == old(channels).channels@,
        old(channels).has(id@) && !old(channels).paused(id@) ==> r == Err::<(), Error>(
            Error::InvalidStateTransition { id },
        ) && final(channels).channels@ == old(channels).channels@,
        old(channels).has(id@) && old(channels).paused(id@) ==> r == Ok::<(), Error>(())
            && final(channels).channels@ == after_set_paused(old(channels).channels@, id@, false),
{
    set_pause_flag(channels, id, false)
}

/// Set the pause flag of `id`. Fails with `ChannelNotFound` when no entry
/// carries `id`, and with `InvalidStateTransition` when the channel is
/// already paused; in every case the set of entries and their tasks are
/// untouched.
pub fn pause(channels: &mut ChannelsInner, id: String) -> (r: Result<(), Error>)
    requires
        old(channels).wf(),
    ensures
        final(channels).wf(),
        !old(channels).has(id@) ==> r == Err::<(), Error>(Error::ChannelNotFound { id })
            && final(channels).channels@ == old(channels).channels@,
        old(channels).has(id@) && old(channels).paused(id@) ==> r == Err::<(), Error>(
            Error::InvalidStateTransition { id },
        ) && final(channels).channels@ == old(channels).channels@,
        old(channels).has(id@) && !old(channels).paused(id@) ==> r == Ok::<(), Error>(())
            && final(channels).channels@ == after_set_paused(old(channels).channels@, id@, true),
{
    set_pause_flag(channels, id, true)
}

/// The shared body of `start` and `pause`: flip the flag of `id` to `p`,
/// reporting `InvalidStateTransition` when it already was `p`.
fn set_pause_flag(channels: &mut ChannelsInner, id: String, p: bool) -> (r: Result<(), Error>)
    requires
        old(channels).wf(),
    ensures
        final(channels).wf(),
        !old(channels).has(id@) ==> r == Err::<(), Error>(Error::ChannelNotFound { id })
            && final(channels).channels@ == old(channels).channels@,
        old(channels).has(id@) && old(channels).paused(id@) == p ==> r == Err::<(), Error>(
            Error::InvalidStateTransition { id },
        ) && final(channels).channels@ == old(channels).channels@,
        old(channels).has(id@) && old(channels).paused(id@) != p ==> r == Ok::<(), Error>(())
            && final(channels).channels@ == after_set_paused(old(channels).channels@, id@, p),
{
    match find_index(&channels.channels, &id) {
        Some(i) => {
            proof {
                super::state::lemma_entry_index_unique(channels.channels@, i as int);
            }
            if channels.channels[i].paused != p {
                let eid = channels.channels[i].id.clone();
                let etask = channels.channels[i].task;
                channels.channels[i] = ChannelEntry { id: eid, paused: p, task: etask };
                proof {
                    assert forall|a: int, b: int|
                        0 <= a < b < channels.channels@.len() implies channels.channels@[a].id@
                        != channels.channels@[b].id@ by {
                        assert(old(channels).channels@[a].id@ != old(channels).channels@[b].id@);
                    }
                }
                Ok(())
            } else {
                Err(Error::InvalidStateTransition { id })
            }
        },
        None => Err(Error::ChannelNotFound { id }),
    }
}

/// Remove the entry for `id` and request cancellation of its task, exactly
/// as `unregister` does: `stop` is single-shot because the entry is gone
/// when it returns.
pub fn stop(channels: &mut ChannelsInner, id: String) -> (r: Result<CancellableTask, Error>)
    requires
        old(channels).wf(),
    ensures
        final(channels).wf(),
        !old(channels).has(id@) ==> r == Err::<CancellableTask, Error>(
            Error::ChannelNotFound { id },
        ) && final(channels).channels@ == old(channels).channels@,
        old(channels).has(id@) ==> r == Ok::<CancellableTask, Error>(
            spec_cancel(task_of(old(channels).channels@, id@)),
        ) && final(channels).channels@ == after_remove(old(channels).channels@, id@),
{
    unregister(channels, id)
}

/// Report whether `id` has an entry and its pause flag when it does. Total:
/// never an error, for any identifier.
pub fn get_status(channels: &ChannelsInner, id: String) -> (r: Result<ChannelStatus, Error>)
    requires
        channels.wf(),
    ensures
        r matches Ok(st) && st.id == id && st.exists == channels.has(id@) && st.paused == (
        if channels.has(id@) {
            Some(channels.paused(id@))
        } else {
            None::<bool>
        }),
{
    match find_index(&channels.channels, &id) {
        Some(i) => {
            proof {
                super::state::lemma_entry_index_unique(channels.channels@, i as int);
            }
            let p = channels.channels[i].paused;
            Ok(ChannelStatus { id, exists: true, paused: Some(p) })
        },
        None => Ok(ChannelStatus { id, exists: false, paused: None }),
    }
}

/// A snapshot of every entry, in registry order: one record per live
/// channel, each carrying its current pause flag. Total: never an error.
pub fn list_channels(channels: &ChannelsInner) -> (r: Result<Vec<ChannelStatus>, Error>)
    ensures
        r matches Ok(v) && v@.len() == channels.channels@.len() && (forall|i: int|
            0 <= i < v@.len() ==> v@[i].id == channels.channels@[i].id && v@[i].exists && v@[i].paused
                == Some(channels.channels@[i].paused)),
{
    let n = channels.channels.len();
    let mut statuses: Vec<ChannelStatus> = Vec::new();
    let mut j: usize = 0;
    while j < n
        invariant
            n == channels.channels@.len(),
            j <= n,
            statuses@.len() == j,
            forall|i: int|
                0 <= i < j ==> statuses@[i].id == channels.channels@[i].id && statuses@[i].exists
                    && statuses@[i].paused == Some(channels.channels@[i].paused),
        decreases n - j,
    {
        let e = &channels.channels[j];
        statuses.push(ChannelStatus { id: e.id.clone(), exists: true, paused: Some(e.paused) });
        j += 1;
    }
    Ok(statuses)
}

} // verus!
