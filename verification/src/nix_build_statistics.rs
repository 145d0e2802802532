//! Handlers for the stats stream: registration of a reporting stream,
//! absolute counter updates from authorized streams only, and stream
//! end with the last snapshot retained.

use vstd::prelude::*;
use crate::logone::{
    action_views, spec_update_stats, ActionModel, LogError, LogOne, Model, RenderAction,
    StatsSnapshot,
};
use crate::parse::{Event, EventModel};

verus! {

/// The `i`-th numeric payload field, or zero.
pub open spec fn field_or_zero(e: EventModel, i: int) -> u64 {
    if 0 <= i < e.fields_u64.len() {
        e.fields_u64[i]
    } else {
        0
    }
}

/// The counters carried by a stats update event.
pub open spec fn snap_of(e: EventModel) -> StatsSnapshot {
    StatsSnapshot {
        done: field_or_zero(e, 0),
        expected: field_or_zero(e, 1),
        running: field_or_zero(e, 2),
        failed: field_or_zero(e, 3),
    }
}

/// A stats stream ends: it loses its authorization, the snapshot
/// values stay, and the progress line is refreshed if anything else
/// changed it meanwhile.
pub open spec fn spec_status_stop(m: Model, id: u64) -> (Model, Seq<ActionModel>) {
    let m1 = Model { status_ids: m.status_ids.remove(id), ..m };
    spec_update_stats(m1, m1.stats)
}

/// A stats stream announces itself and becomes authorized to update
/// the snapshot.
pub fn handle_status_start(ev: &Event, logone: &mut LogOne) -> (r: Result<(), LogError>)
    requires
        old(logone).wf(),
    ensures
        final(logone).wf(),
        match ev.id {
            None => r == Err::<(), LogError>(LogError::MalformedEvent) && final(logone)@ == old(logone)@,
            Some(id) => r == Ok::<(), LogError>(()) && final(logone)@ == (Model {
                status_ids: old(logone)@.status_ids.insert(id),
                ..old(logone)@
            }),
        },
{
    match ev.id {
        None => Err(LogError::MalformedEvent),
        Some(id) => {
            logone.register_status(id);
            Ok(())
        },
    }
}

/// An absolute counter update. An id that never registered is rejected
/// and the snapshot stays as it was; a well-formed update from an
/// authorized stream overwrites the snapshot and redraws the progress
/// line unless nothing visible changed.
pub fn handle_status_update(ev: &Event, logone: &mut LogOne) -> (r: Result<
    Vec<RenderAction>,
    LogError,
>)
    requires
        old(logone).wf(),
    ensures
        final(logone).wf(),
        match ev.id {
            None => r == Err::<Vec<RenderAction>, LogError>(LogError::MalformedEvent) && final(logone)@ == old(logone)@,
            Some(id) => {
                if !old(logone)@.status_ids.contains(id) {
                    r == Err::<Vec<RenderAction>, LogError>(LogError::UnknownStream) && final(logone)@ == old(logone)@
                } else if !(ev.fields_len matches Some(n) && n == 4) {
                    r == Err::<Vec<RenderAction>, LogError>(LogError::MalformedEvent) && final(logone)@ == old(logone)@
                } else {
                    r matches Ok(out) && final(logone)@ == spec_update_stats(
                        old(logone)@,
                        snap_of(ev@),
                    ).0 && action_views(out@) == spec_update_stats(old(logone)@, snap_of(ev@)).1
                }
            },
        },
{
    let id = match ev.id {
        None => {
            return Err(LogError::MalformedEvent);
        },
        Some(id) => id,
    };
    if !logone.is_status(id) {
        return Err(LogError::UnknownStream);
    }
    match ev.fields_len {
        None => {
            return Err(LogError::MalformedEvent);
        },
        Some(n) => {
            if n != 4 {
                return Err(LogError::MalformedEvent);
            }
        },
    }
    let done = field_u64_or_zero(&ev.fields_u64, 0);
    let expected = field_u64_or_zero(&ev.fields_u64, 1);
    let running = field_u64_or_zero(&ev.fields_u64, 2);
    let failed = field_u64_or_zero(&ev.fields_u64, 3);
    proof {
        assert(StatsSnapshot { done, expected, running, failed } == snap_of(ev@));
    }
    let out = logone.update_stats(done, expected, running, failed);
    Ok(out)
}

/// A stats stream ends; the last-known-good snapshot persists.
pub fn handle_status_stop(ev: &Event, logone: &mut LogOne) -> (r: Result<
    Vec<RenderAction>,
    LogError,
>)
    requires
        old(logone).wf(),
    ensures
        final(logone).wf(),
        match ev.id {
            None => r == Err::<Vec<RenderAction>, LogError>(LogError::MalformedEvent) && final(logone)@ == old(logone)@,
            Some(id) => r matches Ok(out) && final(logone)@ == spec_status_stop(
                old(logone)@,
                id,
            ).0 && action_views(out@) == spec_status_stop(old(logone)@, id).1,
        },
{
    match ev.id {
        None => Err(LogError::MalformedEvent),
        Some(id) => {
            logone.unregister_status(id);
            let s = logone.stats();
            let out = logone.update_stats(s.done, s.expected, s.running, s.failed);
            Ok(out)
        },
    }
}

/// Whether `id` is a currently authorized stats stream.
pub fn is_status_id(id: u64, logone: &LogOne) -> (r: bool)
    ensures
        r == logone@.status_ids.contains(id),
{
    logone.is_status(id)
}

/// The `i`-th element, or zero past the end.
fn field_u64_or_zero(v: &Vec<u64>, i: usize) -> (r: u64)
    ensures
        r == if 0 <= i < v@.len() {
            v@[i as int]
        } else {
            0
        },
{
    if i < v.len() {
        v[i]
    } else {
        0
    }
}

} // verus!
