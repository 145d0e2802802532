//! Laws of the router, stated over the abstract model and the router's
//! own transition function and proved once for all states and inputs.

use vstd::prelude::*;
use crate::kv;
use crate::logone::{
    spec_flush_one, spec_log_start, ActionModel, LogError, LogLevel, Model,
};
use crate::logs;
use crate::parse::{
    or_empty, or_zero, spec_process_event, EventModel,
};
use crate::pattern;
use crate::policy;

verus! {

/// A builder-family unit start event carrying `id`.
pub open spec fn is_unit_start(e: EventModel, id: u64) -> bool {
    &&& e.action == "start"@
    &&& e.sub_type == Some(105u64)
    &&& e.id == Some(id)
}

/// A builder-family output-line event carrying `id`.
pub open spec fn is_unit_line(e: EventModel, id: u64) -> bool {
    &&& e.action == "result"@
    &&& e.sub_type == Some(101u64)
    &&& e.id == Some(id)
}

/// A stop event carrying `id`.
pub open spec fn is_stop_event(e: EventModel, id: u64) -> bool {
    &&& e.action == "stop"@
    &&& e.id == Some(id)
}

/// The state after routing a whole sequence of events, discarding
/// output and errors.
pub open spec fn route_all(m: Model, es: Seq<EventModel>) -> Model
    decreases es.len(),
{
    if es.len() == 0 {
        m
    } else {
        route_all(spec_process_event(m, es[0]).0, es.drop_first())
    }
}

/// The buffered lines that a run of output-line events appends.
pub open spec fn lines_of(es: Seq<EventModel>) -> Seq<crate::logone::MsgModel> {
    es.map_values(|e: EventModel| logs::line_message(or_empty(e.field0)))
}


/// The five action literals are pairwise distinct once revealed.
proof fn proof_reveal_action_literals()
    ensures
        "start"@ != "result"@,
        "start"@ != "stop"@,
        "start"@ != "msg"@,
        "start"@ != "cargo"@,
        "result"@ != "stop"@,
        "result"@ != "msg"@,
        "result"@ != "cargo"@,
        "stop"@ != "msg"@,
        "stop"@ != "cargo"@,
        "msg"@ != "cargo"@,
{
    reveal_strlit("start");
    reveal_strlit("result");
    reveal_strlit("stop");
    reveal_strlit("msg");
    reveal_strlit("cargo");
    assert("start"@.len() == 5);
    assert("result"@.len() == 6);
    assert("stop"@.len() == 4);
    assert("msg"@.len() == 3);
    assert("cargo"@.len() == 5);
    assert("start"@[0] == 's' && "cargo"@[0] == 'c');
}

/// Routing a run of output-line events for a buffered unit appends
/// exactly their contents, in order, and changes nothing else.
pub proof fn lemma_route_lines(m: Model, id: u64, es: Seq<EventModel>)
    requires
        m.level != LogLevel::Cargo,
        m.buffers.contains_key(id),
        forall|i: int| 0 <= i < es.len() ==> is_unit_line(#[trigger] es[i], id),
    ensures
        route_all(m, es) == (Model {
            buffers: m.buffers.insert(id, m.buffers[id] + lines_of(es)),
            ..m
        }),
        route_all(m, es).buffers.contains_key(id),
    decreases es.len(),
{
    proof_reveal_action_literals();
    if es.len() == 0 {
        assert(m.buffers[id] + lines_of(es) =~= m.buffers[id]);
        assert(m.buffers.insert(id, m.buffers[id]) =~~= m.buffers);
        assert(route_all(m, es) =~~= (Model {
            buffers: m.buffers.insert(id, m.buffers[id] + lines_of(es)),
            ..m
        }));
    } else {
        assert(is_unit_line(es[0], id));
        let l0 = logs::line_message(or_empty(es[0].field0));
        let m1 = spec_process_event(m, es[0]).0;
        assert(m1 == (Model { buffers: m.buffers.insert(id, m.buffers[id].push(l0)), ..m }));
        assert(forall|i: int| 0 <= i < es.drop_first().len() ==> is_unit_line(
            #[trigger] es.drop_first()[i],
            id,
        ));
        lemma_route_lines(m1, id, es.drop_first());
        assert(m1.buffers[id] + lines_of(es.drop_first()) =~= m.buffers[id] + lines_of(es));
        assert(m1.buffers.insert(id, m1.buffers[id] + lines_of(es.drop_first()))
            =~~= m.buffers.insert(id, m.buffers[id] + lines_of(es)));
        assert(route_all(m, es) =~~= (Model {
            buffers: m.buffers.insert(id, m.buffers[id] + lines_of(es)),
            ..m
        }));
    }
}

/// In verbose mode, for any well-formed start, run of lines and stop
/// sharing one id, the transcript flushed at stop is exactly the
/// ordered sequence of buffered lines under the unit's name; the
/// buffer is gone afterwards, and a second stop for the same id does
/// nothing at all.
pub proof fn law_verbose_transcript(
    m0: Model,
    id: u64,
    e_start: EventModel,
    line_events: Seq<EventModel>,
    e_stop: EventModel,
)
    requires
        m0.level == LogLevel::Verbose,
        is_unit_start(e_start, id),
        forall|i: int| 0 <= i < line_events.len() ==> is_unit_line(
            #[trigger] line_events[i],
            id,
        ),
        is_stop_event(e_stop, id),
        !m0.status_ids.contains(id),
        forall|i: int| 0 <= i < m0.names.len() ==> (#[trigger] m0.names[i]).1 != id,
    ensures
        ({
            let m1 = spec_process_event(m0, e_start).0;
            let m2 = route_all(m1, line_events);
            let stop = spec_process_event(m2, e_stop);
            &&& stop.1 == seq![
                ActionModel::Transcript {
                    name: or_empty(e_start.text),
                    lines: lines_of(line_events),
                },
            ]
            &&& !stop.0.buffers.contains_key(id)
            &&& spec_process_event(stop.0, e_stop).0 == stop.0
            &&& spec_process_event(stop.0, e_stop).1 == Seq::<ActionModel>::empty()
        }),
{
    proof_reveal_action_literals();
    let text = or_empty(e_start.text);
    let m1 = spec_process_event(m0, e_start).0;
    assert(m1 == spec_log_start(m0, id, text));
    lemma_route_lines(m1, id, line_events);
    let m2 = route_all(m1, line_events);
    assert(m2.buffers[id] =~= lines_of(line_events));

    // The unit's registered name is the first (and only) one mapped to
    // its id.
    let names1 = m1.names;
    assert(names1 == crate::logone::name_seq_insert(m0.names, text, id));
    if kv::has_name(m0.names, text) {
        let i = kv::name_at(m0.names, text);
        assert(0 <= i < m0.names.len() && m0.names[i].0 == text);
        assert(names1[i] == (text, id));
        assert(forall|j: int| 0 <= j < i ==> (#[trigger] names1[j]).1 != id);
        kv::lemma_first_name_at(names1, id, i);
    } else {
        let i = m0.names.len() as int;
        assert(names1[i] == (text, id));
        assert(forall|j: int| 0 <= j < i ==> (#[trigger] names1[j]).1 != id);
        kv::lemma_first_name_at(names1, id, i);
    }
    assert(kv::first_name_spec(m2.names, id) == Some(text));

    let stop = spec_process_event(m2, e_stop);
    assert(!m2.status_ids.contains(id));
    assert(m2.buffers.contains_key(id));
    assert(stop.1 =~= seq![
        ActionModel::Transcript { name: text, lines: lines_of(line_events) },
    ]);
    assert(!stop.0.buffers.contains_key(id));

    // Second stop: the id has neither a stats registration nor a
    // buffer left, so the event is silently dropped.
    assert(!stop.0.status_ids.contains(id));
    assert(spec_process_event(stop.0, e_stop).0 == stop.0);
}

/// In errors-only mode, a stopped unit that never failed (neither by an
/// attributed message nor by its own stop payload) produces no output
/// at all, and its buffer is discarded unread: no later event can ever
/// print it.
pub proof fn law_errors_silent_stop(m: Model, e: EventModel, id: u64)
    requires
        m.level == LogLevel::Errors,
        is_stop_event(e, id),
        !m.status_ids.contains(id),
        m.buffers.contains_key(id),
        !m.failed.contains(id),
        !crate::parse::spec_stop_failure(e),
    ensures
        spec_process_event(m, e).1 == Seq::<ActionModel>::empty(),
        !spec_process_event(m, e).0.buffers.contains_key(id),
        spec_process_event(m, e).0.buffers == m.buffers.remove(id),
{
    proof_reveal_action_literals();
}

/// In errors-only mode, a stopped unit marked failed — whether by an
/// earlier attributed message or by its own stop payload — produces
/// its full buffered transcript at flush.
pub proof fn law_errors_failed_flush(m: Model, e: EventModel, id: u64, name: Seq<char>)
    requires
        m.level == LogLevel::Errors,
        is_stop_event(e, id),
        !m.status_ids.contains(id),
        m.buffers.contains_key(id),
        m.failed.contains(id) || crate::parse::spec_stop_failure(e),
        kv::first_name_spec(m.names, id) == Some(name),
    ensures
        spec_process_event(m, e).1 == seq![
            ActionModel::Transcript { name, lines: m.buffers[id] },
        ],
        !spec_process_event(m, e).0.buffers.contains_key(id),
{
    proof_reveal_action_literals();
    assert(spec_process_event(m, e).1 =~= seq![
        ActionModel::Transcript { name, lines: m.buffers[id] },
    ]);
}

/// A stats update from an id that never registered is rejected and
/// leaves the whole state, the snapshot included, unchanged.
pub proof fn law_unregistered_update_rejected(m: Model, e: EventModel, id: u64)
    requires
        e.action == "result"@,
        e.sub_type == Some(105u64),
        e.id == Some(id),
        !m.status_ids.contains(id),
    ensures
        spec_process_event(m, e).2 == Some(LogError::UnknownStream),
        spec_process_event(m, e).0 == m,
        spec_process_event(m, e).1 == Seq::<ActionModel>::empty(),
{
}

/// Delivering the same stats update twice renders at most once: the
/// second delivery draws nothing.
pub proof fn law_duplicate_update_suppressed(m: Model, e: EventModel, id: u64)
    requires
        e.action == "result"@,
        e.sub_type == Some(105u64),
        e.id == Some(id),
        m.status_ids.contains(id),
        e.fields_len == Some(4usize),
    ensures
        spec_process_event(spec_process_event(m, e).0, e).1 == Seq::<ActionModel>::empty(),
{
}

/// Given message text whose unit-identifying token resolves to the
/// unit registered under `id`, exactly that unit is marked failed:
/// the failed set grows by `id` alone, however many other units are
/// active.
pub proof fn law_attribution_exact(m: Model, e: EventModel, id: u64, t: Seq<char>)
    requires
        m.level == LogLevel::Errors,
        e.action == "msg"@,
        policy::spec_is_error_text(or_zero(e.level), or_empty(e.msg)),
        pattern::drv_token_of(or_empty(e.msg)) == Some(t),
        kv::has_name(m.names, logs::drv_display_name(t)),
        kv::names_to_map(m.names)[logs::drv_display_name(t)] == id,
    ensures
        spec_process_event(m, e).0.failed == m.failed.insert(id),
{
    proof_reveal_action_literals();
}


/// A message event can flush only the unit its token names: every
/// other unit's buffer survives unchanged. Together with the stop law
/// this gives: a unit that never fails and is never named produces no
/// transcript in errors-only mode.
pub proof fn law_msg_preserves_other_buffers(m: Model, e: EventModel, id: u64)
    requires
        e.action == "msg"@,
        m.buffers.contains_key(id),
        match pattern::drv_token_of(or_empty(e.msg)) {
            Some(t) => !kv::has_name(m.names, logs::drv_display_name(t)) || kv::names_to_map(
                m.names,
            )[logs::drv_display_name(t)] != id,
            None => true,
        },
    ensures
        spec_process_event(m, e).0.buffers.contains_key(id),
        spec_process_event(m, e).0.buffers[id] == m.buffers[id],
{
    proof_reveal_action_literals();
}

/// The target list on every emitted progress line is the sorted,
/// deduplicated active-target list: ascending names, no repeats,
/// positive reference counts.
pub proof fn law_progress_targets_sorted(m: Model, s: crate::logone::StatsSnapshot)
    requires
        crate::logone::model_wf(m),
        crate::logone::spec_update_stats(m, s).1.len() > 0,
    ensures
        crate::logone::spec_update_stats(m, s).1[0] == (ActionModel::Progress {
            done: s.done,
            expected: s.expected,
            running: s.running,
            failed: s.failed,
            targets: m.targets,
        }),
        kv::sorted_names(m.targets),
        kv::distinct_names(m.targets),
        forall|i: int| 0 <= i < m.targets.len() ==> m.targets[i].1 >= 1,
{
}

/// Flushing an id that holds no buffer returns no transcript, without
/// error, and changes nothing: a flush happens at most once per
/// lifecycle.
pub proof fn law_flush_idempotent(m: Model, id: u64)
    requires
        !m.buffers.contains_key(id),
    ensures
        spec_flush_one(m, id).0 == m,
        spec_flush_one(m, id).1 == Seq::<ActionModel>::empty(),
{
}

} // verus!
