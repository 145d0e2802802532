//! Handlers for builder-family unit-log events: start, output line,
//! phase marker, stop, and free-text messages that may flush a unit's
//! transcript.

use vstd::prelude::*;
use vstd::string::StringExecFns;
use crate::logone::{
    spec_append_line, spec_flush_by_name, spec_log_start, ActionModel, LogError, LogOne,
    LogStatus, Model, MsgModel, NixMessage, RenderAction, action_views, msg_views,
};
use crate::parse::{opt_str_clone, opt_str_or_empty, or_empty, or_zero, Event, EventModel};
use crate::pattern;
use crate::policy;
use crate::text;

verus! {

/// The buffered form of one plain output line.
pub open spec fn line_message(content: Seq<char>) -> MsgModel {
    MsgModel { action: "result"@, message_type: Some(101u64), content, level: None, file: None }
}

/// The buffered form of one phase marker.
pub open spec fn phase_message(content: Seq<char>) -> MsgModel {
    MsgModel { action: "result"@, message_type: Some(104u64), content, level: None, file: None }
}

/// The phase text of a phase event: the first payload field, or a
/// placeholder when the payload is missing or empty.
pub open spec fn spec_phase_content(e: EventModel) -> Seq<char> {
    if e.fields_len matches Some(n) && n > 0 {
        "Phase: "@ + or_empty(e.field0)
    } else {
        "Phase: unknown"@
    }
}

/// The display name under which a captured store-path token was
/// registered at unit start.
pub open spec fn drv_display_name(t: Seq<char>) -> Seq<char> {
    "building '/nix/store/"@ + t + ".drv'"@
}

/// What a message event does once the policy admitted it: flush the
/// transcript of the unit the text names, if any, then print the
/// message itself when its severity falls in the printable range.
pub open spec fn spec_handle_msg(m: Model, e: EventModel) -> (Model, Seq<ActionModel>) {
    let lv = or_zero(e.level);
    let ms = or_empty(e.msg);
    let flushed = match pattern::drv_token_of(ms) {
        None => (m, Seq::<ActionModel>::empty()),
        Some(t) => spec_flush_by_name(m, drv_display_name(t)),
    };
    if policy::spec_message_printed(lv) {
        (
            flushed.0,
            flushed.1.push(ActionModel::Message { level: lv, text: ms, file: e.file }),
        )
    } else {
        flushed
    }
}

/// A unit starts: a fresh buffer and name registration under its id.
pub fn handle_log_start(ev: &Event, logone: &mut LogOne) -> (r: Result<(), LogError>)
    requires
        old(logone).wf(),
    ensures
        final(logone).wf(),
        match ev.id {
            None => r == Err::<(), LogError>(LogError::MalformedEvent) && final(logone)@ == old(logone)@,
            Some(id) => r == Ok::<(), LogError>(()) && final(logone)@ == spec_log_start(
                old(logone)@,
                id,
                or_empty(ev@.text),
            ),
        },
{
    match ev.id {
        None => Err(LogError::MalformedEvent),
        Some(id) => {
            let text = opt_str_or_empty(&ev.text);
            logone.log_start(id, text);
            Ok(())
        },
    }
}

/// One output line of a unit joins its buffer, if the buffer exists.
pub fn handle_log_line(ev: &Event, logone: &mut LogOne) -> (r: Result<(), LogError>)
    requires
        old(logone).wf(),
    ensures
        final(logone).wf(),
        match ev.id {
            None => r == Err::<(), LogError>(LogError::MalformedEvent) && final(logone)@ == old(logone)@,
            Some(id) => r == Ok::<(), LogError>(()) && final(logone)@ == spec_append_line(
                old(logone)@,
                id,
                line_message(or_empty(ev@.field0)),
            ),
        },
{
    match ev.id {
        None => Err(LogError::MalformedEvent),
        Some(id) => {
            let content = opt_str_or_empty(&ev.field0);
            let message = NixMessage {
                action: String::from_str("result"),
                message_type: Some(101),
                content,
                level: None,
                file: None,
            };
            proof {
                assert(message@ == line_message(or_empty(ev@.field0)));
            }
            logone.append_line(id, message);
            Ok(())
        },
    }
}

/// A phase marker of a unit joins its buffer, if the buffer exists.
pub fn handle_log_phase(ev: &Event, logone: &mut LogOne) -> (r: Result<(), LogError>)
    requires
        old(logone).wf(),
    ensures
        final(logone).wf(),
        match ev.id {
            None => r == Err::<(), LogError>(LogError::MalformedEvent) && final(logone)@ == old(logone)@,
            Some(id) => r == Ok::<(), LogError>(()) && final(logone)@ == spec_append_line(
                old(logone)@,
                id,
                phase_message(spec_phase_content(ev@)),
            ),
        },
{
    match ev.id {
        None => Err(LogError::MalformedEvent),
        Some(id) => {
            let nonempty = match ev.fields_len {
                Some(n) => n > 0,
                None => false,
            };
            let content = if nonempty {
                let f0 = opt_str_or_empty(&ev.field0);
                text::concat2("Phase: ", f0.as_str())
            } else {
                String::from_str("Phase: unknown")
            };
            proof {
                assert(content@ == spec_phase_content(ev@));
            }
            let message = NixMessage {
                action: String::from_str("result"),
                message_type: Some(104),
                content,
                level: None,
                file: None,
            };
            proof {
                assert(message@ == phase_message(spec_phase_content(ev@)));
            }
            logone.append_line(id, message);
            Ok(())
        },
    }
}

/// A unit stops: only the lifecycle state changes here. Whether the
/// transcript is ever shown is a separate, policy-gated decision taken
/// by the router.
pub fn handle_log_stop(ev: &Event, logone: &mut LogOne) -> (r: Result<(), LogError>)
    requires
        old(logone).wf(),
    ensures
        final(logone).wf(),
        match ev.id {
            None => r == Err::<(), LogError>(LogError::MalformedEvent) && final(logone)@ == old(logone)@,
            Some(id) => r == Ok::<(), LogError>(()) && final(logone)@ == (Model {
                states: old(logone)@.states.insert(id, LogStatus::Stopped),
                ..old(logone)@
            }),
        },
{
    match ev.id {
        None => Err(LogError::MalformedEvent),
        Some(id) => {
            logone.set_state(id, LogStatus::Stopped);
            Ok(())
        },
    }
}

/// A free-text message: flushes the transcript of the unit it names,
/// if any, and prints the message itself when its severity is in the
/// printable range.
pub fn handle_msg(ev: &Event, logone: &mut LogOne) -> (r: Result<Vec<RenderAction>, LogError>)
    requires
        old(logone).wf(),
    ensures
        final(logone).wf(),
        r matches Ok(out) && final(logone)@ == spec_handle_msg(old(logone)@, ev@).0
            && action_views(out@) == spec_handle_msg(old(logone)@, ev@).1,
{
    let level = match ev.level {
        Some(l) => l,
        None => 0,
    };
    let msg = opt_str_or_empty(&ev.msg);
    let mut out: Vec<RenderAction> = Vec::new();
    let tok = pattern::find_drv_token(msg.as_str());
    match tok {
        Some(t) => {
            let drv = text::concat3("building '/nix/store/", t.as_str(), ".drv'");
            let mut acts = logone.print_log_buffer_by_drv(drv);
            let ghost acts0 = acts@;
            out.append(&mut acts);
            proof {
                assert(action_views(out@) =~= action_views(acts0));
            }
        },
        None => {
            proof {
                assert(action_views(out@) =~= Seq::<ActionModel>::empty());
            }
        },
    }
    let ghost flushed_views = action_views(out@);
    if policy::message_printed(level) {
        let file = opt_str_clone(&ev.file);
        out.push(RenderAction::Message { level, text: msg, file });
        proof {
            assert(action_views(out@) =~= flushed_views.push(
                ActionModel::Message { level, text: or_empty(ev@.msg), file: ev@.file },
            ));
        }
    }
    Ok(out)
}

/// Whether a transcript buffer currently exists for `id`.
pub fn has_log_buffer(id: u64, logone: &LogOne) -> (r: bool)
    ensures
        r == logone@.buffers.contains_key(id),
{
    logone.has_buffer(id)
}

/// A copy of the buffered lines of `id`, if any.
pub fn query_logs_by_id(id: u64, logone: &LogOne) -> (r: Option<Vec<NixMessage>>)
    requires
        logone.wf(),
    ensures
        match r {
            Some(v) => logone@.buffers.contains_key(id) && msg_views(v@) == logone@.buffers[id],
            None => !logone@.buffers.contains_key(id),
        },
{
    logone.buffer_clone(id)
}

} // verus!
