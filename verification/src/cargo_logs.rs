//! Handlers for compiler-family events: a compile unit starting and a
//! compile unit exiting with embedded rendered diagnostics.

use vstd::prelude::*;
use crate::kv;
use crate::logone::{
    action_views, str_views, ActionModel, LogError, LogLevel, LogOne, LogStatus, Model,
    RenderAction,
};
use crate::parse::{opt_str_or_empty, or_empty, Event, EventModel};
use crate::text;

verus! {

/// The lifecycle state recorded for a compiler exit code.
pub open spec fn spec_exit_status(code: u64) -> LogStatus {
    if code == 0 {
        LogStatus::FinishedWithSuccess
    } else if code == 1 {
        LogStatus::FinishedWithError
    } else {
        LogStatus::Stopped
    }
}

/// One message action per rendered compiler diagnostic.
pub open spec fn rendered_actions(level: u64, msgs: Seq<Seq<char>>) -> Seq<ActionModel> {
    msgs.map_values(|t: Seq<char>| ActionModel::Message { level, text: t, file: None })
}

/// A compile unit starts: fresh diagnostic buffer, one more reference
/// to its crate name on the progress line, and an announcement message.
pub open spec fn spec_cargo_start(m: Model, id: u64, cname: Seq<char>) -> (
    Model,
    Seq<ActionModel>,
) {
    let m1 = Model {
        cargo_buffers: m.cargo_buffers.insert(id, Seq::empty()),
        cargo_states: m.cargo_states.insert(id, LogStatus::Started),
        ..m
    };
    let m2 = Model { targets: kv::spec_target_add(m1.targets, cname), ..m1 };
    (
        m2,
        seq![
            ActionModel::Message { level: 0, text: "   Compiling "@ + cname, file: None },
        ],
    )
}

/// A compile unit exits: its crate name loses one reference, the exit
/// code fixes its final state, its rendered diagnostics join its
/// buffer, and in compiler-only mode they are printed.
pub open spec fn spec_cargo_exit(
    m: Model,
    id: u64,
    cname: Seq<char>,
    code: u64,
    msgs: Seq<Seq<char>>,
) -> (Model, Seq<ActionModel>) {
    let m1 = Model { targets: kv::spec_target_remove(m.targets, cname), ..m };
    let m2 = Model { cargo_states: m1.cargo_states.insert(id, spec_exit_status(code)), ..m1 };
    let m3 = if m2.cargo_buffers.contains_key(id) {
        Model { cargo_buffers: m2.cargo_buffers.insert(id, m2.cargo_buffers[id] + msgs), ..m2 }
    } else {
        m2
    };
    let acts = if m.level == LogLevel::Cargo {
        rendered_actions(code, msgs)
    } else {
        Seq::<ActionModel>::empty()
    };
    (m3, acts)
}

pub fn handle_cargo_log_start(ev: &Event, logone: &mut LogOne) -> (r: Result<
    Vec<RenderAction>,
    LogError,
>)
    requires
        old(logone).wf(),
    ensures
        final(logone).wf(),
        match ev.id {
            None => r == Err::<Vec<RenderAction>, LogError>(LogError::MalformedEvent) && final(logone)@ == old(logone)@,
            Some(id) => r matches Ok(out) && final(logone)@ == spec_cargo_start(
                old(logone)@,
                id,
                or_empty(ev@.crate_name),
            ).0 && action_views(out@) == spec_cargo_start(
                old(logone)@,
                id,
                or_empty(ev@.crate_name),
            ).1,
        },
{
    match ev.id {
        None => Err(LogError::MalformedEvent),
        Some(id) => {
            logone.cargo_start(id);
            let cname = opt_str_or_empty(&ev.crate_name);
            let announce = text::concat2("   Compiling ", cname.as_str());
            logone.target_add(cname);
            let mut out: Vec<RenderAction> = Vec::new();
            out.push(RenderAction::Message { level: 0, text: announce, file: None });
            proof {
                assert(action_views(out@) =~= spec_cargo_start(
                    old(logone)@,
                    id,
                    or_empty(ev@.crate_name),
                ).1);
            }
            Ok(out)
        },
    }
}

pub fn handle_cargo_log_exit(ev: &Event, logone: &mut LogOne) -> (r: Result<
    Vec<RenderAction>,
    LogError,
>)
    requires
        old(logone).wf(),
    ensures
        final(logone).wf(),
        match (ev.id, ev.rustc_exit_code) {
            (Some(id), Some(code)) => r matches Ok(out) && final(logone)@ == spec_cargo_exit(
                old(logone)@,
                id,
                or_empty(ev@.crate_name),
                code,
                ev@.rendered_messages,
            ).0 && action_views(out@) == spec_cargo_exit(
                old(logone)@,
                id,
                or_empty(ev@.crate_name),
                code,
                ev@.rendered_messages,
            ).1,
            _ => r == Err::<Vec<RenderAction>, LogError>(LogError::MalformedEvent)
                && final(logone)@ == old(logone)@,
        },
{
    let id = match ev.id {
        None => {
            return Err(LogError::MalformedEvent);
        },
        Some(id) => id,
    };
    let code = match ev.rustc_exit_code {
        None => {
            return Err(LogError::MalformedEvent);
        },
        Some(c) => c,
    };
    let cname = opt_str_or_empty(&ev.crate_name);
    logone.target_remove(cname);
    let st = if code == 0 {
        LogStatus::FinishedWithSuccess
    } else if code == 1 {
        LogStatus::FinishedWithError
    } else {
        LogStatus::Stopped
    };
    proof {
        assert(st == spec_exit_status(code));
    }
    logone.cargo_set_state(id, st);
    logone.cargo_append_lines(id, &ev.rendered_messages);
    let mut out: Vec<RenderAction> = Vec::new();
    if matches!(logone.level(), LogLevel::Cargo) {
        let n = ev.rendered_messages.len();
        let mut i: usize = 0;
        while i < n
            invariant
                n == ev.rendered_messages@.len(),
                i <= n,
                action_views(out@) =~= rendered_actions(
                    code,
                    str_views(ev.rendered_messages@).subrange(0, i as int),
                ),
            decreases n - i,
        {
            let line = ev.rendered_messages[i].clone();
            let act = RenderAction::Message { level: code, text: line, file: None };
            let ghost actv = act;
            let ghost out0 = out@;
            out.push(act);
            proof {
                let rm = str_views(ev.rendered_messages@);
                let prev = rendered_actions(code, rm.subrange(0, i as int));
                let cur = rendered_actions(code, rm.subrange(0, i + 1));
                assert(out@ == out0.push(actv));
                assert(action_views(out0).len() == out0.len());
                assert(rendered_actions(code, rm.subrange(0, i as int)).len() == i as int);
                assert(out0.len() == i as int);
                assert(out@.len() == i + 1);
                assert(actv@ == ActionModel::Message {
                    level: code,
                    text: rm[i as int],
                    file: None,
                });
                assert forall|j: int| 0 <= j < out@.len() implies action_views(out@)[j]
                    == cur[j] by {
                    assert(rm.subrange(0, i + 1)[j] == rm[j]);
                    if j < i {
                        assert(out@[j] == out0[j]);
                        assert(rm.subrange(0, i as int)[j] == rm[j]);
                        assert(action_views(out0)[j] == prev[j]);
                    } else {
                        assert(out@[j] == actv);
                    }
                }
                assert(action_views(out@) =~= cur);
            }
            i += 1;
        }
        proof {
            assert(str_views(ev.rendered_messages@).subrange(
                0,
                n as int,
            ) =~= str_views(ev.rendered_messages@));
        }
    } else {
        proof {
            assert(action_views(out@) =~= Seq::<ActionModel>::empty());
        }
    }
    Ok(out)
}

} // verus!
