//! The event decoder and router. One input line becomes a typed
//! `Event` (or is inert, or malformed); the router dispatches each
//! event on its (action, sub-type) pair, applying the verbosity policy
//! at every decision point.

use vstd::prelude::*;
use vstd::string::StringExecFns;
use crate::cargo_logs;
use crate::json;
use crate::kv;
use crate::logone::{
    action_views, spec_append_line, spec_drop_buffer, spec_flush_one, spec_log_start,
    spec_update_stats, ActionModel, LogError, LogLevel, LogOne, LogStatus, Model, RenderAction,
};
use crate::logs;
use crate::nix_build_statistics;
use crate::pattern;
use crate::policy;
use crate::text;

verus! {

/// One decoded wire event: the discriminating action and sub-type, the
/// producer's stream id, and every payload field the handlers read,
/// already as plain values.
#[derive(Debug, Clone, PartialEq)]
pub struct Event {
    pub action: String,
    pub sub_type: Option<u64>,
    pub id: Option<u64>,
    pub text: Option<String>,
    pub msg: Option<String>,
    pub level: Option<u64>,
    pub file: Option<String>,
    pub crate_name: Option<String>,
    pub exit_code: Option<i64>,
    pub result_code: Option<i64>,
    pub status_text: Option<String>,
    pub rustc_exit_code: Option<u64>,
    pub rendered_messages: Vec<String>,
    pub fields_len: Option<usize>,
    pub field0: Option<String>,
    pub fields_u64: Vec<u64>,
}

/// The mathematical value of a decoded event.
#[verifier::ext_equal]
pub struct EventModel {
    pub action: Seq<char>,
    pub sub_type: Option<u64>,
    pub id: Option<u64>,
    pub text: Option<Seq<char>>,
    pub msg: Option<Seq<char>>,
    pub level: Option<u64>,
    pub file: Option<Seq<char>>,
    pub crate_name: Option<Seq<char>>,
    pub exit_code: Option<i64>,
    pub result_code: Option<i64>,
    pub status_text: Option<Seq<char>>,
    pub rustc_exit_code: Option<u64>,
    pub rendered_messages: Seq<Seq<char>>,
    pub fields_len: Option<usize>,
    pub field0: Option<Seq<char>>,
    pub fields_u64: Seq<u64>,
}

/// The view of an optional owned string.
pub open spec fn opt_view(o: Option<String>) -> Option<Seq<char>> {
    match o {
        Some(s) => Some(s@),
        None => None,
    }
}

impl View for Event {
    type V = EventModel;

    open spec fn view(&self) -> EventModel {
        EventModel {
            action: self.action@,
            sub_type: self.sub_type,
            id: self.id,
            text: opt_view(self.text),
            msg: opt_view(self.msg),
            level: self.level,
            file: opt_view(self.file),
            crate_name: opt_view(self.crate_name),
            exit_code: self.exit_code,
            result_code: self.result_code,
            status_text: opt_view(self.status_text),
            rustc_exit_code: self.rustc_exit_code,
            rendered_messages: crate::logone::str_views(self.rendered_messages@),
            fields_len: self.fields_len,
            field0: opt_view(self.field0),
            fields_u64: self.fields_u64@,
        }
    }
}

/// An optional string's characters, or nothing.
pub open spec fn or_empty(o: Option<Seq<char>>) -> Seq<char> {
    match o {
        Some(s) => s,
        None => Seq::empty(),
    }
}

/// An optional number, or zero.
pub open spec fn or_zero(o: Option<u64>) -> u64 {
    match o {
        Some(v) => v,
        None => 0,
    }
}

/// A copy of an optional string's contents.
pub fn opt_str_clone(o: &Option<String>) -> (r: Option<String>)
    ensures
        opt_view(r) == opt_view(*o),
{
    match o {
        Some(s) => Some(s.clone()),
        None => None,
    }
}

/// The contents of an optional string, or the empty string.
pub fn opt_str_or_empty(o: &Option<String>) -> (r: String)
    ensures
        r@ == or_empty(opt_view(*o)),
{
    match o {
        Some(s) => s.clone(),
        None => String::new(),
    }
}

/// Whether a unit's stop event itself signals failure: a nonzero exit
/// or result code, a status text naming failure, or failure keywords in
/// its message.
pub open spec fn spec_stop_failure(e: EventModel) -> bool {
    ||| (e.exit_code matches Some(c) && c != 0)
    ||| (e.result_code matches Some(c) && c != 0)
    ||| (e.status_text matches Some(st) && (text::seq_contains(st, "fail"@) || text::seq_contains(
        st,
        "error"@,
    )))
    ||| (e.msg matches Some(ms) && (text::seq_contains(ms, "error"@) || text::seq_contains(
        ms,
        "failed"@,
    ) || text::seq_contains(ms, "Error"@) || text::seq_contains(ms, "Failed"@)
        || text::seq_contains(ms, "FAILED"@)))
}

/// Inspects a stop event's payload for failure signals.
pub fn check_stop_for_failure(ev: &Event) -> (r: bool)
    ensures
        r == spec_stop_failure(ev@),
{
    if let Some(c) = ev.exit_code {
        if c != 0 {
            return true;
        }
    }
    if let Some(c) = ev.result_code {
        if c != 0 {
            return true;
        }
    }
    if let Some(st) = &ev.status_text {
        if text::text_contains(st.as_str(), "fail") || text::text_contains(st.as_str(), "error") {
            return true;
        }
    }
    if let Some(ms) = &ev.msg {
        if text::text_contains(ms.as_str(), "error") || text::text_contains(ms.as_str(), "failed")
            || text::text_contains(ms.as_str(), "Error") || text::text_contains(
            ms.as_str(),
            "Failed",
        ) || text::text_contains(ms.as_str(), "FAILED") {
            return true;
        }
    }
    false
}

/// The numeric payload fields of one object text, each read as an
/// unsigned number or defaulted to zero, as many as the field list
/// holds.
pub open spec fn spec_fields_u64_of(s: Seq<char>) -> Seq<u64> {
    match json::fields_len_of(s) {
        Some(n) => Seq::new(n as nat, |i: int| or_zero(json::field_u64_of(s, i as usize))),
        None => Seq::empty(),
    }
}

/// The rendered texts of the first `n` embedded compiler diagnostics
/// of one object text, in order, skipping entries without a rendered
/// form.
pub open spec fn spec_rendered_upto(s: Seq<char>, n: nat) -> Seq<Seq<char>>
    decreases n,
{
    if n == 0 {
        Seq::empty()
    } else {
        let prev = spec_rendered_upto(s, (n - 1) as nat);
        match json::rendered_item_of(s, (n - 1) as usize) {
            Some(t) => prev.push(t),
            None => prev,
        }
    }
}

/// All rendered compiler diagnostics of one object text.
pub open spec fn spec_rendered_of(s: Seq<char>) -> Seq<Seq<char>> {
    match json::rendered_len_of(s) {
        Some(n) => spec_rendered_upto(s, n as nat),
        None => Seq::empty(),
    }
}

/// The event decoded from one cleaned object text, under the given
/// action and sub-type: every payload field the handlers read, as the
/// trusted accessors name them.
pub open spec fn spec_event_of(s: Seq<char>, action: Seq<char>, sub: Option<u64>) -> EventModel {
    EventModel {
        action,
        sub_type: sub,
        id: json::u64_field_of(s, "id"@),
        text: json::str_field_of(s, "text"@),
        msg: json::str_field_of(s, "msg"@),
        level: json::u64_field_of(s, "level"@),
        file: json::str_field_of(s, "file"@),
        crate_name: json::str_field_of(s, "crate_name"@),
        exit_code: json::i64_field_of(s, "exitCode"@),
        result_code: json::i64_field_of(s, "result"@),
        status_text: json::str_field_of(s, "status"@),
        rustc_exit_code: json::u64_field_of(s, "rustc_exit_code"@),
        rendered_messages: spec_rendered_of(s),
        fields_len: json::fields_len_of(s),
        field0: json::field_str_of(s, 0),
        fields_u64: spec_fields_u64_of(s),
    }
}

/// Reads every payload field the handlers may need out of one cleaned
/// object text. Which fields are present is up to the producer; the
/// router decides what is mandatory.
fn build_event(s: &str, action: String, sub_type: Option<u64>) -> (ev: Event)
    ensures
        ev@ == spec_event_of(s@, action@, sub_type),
{
    let ghost av = action@;
    let fields_len = json::text_fields_len(s);
    let mut fields_u64: Vec<u64> = Vec::new();
    match fields_len {
        Some(n) => {
            let mut i: usize = 0;
            while i < n
                invariant
                    i <= n,
                    json::fields_len_of(s@) == Some(n),
                    fields_u64@ == Seq::new(
                        i as nat,
                        |j: int| or_zero(json::field_u64_of(s@, j as usize)),
                    ),
                decreases n - i,
            {
                let x = match json::text_field_u64(s, i) {
                    Some(x) => x,
                    None => 0,
                };
                fields_u64.push(x);
                proof {
                    assert(fields_u64@ =~= Seq::new(
                        (i + 1) as nat,
                        |j: int| or_zero(json::field_u64_of(s@, j as usize)),
                    ));
                }
                i += 1;
            }
            proof {
                assert(fields_u64@ =~= spec_fields_u64_of(s@));
            }
        },
        None => {
            proof {
                assert(fields_u64@ =~= spec_fields_u64_of(s@));
            }
        },
    }
    let mut rendered_messages: Vec<String> = Vec::new();
    match json::text_msgs_len(s) {
        Some(n) => {
            let mut i: usize = 0;
            while i < n
                invariant
                    i <= n,
                    json::rendered_len_of(s@) == Some(n),
                    crate::logone::str_views(rendered_messages@) == spec_rendered_upto(
                        s@,
                        i as nat,
                    ),
                decreases n - i,
            {
                match json::text_msg_rendered(s, i) {
                    Some(t) => {
                        rendered_messages.push(t);
                    },
                    None => {},
                }
                proof {
                    assert(crate::logone::str_views(rendered_messages@) =~= spec_rendered_upto(
                        s@,
                        (i + 1) as nat,
                    ));
                }
                i += 1;
            }
            proof {
                assert(crate::logone::str_views(rendered_messages@) =~= spec_rendered_of(s@));
            }
        },
        None => {
            proof {
                assert(crate::logone::str_views(rendered_messages@) =~= spec_rendered_of(s@));
            }
        },
    }
    let ev = Event {
        action,
        sub_type,
        id: json::text_get_u64(s, "id"),
        text: json::text_get_str(s, "text"),
        msg: json::text_get_str(s, "msg"),
        level: json::text_get_u64(s, "level"),
        file: json::text_get_str(s, "file"),
        crate_name: json::text_get_str(s, "crate_name"),
        exit_code: json::text_get_i64(s, "exitCode"),
        result_code: json::text_get_i64(s, "result"),
        status_text: json::text_get_str(s, "status"),
        rustc_exit_code: json::text_get_u64(s, "rustc_exit_code"),
        rendered_messages,
        fields_len,
        field0: json::text_field_str(s, 0),
        fields_u64,
    };
    proof {
        assert(ev@ =~~= spec_event_of(s@, av, sub_type));
    }
    ev
}

/// Failure attribution for one diagnostic text: if it names a known
/// unit, exactly that unit is marked failed; an unresolved text marks
/// nothing.
pub open spec fn spec_attribute(m: Model, msg: Seq<char>) -> Model {
    match pattern::drv_token_of(msg) {
        None => m,
        Some(t) => {
            let nm = logs::drv_display_name(t);
            if kv::has_name(m.names, nm) {
                Model { failed: m.failed.insert(kv::names_to_map(m.names)[nm]), ..m }
            } else {
                m
            }
        },
    }
}

/// A unit-log stop: the state moves to `Stopped`; in errors-only mode
/// the stop payload itself may mark the unit failed; the policy then
/// decides whether the transcript is flushed or discarded unread —
/// either way the buffer is consumed; afterwards the failure flag is
/// dropped except in verbose mode.
pub open spec fn spec_unit_stop(m: Model, e: EventModel, id: u64) -> (Model, Seq<ActionModel>) {
    let m1 = Model { states: m.states.insert(id, LogStatus::Stopped), ..m };
    let m2 = if m.level == LogLevel::Errors && spec_stop_failure(e) {
        Model { failed: m1.failed.insert(id), ..m1 }
    } else {
        m1
    };
    let fl = if policy::spec_flush_on_stop(m.level, m2.failed.contains(id)) {
        spec_flush_one(m2, id)
    } else {
        (spec_drop_buffer(m2, id), Seq::<ActionModel>::empty())
    };
    let m4 = match m.level {
        LogLevel::Errors | LogLevel::Cargo => Model { failed: fl.0.failed.remove(id), ..fl.0 },
        LogLevel::Verbose => fl.0,
    };
    (m4, fl.1)
}

/// The router's full transition: for each (action, sub-type) pair, the
/// new state, the render actions, and the error if the event was
/// rejected. A rejected event changes nothing; an unrecognized pair is
/// silently dropped.
pub open spec fn spec_process_event(m: Model, e: EventModel) -> (
    Model,
    Seq<ActionModel>,
    Option<LogError>,
) {
    let none = Option::<LogError>::None;
    let skip = (m, Seq::<ActionModel>::empty(), none);
    let malformed = (m, Seq::<ActionModel>::empty(), Some(LogError::MalformedEvent));
    if e.action == "start"@ && e.sub_type == Some(104u64) {
        match e.id {
            None => malformed,
            Some(id) => (
                Model { status_ids: m.status_ids.insert(id), ..m },
                Seq::<ActionModel>::empty(),
                none,
            ),
        }
    } else if e.action == "result"@ && e.sub_type == Some(105u64) {
        match e.id {
            None => malformed,
            Some(id) => {
                if !m.status_ids.contains(id) {
                    (m, Seq::<ActionModel>::empty(), Some(LogError::UnknownStream))
                } else if !(e.fields_len matches Some(n) && n == 4) {
                    malformed
                } else {
                    let r = spec_update_stats(m, nix_build_statistics::snap_of(e));
                    (r.0, r.1, none)
                }
            },
        }
    } else if e.action == "stop"@ {
        match e.id {
            None => skip,
            Some(id) => {
                if m.status_ids.contains(id) {
                    let r = nix_build_statistics::spec_status_stop(m, id);
                    (r.0, r.1, none)
                } else if m.buffers.contains_key(id) {
                    let r = spec_unit_stop(m, e, id);
                    (r.0, r.1, none)
                } else {
                    skip
                }
            },
        }
    } else if e.action == "start"@ && e.sub_type == Some(105u64) {
        if policy::spec_nix_units_visible(m.level) {
            match e.id {
                None => malformed,
                Some(id) => (
                    spec_log_start(m, id, or_empty(e.text)),
                    Seq::<ActionModel>::empty(),
                    none,
                ),
            }
        } else {
            skip
        }
    } else if e.action == "result"@ && e.sub_type == Some(101u64) {
        if policy::spec_nix_units_visible(m.level) {
            match e.id {
                None => malformed,
                Some(id) => (
                    spec_append_line(m, id, logs::line_message(or_empty(e.field0))),
                    Seq::<ActionModel>::empty(),
                    none,
                ),
            }
        } else {
            skip
        }
    } else if e.action == "result"@ && e.sub_type == Some(104u64) {
        if policy::spec_nix_units_visible(m.level) {
            match e.id {
                None => malformed,
                Some(id) => (
                    spec_append_line(m, id, logs::phase_message(logs::spec_phase_content(e))),
                    Seq::<ActionModel>::empty(),
                    none,
                ),
            }
        } else {
            skip
        }
    } else if e.action == "msg"@ {
        if policy::spec_msg_handled(m.level, or_zero(e.level), or_empty(e.msg)) {
            let m1 = if m.level == LogLevel::Errors {
                spec_attribute(m, or_empty(e.msg))
            } else {
                m
            };
            let r = logs::spec_handle_msg(m1, e);
            (r.0, r.1, none)
        } else {
            skip
        }
    } else if e.action == "cargo"@ && e.sub_type == Some(0u64) {
        if policy::spec_cargo_visible(m.level) {
            match e.id {
                None => malformed,
                Some(id) => {
                    let r = cargo_logs::spec_cargo_start(m, id, or_empty(e.crate_name));
                    (r.0, r.1, none)
                },
            }
        } else {
            skip
        }
    } else if e.action == "cargo"@ && e.sub_type == Some(2u64) {
        if policy::spec_cargo_visible(m.level) {
            match (e.id, e.rustc_exit_code) {
                (Some(id), Some(code)) => {
                    let r = cargo_logs::spec_cargo_exit(
                        m,
                        id,
                        or_empty(e.crate_name),
                        code,
                        e.rendered_messages,
                    );
                    (r.0, r.1, none)
                },
                _ => malformed,
            }
        } else {
            skip
        }
    } else {
        skip
    }
}

/// A rejected event never changes the state and never renders.
pub proof fn lemma_process_error_unchanged(m: Model, e: EventModel)
    ensures
        spec_process_event(m, e).2 is Some ==> spec_process_event(m, e).0 == m
            && spec_process_event(m, e).1 == Seq::<ActionModel>::empty(),
{
}

/// Dispatches one decoded event on its (action, sub-type) pair,
/// applying the verbosity policy at every decision point.
pub fn process_event(ev: &Event, logone: &mut LogOne) -> (r: Result<Vec<RenderAction>, LogError>)
    requires
        old(logone).wf(),
    ensures
        final(logone).wf(),
        final(logone)@ == spec_process_event(old(logone)@, ev@).0,
        match r {
            Ok(out) => spec_process_event(old(logone)@, ev@).2 is None && action_views(out@)
                == spec_process_event(old(logone)@, ev@).1,
            Err(err) => spec_process_event(old(logone)@, ev@).2 == Some(err),
        },
{
    let is_start = text::str_eq(ev.action.as_str(), "start");
    let is_result = text::str_eq(ev.action.as_str(), "result");
    let is_stop = text::str_eq(ev.action.as_str(), "stop");
    let is_msg = text::str_eq(ev.action.as_str(), "msg");
    let is_cargo = text::str_eq(ev.action.as_str(), "cargo");
    let sub_is_104 = match ev.sub_type {
        Some(v) => v == 104,
        None => false,
    };
    let sub_is_105 = match ev.sub_type {
        Some(v) => v == 105,
        None => false,
    };
    let sub_is_101 = match ev.sub_type {
        Some(v) => v == 101,
        None => false,
    };
    let sub_is_0 = match ev.sub_type {
        Some(v) => v == 0,
        None => false,
    };
    let sub_is_2 = match ev.sub_type {
        Some(v) => v == 2,
        None => false,
    };
    let mut out: Vec<RenderAction> = Vec::new();
    proof {
        assert(action_views(out@) =~= Seq::<ActionModel>::empty());
    }
    if is_start && sub_is_104 {
        match nix_build_statistics::handle_status_start(ev, logone) {
            Ok(()) => Ok(out),
            Err(e2) => Err(e2),
        }
    } else if is_result && sub_is_105 {
        nix_build_statistics::handle_status_update(ev, logone)
    } else if is_stop {
        match ev.id {
            None => Ok(out),
            Some(id) => {
                if nix_build_statistics::is_status_id(id, logone) {
                    nix_build_statistics::handle_status_stop(ev, logone)
                } else if logs::has_log_buffer(id, logone) {
                    let lvl = logone.level();
                    match logs::handle_log_stop(ev, logone) {
                        Ok(()) => {},
                        Err(_) => {},
                    }
                    if matches!(lvl, LogLevel::Errors) {
                        if check_stop_for_failure(ev) {
                            logone.mark_failed(id);
                        }
                    }
                    let failed = logone.is_failed(id);
                    if policy::flush_on_stop(lvl, failed) {
                        let mut acts = logone.print_log_buffer_by_id(id);
                        let ghost acts0 = acts@;
                        out.append(&mut acts);
                        proof {
                            assert(action_views(out@) =~= action_views(acts0));
                        }
                    } else {
                        logone.discard_buffer(id);
                    }
                    match lvl {
                        LogLevel::Errors | LogLevel::Cargo => logone.clear_failed(id),
                        LogLevel::Verbose => {},
                    }
                    Ok(out)
                } else {
                    Ok(out)
                }
            },
        }
    } else if is_start && sub_is_105 {
        if policy::nix_units_visible(logone.level()) {
            match logs::handle_log_start(ev, logone) {
                Ok(()) => Ok(out),
                Err(e2) => Err(e2),
            }
        } else {
            Ok(out)
        }
    } else if is_result && sub_is_101 {
        if policy::nix_units_visible(logone.level()) {
            match logs::handle_log_line(ev, logone) {
                Ok(()) => Ok(out),
                Err(e2) => Err(e2),
            }
        } else {
            Ok(out)
        }
    } else if is_result && sub_is_104 {
        if policy::nix_units_visible(logone.level()) {
            match logs::handle_log_phase(ev, logone) {
                Ok(()) => Ok(out),
                Err(e2) => Err(e2),
            }
        } else {
            Ok(out)
        }
    } else if is_msg {
        let lvl = logone.level();
        let level = match ev.level {
            Some(l) => l,
            None => 0,
        };
        let msg = opt_str_or_empty(&ev.msg);
        if policy::msg_handled(lvl, level, msg.as_str()) {
            if matches!(lvl, LogLevel::Errors) {
                match pattern::find_drv_token(msg.as_str()) {
                    Some(t) => {
                        let nm = text::concat3("building '/nix/store/", t.as_str(), ".drv'");
                        match logone.lookup_id_by_name(nm.as_str()) {
                            Some(fid) => logone.mark_failed(fid),
                            None => {},
                        }
                    },
                    None => {},
                }
            }
            logs::handle_msg(ev, logone)
        } else {
            Ok(out)
        }
    } else if is_cargo && sub_is_0 {
        if policy::cargo_visible(logone.level()) {
            cargo_logs::handle_cargo_log_start(ev, logone)
        } else {
            Ok(out)
        }
    } else if is_cargo && sub_is_2 {
        if policy::cargo_visible(logone.level()) {
            cargo_logs::handle_cargo_log_exit(ev, logone)
        } else {
            Ok(out)
        }
    } else {
        Ok(out)
    }
}

/// The full outcome of one captured compiler line: inert without the
/// compiler marker; malformed if the cleaned remainder is not a JSON
/// object; otherwise the decoded event is routed with its action fixed
/// and the capturing builder unit's id inherited.
pub open spec fn spec_cargo_line(m: Model, id: u64, line: Seq<char>) -> (
    Model,
    Seq<ActionModel>,
    Option<LogError>,
) {
    if !text::is_prefix_of(line, "@cargo "@) {
        (m, Seq::<ActionModel>::empty(), Option::<LogError>::None)
    } else {
        let clean = pattern::ansi_stripped(line.skip("@cargo "@.len() as int));
        if !json::is_object_text(clean) {
            (m, Seq::<ActionModel>::empty(), Some(LogError::MalformedEvent))
        } else {
            let sub = json::u64_field_of(clean, "type"@);
            let ev = EventModel { id: Some(id), ..spec_event_of(clean, "cargo"@, sub) };
            spec_process_event(m, ev)
        }
    }
}

/// The full outcome of one raw input line: inert without the builder
/// marker; malformed if, after stripping color escapes, the remainder
/// is not a JSON object or lacks a string action; a captured compiler
/// line is re-decoded with the outer id in compiler-only mode and
/// dropped in the other modes; everything else is decoded and routed.
pub open spec fn spec_decode_nix(m: Model, line: Seq<char>) -> (
    Model,
    Seq<ActionModel>,
    Option<LogError>,
) {
    if !text::is_prefix_of(line, "@nix "@) {
        (m, Seq::<ActionModel>::empty(), Option::<LogError>::None)
    } else {
        let clean = pattern::ansi_stripped(line.skip("@nix "@.len() as int));
        if !json::is_object_text(clean) {
            (m, Seq::<ActionModel>::empty(), Some(LogError::MalformedEvent))
        } else {
            match json::str_field_of(clean, "action"@) {
                None => (m, Seq::<ActionModel>::empty(), Some(LogError::MalformedEvent)),
                Some(action) => {
                    let sub = json::u64_field_of(clean, "type"@);
                    let f0 = or_empty(json::field_str_of(clean, 0));
                    if sub == Some(101u64) && action == "result"@ && text::is_prefix_of(
                        f0,
                        "@cargo"@,
                    ) {
                        if m.level == LogLevel::Cargo {
                            match json::u64_field_of(clean, "id"@) {
                                None => (
                                    m,
                                    Seq::<ActionModel>::empty(),
                                    Some(LogError::MalformedEvent),
                                ),
                                Some(id) => spec_cargo_line(m, id, f0),
                            }
                        } else {
                            (m, Seq::<ActionModel>::empty(), Option::<LogError>::None)
                        }
                    } else {
                        spec_process_event(m, spec_event_of(clean, action, sub))
                    }
                },
            }
        }
    }
}

/// Decodes and routes one line captured from a compiler process's
/// output, inheriting the id of the builder unit that captured it.
pub fn parse_cargo_line(id: u64, line: &str, logone: &mut LogOne) -> (r: Result<
    Vec<RenderAction>,
    LogError,
>)
    requires
        old(logone).wf(),
    ensures
        final(logone).wf(),
        final(logone)@ == spec_cargo_line(old(logone)@, id, line@).0,
        match r {
            Ok(out) => spec_cargo_line(old(logone)@, id, line@).2 is None && action_views(out@)
                == spec_cargo_line(old(logone)@, id, line@).1,
            Err(err) => spec_cargo_line(old(logone)@, id, line@).2 == Some(err),
        },
        r is Err ==> final(logone)@ == old(logone)@,
{
    let content = match text::strip_prefix_of(line, "@cargo ") {
        None => {
            return Ok(Vec::new());
        },
        Some(c) => c,
    };
    let clean = pattern::strip_ansi(content);
    if !json::text_is_object(clean.as_str()) {
        return Err(LogError::MalformedEvent);
    }
    let message_type = json::text_get_u64(clean.as_str(), "type");
    let mut ev = build_event(clean.as_str(), String::from_str("cargo"), message_type);
    ev.id = Some(id);
    proof {
        assert(ev@ =~~= (EventModel {
            id: Some(id),
            ..spec_event_of(clean@, "cargo"@, message_type)
        }));
        lemma_process_error_unchanged(old(logone)@, ev@);
    }
    process_event(&ev, logone)
}

/// Decodes and routes one raw input line: recognizes the builder
/// marker, strips color escapes, demands a JSON object with an action,
/// unwraps a captured compiler line, and hands the event to the
/// router. A malformed line changes nothing and is never fatal.
pub fn parse_nix_line(line: &str, logone: &mut LogOne) -> (r: Result<Vec<RenderAction>, LogError>)
    requires
        old(logone).wf(),
    ensures
        final(logone).wf(),
        final(logone)@ == spec_decode_nix(old(logone)@, line@).0,
        match r {
            Ok(out) => spec_decode_nix(old(logone)@, line@).2 is None && action_views(out@)
                == spec_decode_nix(old(logone)@, line@).1,
            Err(err) => spec_decode_nix(old(logone)@, line@).2 == Some(err),
        },
        r is Err ==> final(logone)@ == old(logone)@,
{
    let content = match text::strip_prefix_of(line, "@nix ") {
        None => {
            return Ok(Vec::new());
        },
        Some(c) => c,
    };
    let clean = pattern::strip_ansi(content);
    if !json::text_is_object(clean.as_str()) {
        return Err(LogError::MalformedEvent);
    }
    let action = match json::text_get_str(clean.as_str(), "action") {
        None => {
            return Err(LogError::MalformedEvent);
        },
        Some(a) => a,
    };
    let message_type = json::text_get_u64(clean.as_str(), "type");
    let type_is_101 = match message_type {
        Some(t) => t == 101,
        None => false,
    };
    if type_is_101 && text::str_eq(action.as_str(), "result") {
        let field0 = match json::text_field_str(clean.as_str(), 0) {
            Some(s) => s,
            None => String::new(),
        };
        if text::str_starts_with(field0.as_str(), "@cargo") {
            match logone.level() {
                LogLevel::Cargo => {
                    let id = match json::text_get_u64(clean.as_str(), "id") {
                        None => {
                            return Err(LogError::MalformedEvent);
                        },
                        Some(id) => id,
                    };
                    return parse_cargo_line(id, field0.as_str(), logone);
                },
                LogLevel::Errors | LogLevel::Verbose => {
                    return Ok(Vec::new());
                },
            }
        }
    }
    let ev = build_event(clean.as_str(), action, message_type);
    proof {
        lemma_process_error_unchanged(old(logone)@, ev@);
    }
    process_event(&ev, logone)
}

} // verus!
