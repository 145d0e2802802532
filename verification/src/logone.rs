//! The owning context of the event router: per-unit log buffers and
//! states, the name index, failure flags, the stats snapshot and the
//! active-target list. Every mutation is described against an abstract
//! model of the whole context.

use vstd::prelude::*;
use vstd::string::StringExecFns;
use crate::kv::{IdMap, IdSet, NameMap, TargetList};
use crate::kv;

verus! {

/// The verbosity mode: compiler events only, buffered transcripts shown
/// on failure only, or everything.
#[derive(Debug, Clone, Copy, PartialEq, Eq, Structural)]
pub enum LogLevel {
    Cargo,
    Errors,
    Verbose,
}

/// Lifecycle state of one build unit.
#[derive(Debug, Clone, Copy, PartialEq, Eq, Structural)]
pub enum LogStatus {
    Started,
    Stopped,
    FinishedWithSuccess,
    FinishedWithError,
}

/// Why an event was rejected.
#[derive(Debug, Clone, Copy, PartialEq, Eq, Structural)]
pub enum LogError {
    /// The event lacks a mandatory field or cannot be read at all.
    MalformedEvent,
    /// A stats update arrived from a stream that never registered.
    UnknownStream,
}

/// The absolute progress counters reported by the build tool. Updates
/// overwrite; nothing accumulates.
#[derive(Debug, Clone, Copy, PartialEq, Eq, Structural)]
pub struct StatsSnapshot {
    pub done: u64,
    pub expected: u64,
    pub running: u64,
    pub failed: u64,
}

/// One buffered log line of a build unit.
#[derive(Debug, Clone, PartialEq)]
pub struct NixMessage {
    pub action: String,
    pub message_type: Option<u64>,
    pub content: String,
    pub level: Option<u64>,
    pub file: Option<String>,
}

/// The mathematical value of a buffered log line.
pub struct MsgModel {
    pub action: Seq<char>,
    pub message_type: Option<u64>,
    pub content: Seq<char>,
    pub level: Option<u64>,
    pub file: Option<Seq<char>>,
}

impl View for NixMessage {
    type V = MsgModel;

    open spec fn view(&self) -> MsgModel {
        MsgModel {
            action: self.action@,
            message_type: self.message_type,
            content: self.content@,
            level: self.level,
            file: match self.file {
                Some(f) => Some(f@),
                None => None,
            },
        }
    }
}

/// One rendering request handed to the presentation layer, which owns
/// all terminal concerns and never feeds anything back.
#[derive(Debug, Clone, PartialEq)]
pub enum RenderAction {
    /// Redraw the aggregate progress line.
    Progress { done: u64, expected: u64, running: u64, failed: u64, targets: Vec<(String, u64)> },
    /// Print the full buffered transcript of one unit.
    Transcript { name: String, lines: Vec<NixMessage> },
    /// Print one free-text diagnostic message.
    Message { level: u64, text: String, file: Option<String> },
}

/// The mathematical value of a rendering request.
pub enum ActionModel {
    Progress { done: u64, expected: u64, running: u64, failed: u64, targets: Seq<(Seq<char>, u64)> },
    Transcript { name: Seq<char>, lines: Seq<MsgModel> },
    Message { level: u64, text: Seq<char>, file: Option<Seq<char>> },
}

impl View for RenderAction {
    type V = ActionModel;

    open spec fn view(&self) -> ActionModel {
        match self {
            RenderAction::Progress { done, expected, running, failed, targets } => {
                ActionModel::Progress {
                    done: *done,
                    expected: *expected,
                    running: *running,
                    failed: *failed,
                    targets: kv::snap_pairs(targets@),
                }
            },
            RenderAction::Transcript { name, lines } => {
                ActionModel::Transcript { name: name@, lines: msg_views(lines@) }
            },
            RenderAction::Message { level, text, file } => {
                ActionModel::Message {
                    level: *level,
                    text: text@,
                    file: match file {
                        Some(f) => Some(f@),
                        None => None,
                    },
                }
            },
        }
    }
}

/// The views of a sequence of buffered lines.
pub open spec fn msg_views(s: Seq<NixMessage>) -> Seq<MsgModel> {
    s.map_values(|m: NixMessage| m@)
}

/// The views of a sequence of render actions.
pub open spec fn action_views(s: Seq<RenderAction>) -> Seq<ActionModel> {
    s.map_values(|a: RenderAction| a@)
}

/// The views of a sequence of owned strings.
pub open spec fn str_views(s: Seq<String>) -> Seq<Seq<char>> {
    s.map_values(|x: String| x@)
}

/// Lifts a map of buffered line vectors to their views.
pub open spec fn lift_buffers(m: Map<u64, Vec<NixMessage>>) -> Map<u64, Seq<MsgModel>> {
    Map::new(|k: u64| m.contains_key(k), |k: u64| msg_views(m[k]@))
}

/// Lifts a map of rendered-message vectors to their views.
pub open spec fn lift_lines(m: Map<u64, Vec<String>>) -> Map<u64, Seq<Seq<char>>> {
    Map::new(|k: u64| m.contains_key(k), |k: u64| str_views(m[k]@))
}

/// The abstract state of the whole context: what every contract of the
/// router and its parts speaks about.
#[verifier::ext_equal]
pub struct Model {
    pub colored: bool,
    pub level: LogLevel,
    /// In-flight named compile targets with reference counts, in
    /// first-seen order.
    pub targets: Seq<(Seq<char>, u64)>,
    /// Last received absolute counters; retained after the reporting
    /// stream ends.
    pub stats: StatsSnapshot,
    /// What the progress line last showed, used only to suppress
    /// redraws that would change nothing visible.
    pub last_rendered: Option<(StatsSnapshot, Seq<(Seq<char>, u64)>)>,
    /// Per-unit buffered transcript lines; a flushed unit maps to no
    /// buffer.
    pub buffers: Map<u64, Seq<MsgModel>>,
    /// Per-unit lifecycle states.
    pub states: Map<u64, LogStatus>,
    /// Units known to have failed.
    pub failed: Set<u64>,
    /// Name-to-id pairs in insertion order; never pruned, so late
    /// messages can still locate a stopped unit's transcript.
    pub names: Seq<(Seq<char>, u64)>,
    /// Buffered compiler diagnostics per compile unit.
    pub cargo_buffers: Map<u64, Seq<Seq<char>>>,
    /// Lifecycle states of compile units.
    pub cargo_states: Map<u64, LogStatus>,
    /// Streams currently authorized to overwrite the stats snapshot.
    pub status_ids: Set<u64>,
    /// Cleared once, by shutdown.
    pub active: bool,
}

/// What the context's internal well-formedness gives at the model
/// level: the name index holds pairwise-distinct names, and the
/// active-target list is the sorted, deduplicated list — ascending
/// names, no repeats, positive reference counts.
pub open spec fn model_wf(m: Model) -> bool {
    &&& kv::distinct_names(m.names)
    &&& kv::distinct_names(m.targets)
    &&& kv::sorted_names(m.targets)
    &&& forall|i: int| 0 <= i < m.targets.len() ==> m.targets[i].1 >= 1
}

/// The state of a freshly created context.
pub open spec fn init_model(colored: bool, level: LogLevel) -> Model {
    Model {
        colored,
        level,
        targets: Seq::empty(),
        stats: StatsSnapshot { done: 0, expected: 0, running: 0, failed: 0 },
        last_rendered: None,
        buffers: Map::empty(),
        states: Map::empty(),
        failed: Set::empty(),
        names: Seq::empty(),
        cargo_buffers: Map::empty(),
        cargo_states: Map::empty(),
        status_ids: Set::empty(),
        active: true,
    }
}

/// Inserting a name-to-id pair: an existing name is re-pointed, a new
/// one appended.
pub open spec fn name_seq_insert(s: Seq<(Seq<char>, u64)>, n: Seq<char>, id: u64) -> Seq<
    (Seq<char>, u64),
> {
    if kv::has_name(s, n) {
        s.update(kv::name_at(s, n), (n, id))
    } else {
        s.push((n, id))
    }
}

/// Starting a unit: fresh empty buffer, `Started` state, both name
/// indexes updated. A recycled id simply overwrites its stale entries.
pub open spec fn spec_log_start(m: Model, id: u64, text: Seq<char>) -> Model {
    Model {
        buffers: m.buffers.insert(id, Seq::empty()),
        states: m.states.insert(id, LogStatus::Started),
        names: name_seq_insert(m.names, text, id),
        ..m
    }
}

/// Appending one line to a unit's buffer; a unit without a buffer is
/// left untouched.
pub open spec fn spec_append_line(m: Model, id: u64, line: MsgModel) -> Model {
    if m.buffers.contains_key(id) {
        Model { buffers: m.buffers.insert(id, m.buffers[id].push(line)), ..m }
    } else {
        m
    }
}

/// Removing a unit's buffer, exactly once: the flushed lines leave the
/// model.
pub open spec fn spec_drop_buffer(m: Model, id: u64) -> Model {
    Model { buffers: m.buffers.remove(id), ..m }
}

/// The core context object. It owns all routing state; the presentation
/// layer only ever receives `RenderAction` values derived from it.
pub struct LogOne {
    colored: bool,
    log_level: LogLevel,
    targets: TargetList,
    stats: StatsSnapshot,
    last_rendered: Option<(StatsSnapshot, Vec<(String, u64)>)>,
    nix_log_buffers: IdMap<Vec<NixMessage>>,
    nix_log_buffers_state: IdMap<LogStatus>,
    nix_failed: IdSet,
    drv_to_id: NameMap,
    cargo_log_buffers: IdMap<Vec<String>>,
    cargo_log_buffers_state: IdMap<LogStatus>,
    status_ids: IdSet,
    active: bool,
}

impl View for LogOne {
    type V = Model;

    closed spec fn view(&self) -> Model {
        Model {
            colored: self.colored,
            level: self.log_level,
            targets: self.targets.pairs(),
            stats: self.stats,
            last_rendered: match self.last_rendered {
                Some(p) => Some((p.0, kv::snap_pairs(p.1@))),
                None => None,
            },
            buffers: lift_buffers(self.nix_log_buffers@),
            states: self.nix_log_buffers_state@,
            failed: self.nix_failed@,
            names: self.drv_to_id.pairs(),
            cargo_buffers: lift_lines(self.cargo_log_buffers@),
            cargo_states: self.cargo_log_buffers_state@,
            status_ids: self.status_ids@,
            active: self.active,
        }
    }
}

impl LogOne {
    /// The components' structural invariants, established by `new` and
    /// preserved by every operation.
    pub closed spec fn wf(self) -> bool {
        &&& self.targets.wf()
        &&& self.nix_log_buffers.wf()
        &&& self.nix_log_buffers_state.wf()
        &&& self.nix_failed.wf()
        &&& self.drv_to_id.wf()
        &&& self.cargo_log_buffers.wf()
        &&& self.cargo_log_buffers_state.wf()
        &&& self.status_ids.wf()
    }

    /// Well-formedness seen from outside: every reachable context
    /// satisfies the model-level invariants.
    pub proof fn lemma_wf_model(&self)
        requires
            self.wf(),
        ensures
            model_wf(self@),
    {
    }

    pub fn new(colored: bool, log_level: LogLevel) -> (r: Self)
        ensures
            r.wf(),
            r@ == init_model(colored, log_level),
    {
        let r = LogOne {
            colored,
            log_level,
            targets: TargetList::new(),
            stats: StatsSnapshot { done: 0, expected: 0, running: 0, failed: 0 },
            last_rendered: None,
            nix_log_buffers: IdMap::new(),
            nix_log_buffers_state: IdMap::new(),
            nix_failed: IdSet::new(),
            drv_to_id: NameMap::new(),
            cargo_log_buffers: IdMap::new(),
            cargo_log_buffers_state: IdMap::new(),
            status_ids: IdSet::new(),
            active: true,
        };
        proof {
            assert(lift_buffers(r.nix_log_buffers@) =~= Map::<u64, Seq<MsgModel>>::empty());
            assert(lift_lines(r.cargo_log_buffers@) =~= Map::<u64, Seq<Seq<char>>>::empty());
            assert(r@ =~~= init_model(colored, log_level));
        }
        r
    }

    pub fn level(&self) -> (r: LogLevel)
        ensures
            r == self@.level,
    {
        self.log_level
    }

    pub fn is_colored(&self) -> (r: bool)
        ensures
            r == self@.colored,
    {
        self.colored
    }

    /// Registers a started unit under `id` with its printable name.
    pub fn log_start(&mut self, id: u64, text: String)
        requires
            old(self).wf(),
        ensures
            final(self).wf(),
            final(self)@ == spec_log_start(old(self)@, id, text@),
    {
        let ghost t = text@;
        self.nix_log_buffers.insert(id, Vec::new());
        self.nix_log_buffers_state.insert(id, LogStatus::Started);
        self.drv_to_id.insert(text, id);
        proof {
            assert(lift_buffers(self.nix_log_buffers@) =~~= old(self)@.buffers.insert(
                id,
                Seq::empty(),
            ));
            assert(self@ =~~= spec_log_start(old(self)@, id, t));
        }
    }

    /// Appends one line to the buffer of `id`, if that buffer exists;
    /// out-of-order or filtered-out units are ignored.
    pub fn append_line(&mut self, id: u64, line: NixMessage)
        requires
            old(self).wf(),
        ensures
            final(self).wf(),
            final(self)@ == spec_append_line(old(self)@, id, line@),
    {
        let ghost lv = line@;
        let buf = self.nix_log_buffers.remove(id);
        match buf {
            Some(mut b) => {
                b.push(line);
                self.nix_log_buffers.insert(id, b);
                proof {
                    assert(lift_buffers(self.nix_log_buffers@) =~~= old(self)@.buffers.insert(
                        id,
                        old(self)@.buffers[id].push(lv),
                    ));
                    assert(self@ =~~= spec_append_line(old(self)@, id, lv));
                }
            },
            None => {
                proof {
                    assert(self@ =~~= spec_append_line(old(self)@, id, lv));
                }
            },
        }
    }

    /// Overwrites the lifecycle state of `id`.
    pub fn set_state(&mut self, id: u64, st: LogStatus)
        requires
            old(self).wf(),
        ensures
            final(self).wf(),
            final(self)@ == (Model { states: old(self)@.states.insert(id, st), ..old(self)@ }),
    {
        self.nix_log_buffers_state.insert(id, st);
        proof {
            assert(self@ =~~= (Model { states: old(self)@.states.insert(id, st), ..old(self)@ }));
        }
    }

    /// Marks exactly the unit `id` as failed.
    pub fn mark_failed(&mut self, id: u64)
        requires
            old(self).wf(),
        ensures
            final(self).wf(),
            final(self)@ == (Model { failed: old(self)@.failed.insert(id), ..old(self)@ }),
    {
        self.nix_failed.insert(id);
        proof {
            assert(self@ =~~= (Model { failed: old(self)@.failed.insert(id), ..old(self)@ }));
        }
    }

    pub fn is_failed(&self, id: u64) -> (r: bool)
        ensures
            r == self@.failed.contains(id),
    {
        self.nix_failed.contains(id)
    }

    /// Forgets the failure flag of `id` once its lifecycle is over.
    pub fn clear_failed(&mut self, id: u64)
        requires
            old(self).wf(),
        ensures
            final(self).wf(),
            final(self)@ == (Model { failed: old(self)@.failed.remove(id), ..old(self)@ }),
    {
        self.nix_failed.remove(id);
        proof {
            assert(self@ =~~= (Model { failed: old(self)@.failed.remove(id), ..old(self)@ }));
        }
    }

    /// The id registered under `name`, if any.
    pub fn lookup_id_by_name(&self, name: &str) -> (r: Option<u64>)
        requires
            self.wf(),
        ensures
            match r {
                Some(id) => kv::has_name(self@.names, name@)
                    && kv::names_to_map(self@.names)[name@] == id,
                None => !kv::has_name(self@.names, name@),
            },
    {
        self.drv_to_id.get(name)
    }

    /// Drops the buffer of `id` unread: the verbosity policy decided
    /// that this transcript is never shown.
    pub fn discard_buffer(&mut self, id: u64)
        requires
            old(self).wf(),
        ensures
            final(self).wf(),
            final(self)@ == spec_drop_buffer(old(self)@, id),
    {
        self.nix_log_buffers.remove(id);
        proof {
            assert(lift_buffers(self.nix_log_buffers@) =~~= old(self)@.buffers.remove(id));
            assert(self@ =~~= spec_drop_buffer(old(self)@, id));
        }
    }

    pub fn has_buffer(&self, id: u64) -> (r: bool)
        ensures
            r == self@.buffers.contains_key(id),
    {
        self.nix_log_buffers.contains_key(id)
    }

    /// A copy of the buffered lines of `id`, if any.
    pub fn buffer_clone(&self, id: u64) -> (r: Option<Vec<NixMessage>>)
        requires
            self.wf(),
        ensures
            match r {
                Some(v) => self@.buffers.contains_key(id) && msg_views(v@) == self@.buffers[id],
                None => !self@.buffers.contains_key(id),
            },
    {
        match self.nix_log_buffers.get(id) {
            Some(buf) => {
                let copy = clone_lines(buf);
                proof {
                    assert(msg_views(copy@) =~= self@.buffers[id]);
                }
                Some(copy)
            },
            None => None,
        }
    }
}

/// A field-exact copy of one buffered line.
pub fn clone_message(m: &NixMessage) -> (r: NixMessage)
    ensures
        r == *m,
{
    NixMessage {
        action: m.action.clone(),
        message_type: m.message_type,
        content: m.content.clone(),
        level: m.level,
        file: match &m.file {
            Some(f) => Some(f.clone()),
            None => None,
        },
    }
}

/// A field-exact copy of a buffer of lines.
pub fn clone_lines(v: &Vec<NixMessage>) -> (r: Vec<NixMessage>)
    ensures
        r@ == v@,
{
    let n = v.len();
    let mut r: Vec<NixMessage> = Vec::new();
    let mut i: usize = 0;
    while i < n
        invariant
            n == v@.len(),
            i <= n,
            r@.len() == i,
            forall|j: int| 0 <= j < i ==> r@[j] == v@[j],
        decreases n - i,
    {
        r.push(clone_message(&v[i]));
        i += 1;
    }
    proof {
        assert(r@ =~= v@);
    }
    r
}

/// The display name of unit `id`: the first one registered for it, or
/// a placeholder when a later start re-pointed every name it had.
pub open spec fn display_name_of(m: Model, id: u64) -> Seq<char> {
    match kv::first_name_spec(m.names, id) {
        Some(nm) => nm,
        None => "unknown unit"@,
    }
}

/// Flushing the unit `id`: whenever a buffer exists it leaves the
/// model, exactly once, as a transcript under the unit's display name;
/// with no buffer nothing happens, so a second flush of the same id is
/// a no-op.
pub open spec fn spec_flush_one(m: Model, id: u64) -> (Model, Seq<ActionModel>) {
    if m.buffers.contains_key(id) {
        (
            spec_drop_buffer(m, id),
            seq![ActionModel::Transcript { name: display_name_of(m, id), lines: m.buffers[id] }],
        )
    } else {
        (m, Seq::empty())
    }
}

/// Flushing the unit registered under the name `nm`, if any.
pub open spec fn spec_flush_by_name(m: Model, nm: Seq<char>) -> (Model, Seq<ActionModel>) {
    if kv::has_name(m.names, nm) {
        let id = kv::names_to_map(m.names)[nm];
        if m.buffers.contains_key(id) {
            (
                spec_drop_buffer(m, id),
                seq![ActionModel::Transcript { name: nm, lines: m.buffers[id] }],
            )
        } else {
            (m, Seq::empty())
        }
    } else {
        (m, Seq::empty())
    }
}

/// Overwriting the stats snapshot: the redraw is suppressed exactly
/// when the progress line would repeat what was last rendered.
pub open spec fn spec_update_stats(m: Model, s: StatsSnapshot) -> (Model, Seq<ActionModel>) {
    if m.last_rendered == Some((s, m.targets)) {
        (Model { stats: s, ..m }, Seq::empty())
    } else {
        (
            Model { stats: s, last_rendered: Some((s, m.targets)), ..m },
            seq![
                ActionModel::Progress {
                    done: s.done,
                    expected: s.expected,
                    running: s.running,
                    failed: s.failed,
                    targets: m.targets,
                },
            ],
        )
    }
}

/// Flushing a list of units in order, accumulating their transcripts.
pub open spec fn spec_flush_all(m: Model, ids: Seq<u64>) -> (Model, Seq<ActionModel>)
    decreases ids.len(),
{
    if ids.len() == 0 {
        (m, Seq::empty())
    } else {
        let step = spec_flush_one(m, ids[0]);
        let rest = spec_flush_all(step.0, ids.drop_first());
        (rest.0, step.1 + rest.1)
    }
}

/// Whatever the order, flushing a list of ids removes exactly the
/// listed buffers and touches no other part of the buffer map.
pub proof fn lemma_flush_all_buffers(m: Model, ids: Seq<u64>)
    ensures
        spec_flush_all(m, ids).0.buffers.dom() =~= m.buffers.dom().difference(ids.to_set()),
    decreases ids.len(),
{
    if ids.len() == 0 {
        assert(m.buffers.dom().difference(ids.to_set()) =~= m.buffers.dom());
    } else {
        let step = spec_flush_one(m, ids[0]);
        assert(step.0.buffers.dom() =~= m.buffers.dom().remove(ids[0]));
        lemma_flush_all_buffers(step.0, ids.drop_first());
        assert forall|x: u64| ids.to_set().contains(x) == (x == ids[0]
            || ids.drop_first().to_set().contains(x)) by {
            if ids.to_set().contains(x) && x != ids[0] {
                let j = choose|j: int| 0 <= j < ids.len() && ids[j] == x;
                assert(ids.drop_first()[j - 1] == x);
            }
            if ids.drop_first().to_set().contains(x) {
                let j = choose|j: int| 0 <= j < ids.drop_first().len() && ids.drop_first()[j]
                    == x;
                assert(ids[j + 1] == x);
            }
            if x == ids[0] {
                assert(ids.to_set().contains(x));
            }
        }
        assert(spec_flush_all(m, ids).0.buffers.dom() =~= m.buffers.dom().difference(
            ids.to_set(),
        ));
    }
}

impl LogOne {
    /// Removes and returns the buffer of `id` as a transcript titled
    /// `drv`, or nothing if the buffer is already gone.
    fn print_log_buffer(&mut self, id: u64, drv: String) -> (r: Option<RenderAction>)
        requires
            old(self).wf(),
        ensures
            final(self).wf(),
            old(self)@.buffers.contains_key(id) ==> {
                &&& final(self)@ == spec_drop_buffer(old(self)@, id)
                &&& r matches Some(a) && a@ == (ActionModel::Transcript {
                    name: drv@,
                    lines: old(self)@.buffers[id],
                })
            },
            !old(self)@.buffers.contains_key(id) ==> final(self)@ == old(self)@ && r is None,
    {
        let buf = self.nix_log_buffers.remove(id);
        match buf {
            Some(lines) => {
                proof {
                    assert(lift_buffers(self.nix_log_buffers@) =~~= old(self)@.buffers.remove(id));
                    assert(self@ =~~= spec_drop_buffer(old(self)@, id));
                    assert(msg_views(lines@) == old(self)@.buffers[id]);
                }
                Some(RenderAction::Transcript { name: drv, lines })
            },
            None => {
                proof {
                    assert(lift_buffers(self.nix_log_buffers@) =~~= old(self)@.buffers);
                    assert(self@ =~~= old(self)@);
                }
                None
            },
        }
    }

    /// Flushes the transcript of the unit registered under the name
    /// `drv`: the buffer leaves the registry exactly once.
    pub fn print_log_buffer_by_drv(&mut self, drv: String) -> (out: Vec<RenderAction>)
        requires
            old(self).wf(),
        ensures
            final(self).wf(),
            final(self)@ == spec_flush_by_name(old(self)@, drv@).0,
            action_views(out@) == spec_flush_by_name(old(self)@, drv@).1,
    {
        let ghost dv = drv@;
        let id_opt = self.drv_to_id.get(drv.as_str());
        let mut out: Vec<RenderAction> = Vec::new();
        match id_opt {
            None => {
                proof {
                    assert(action_views(out@) =~= spec_flush_by_name(old(self)@, dv).1);
                }
            },
            Some(id) => {
                let a = self.print_log_buffer(id, drv);
                match a {
                    Some(act) => {
                        out.push(act);
                        proof {
                            assert(action_views(out@) =~= spec_flush_by_name(old(self)@, dv).1);
                        }
                    },
                    None => {
                        proof {
                            assert(action_views(out@) =~= spec_flush_by_name(old(self)@, dv).1);
                        }
                    },
                }
            },
        }
        out
    }

    /// Flushes the transcript of unit `id`, titling it with the first
    /// name registered for that id, or a placeholder when no name is
    /// left; the buffer always comes out if it exists.
    pub fn print_log_buffer_by_id(&mut self, id: u64) -> (out: Vec<RenderAction>)
        requires
            old(self).wf(),
        ensures
            final(self).wf(),
            final(self)@ == spec_flush_one(old(self)@, id).0,
            action_views(out@) == spec_flush_one(old(self)@, id).1,
    {
        let name_opt = self.drv_to_id.first_name_for(id);
        let drv = match name_opt {
            Some(n) => n,
            None => String::from_str("unknown unit"),
        };
        let mut out: Vec<RenderAction> = Vec::new();
        let a = self.print_log_buffer(id, drv);
        match a {
            Some(act) => {
                out.push(act);
                proof {
                    assert(action_views(out@) =~= spec_flush_one(old(self)@, id).1);
                }
            },
            None => {
                proof {
                    assert(action_views(out@) =~= spec_flush_one(old(self)@, id).1);
                }
            },
        }
        out
    }

    /// Takes a new absolute stats snapshot. The values always replace
    /// the stored ones; a progress action comes out exactly when the
    /// rendered line would differ from the last one.
    pub fn update_stats(&mut self, done: u64, expected: u64, running: u64, failed: u64) -> (out:
        Vec<RenderAction>)
        requires
            old(self).wf(),
        ensures
            final(self).wf(),
            final(self)@ == spec_update_stats(
                old(self)@,
                StatsSnapshot { done, expected, running, failed },
            ).0,
            action_views(out@) == spec_update_stats(
                old(self)@,
                StatsSnapshot { done, expected, running, failed },
            ).1,
    {
        let snap = StatsSnapshot { done, expected, running, failed };
        let tg = self.targets.snapshot();
        let unchanged = match &self.last_rendered {
            Some(p) => p.0 == snap && kv::snapshots_equal(&p.1, &tg),
            None => false,
        };
        let mut out: Vec<RenderAction> = Vec::new();
        if unchanged {
            self.stats = snap;
            proof {
                assert(old(self)@.last_rendered == Some((snap, old(self)@.targets)));
                assert(self@ =~~= spec_update_stats(old(self)@, snap).0);
                assert(action_views(out@) =~= spec_update_stats(old(self)@, snap).1);
            }
        } else {
            self.stats = snap;
            let tg2 = self.targets.snapshot();
            self.last_rendered = Some((snap, tg));
            out.push(RenderAction::Progress { done, expected, running, failed, targets: tg2 });
            proof {
                assert(old(self)@.last_rendered != Some((snap, old(self)@.targets)));
                assert(self@ =~~= spec_update_stats(old(self)@, snap).0);
                assert(action_views(out@) =~= spec_update_stats(old(self)@, snap).1);
            }
        }
        out
    }

    /// One more in-flight reference to the named compile target.
    pub fn target_add(&mut self, create_name: String)
        requires
            old(self).wf(),
        ensures
            final(self).wf(),
            final(self)@ == (Model {
                targets: kv::spec_target_add(old(self)@.targets, create_name@),
                ..old(self)@
            }),
    {
        let ghost n = create_name@;
        self.targets.add(create_name);
        proof {
            assert(self@ =~~= (Model {
                targets: kv::spec_target_add(old(self)@.targets, n),
                ..old(self)@
            }));
        }
    }

    /// One reference fewer to the named compile target; an unknown name
    /// is ignored.
    pub fn target_remove(&mut self, create_name: String)
        requires
            old(self).wf(),
        ensures
            final(self).wf(),
            final(self)@ == (Model {
                targets: kv::spec_target_remove(old(self)@.targets, create_name@),
                ..old(self)@
            }),
    {
        let ghost n = create_name@;
        self.targets.remove(create_name.as_str());
        proof {
            assert(self@ =~~= (Model {
                targets: kv::spec_target_remove(old(self)@.targets, n),
                ..old(self)@
            }));
        }
    }

    /// Registers a started compile unit and its crate name.
    pub fn cargo_start(&mut self, id: u64)
        requires
            old(self).wf(),
        ensures
            final(self).wf(),
            final(self)@ == (Model {
                cargo_buffers: old(self)@.cargo_buffers.insert(id, Seq::empty()),
                cargo_states: old(self)@.cargo_states.insert(id, LogStatus::Started),
                ..old(self)@
            }),
    {
        self.cargo_log_buffers.insert(id, Vec::new());
        self.cargo_log_buffers_state.insert(id, LogStatus::Started);
        proof {
            assert(lift_lines(self.cargo_log_buffers@) =~~= old(self)@.cargo_buffers.insert(
                id,
                Seq::empty(),
            ));
            assert(self@ =~~= (Model {
                cargo_buffers: old(self)@.cargo_buffers.insert(id, Seq::empty()),
                cargo_states: old(self)@.cargo_states.insert(id, LogStatus::Started),
                ..old(self)@
            }));
        }
    }

    /// Overwrites the lifecycle state of compile unit `id`.
    pub fn cargo_set_state(&mut self, id: u64, st: LogStatus)
        requires
            old(self).wf(),
        ensures
            final(self).wf(),
            final(self)@ == (Model {
                cargo_states: old(self)@.cargo_states.insert(id, st),
                ..old(self)@
            }),
    {
        self.cargo_log_buffers_state.insert(id, st);
        proof {
            assert(self@ =~~= (Model {
                cargo_states: old(self)@.cargo_states.insert(id, st),
                ..old(self)@
            }));
        }
    }

    /// Appends rendered compiler diagnostics to the buffer of compile
    /// unit `id`, if that buffer exists.
    pub fn cargo_append_lines(&mut self, id: u64, msgs: &Vec<String>)
        requires
            old(self).wf(),
        ensures
            final(self).wf(),
            final(self)@ == if old(self)@.cargo_buffers.contains_key(id) {
                Model {
                    cargo_buffers: old(self)@.cargo_buffers.insert(
                        id,
                        old(self)@.cargo_buffers[id] + str_views(msgs@),
                    ),
                    ..old(self)@
                }
            } else {
                old(self)@
            },
    {
        let buf = self.cargo_log_buffers.remove(id);
        match buf {
            Some(mut b) => {
                let ghost b0 = b@;
                let n = msgs.len();
                let mut i: usize = 0;
                while i < n
                    invariant
                        n == msgs@.len(),
                        i <= n,
                        b@ == b0 + msgs@.subrange(0, i as int),
                    decreases n - i,
                {
                    b.push(msgs[i].clone());
                    proof {
                        assert(b@ =~= b0 + msgs@.subrange(0, i + 1));
                    }
                    i += 1;
                }
                proof {
                    assert(b@ =~= b0 + msgs@);
                }
                self.cargo_log_buffers.insert(id, b);
                proof {
                    assert(str_views(b0 + msgs@) =~= str_views(b0) + str_views(msgs@));
                    assert(lift_lines(self.cargo_log_buffers@) =~~= old(self)@.cargo_buffers.insert(
                        id,
                        old(self)@.cargo_buffers[id] + str_views(msgs@),
                    ));
                    assert(self@ =~~= (Model {
                        cargo_buffers: old(self)@.cargo_buffers.insert(
                            id,
                            old(self)@.cargo_buffers[id] + str_views(msgs@),
                        ),
                        ..old(self)@
                    }));
                }
            },
            None => {
                proof {
                    assert(self@ =~~= old(self)@);
                }
            },
        }
    }

    /// Authorizes the stream `id` to overwrite the stats snapshot.
    pub fn register_status(&mut self, id: u64)
        requires
            old(self).wf(),
        ensures
            final(self).wf(),
            final(self)@ == (Model {
                status_ids: old(self)@.status_ids.insert(id),
                ..old(self)@
            }),
    {
        self.status_ids.insert(id);
        proof {
            assert(self@ =~~= (Model {
                status_ids: old(self)@.status_ids.insert(id),
                ..old(self)@
            }));
        }
    }

    /// Withdraws the stream `id`; the last snapshot values stay.
    pub fn unregister_status(&mut self, id: u64)
        requires
            old(self).wf(),
        ensures
            final(self).wf(),
            final(self)@ == (Model {
                status_ids: old(self)@.status_ids.remove(id),
                ..old(self)@
            }),
    {
        self.status_ids.remove(id);
        proof {
            assert(self@ =~~= (Model {
                status_ids: old(self)@.status_ids.remove(id),
                ..old(self)@
            }));
        }
    }

    pub fn is_status(&self, id: u64) -> (r: bool)
        ensures
            r == self@.status_ids.contains(id),
    {
        self.status_ids.contains(id)
    }

    /// The last received absolute counters.
    pub fn stats(&self) -> (r: StatsSnapshot)
        ensures
            r == self@.stats,
    {
        self.stats
    }

    /// Ends the run: in verbose mode every unit still holding a buffer
    /// is force-flushed, in some order covering exactly those units; a
    /// second shutdown does nothing.
    pub fn shutdown(&mut self) -> (out: Vec<RenderAction>)
        requires
            old(self).wf(),
        ensures
            final(self).wf(),
            !old(self)@.active ==> final(self)@ == old(self)@ && out@.len() == 0,
            old(self)@.active && old(self)@.level != LogLevel::Verbose ==> final(self)@ == (Model {
                active: false,
                ..old(self)@
            }) && out@.len() == 0,
            old(self)@.active && old(self)@.level == LogLevel::Verbose ==> final(self)@.buffers
                == Map::<u64, Seq<MsgModel>>::empty(),
            old(self)@.active && old(self)@.level == LogLevel::Verbose ==> exists|ids: Seq<u64>|
                {
                    &&& ids.no_duplicates()
                    &&& ids.to_set() == old(self)@.buffers.dom()
                    &&& final(self)@ == spec_flush_all(
                        Model { active: false, ..old(self)@ },
                        ids,
                    ).0
                    &&& action_views(out@) == spec_flush_all(
                        Model { active: false, ..old(self)@ },
                        ids,
                    ).1
                },
    {
        let mut out: Vec<RenderAction> = Vec::new();
        if !self.active {
            proof {
                assert(self@ =~~= old(self)@);
            }
            return out;
        }
        self.active = false;
        proof {
            assert(self@ =~~= (Model { active: false, ..old(self)@ }));
        }
        if !matches!(self.log_level, LogLevel::Verbose) {
            return out;
        }
        let ghost m1 = self@;
        let ids = self.nix_log_buffers.keys();
        proof {
            old(self).nix_log_buffers.lemma_key_seq();
            assert(ids@.to_set() == old(self)@.buffers.dom()) by {
                assert(old(self).nix_log_buffers@.dom() =~= old(self)@.buffers.dom());
            }
        }
        let ghost idseq = ids@;
        proof {
            assert(idseq.skip(0) =~= idseq);
            assert(action_views(out@) =~= Seq::<ActionModel>::empty());
            assert(Seq::<ActionModel>::empty() + spec_flush_all(self@, idseq).1
                =~= spec_flush_all(self@, idseq).1);
        }
        let n = ids.len();
        let mut i: usize = 0;
        while i < n
            invariant
                self.wf(),
                n == idseq.len(),
                ids@ == idseq,
                i <= n,
                spec_flush_all(m1, idseq).0 == spec_flush_all(self@, idseq.skip(i as int)).0,
                spec_flush_all(m1, idseq).1 == action_views(out@) + spec_flush_all(
                    self@,
                    idseq.skip(i as int),
                ).1,
            decreases n - i,
        {
            let ghost pre = self@;
            let ghost rem = idseq.skip(i as int);
            let mut acts = self.print_log_buffer_by_id(ids[i]);
            proof {
                assert(rem.len() > 0);
                assert(rem[0] == idseq[i as int]);
                assert(rem.drop_first() =~= idseq.skip(i + 1));
                assert(spec_flush_all(pre, rem).0 == spec_flush_all(
                    self@,
                    idseq.skip(i + 1),
                ).0);
                assert(spec_flush_all(pre, rem).1 == spec_flush_one(pre, idseq[i as int]).1
                    + spec_flush_all(self@, idseq.skip(i + 1)).1);
            }
            let ghost out0 = out@;
            let ghost acts0 = acts@;
            out.append(&mut acts);
            proof {
                assert(action_views(out@) =~= action_views(out0) + action_views(acts0));
            }
            i += 1;
        }
        proof {
            assert(idseq.skip(n as int) =~= Seq::<u64>::empty());
            assert(spec_flush_all(self@, idseq.skip(n as int)).0 == self@);
            assert(spec_flush_all(self@, idseq.skip(n as int)).1 == Seq::<ActionModel>::empty());
            assert(action_views(out@) =~= action_views(out@) + Seq::<ActionModel>::empty());
            assert(final(self)@ == spec_flush_all(m1, idseq).0);
            lemma_flush_all_buffers(m1, idseq);
            assert(self@.buffers.dom() =~= Set::<u64>::empty());
            assert(self@.buffers =~= Map::<u64, Seq<MsgModel>>::empty());
        }
        out
    }
}

} // verus!
