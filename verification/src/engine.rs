//! The workflow engine's decisions: what an `agent()` call turns into, which step
//! a `phase()` call opens and closes, and how a run ends.
//!
//! The engine itself runs scripts elsewhere. [`Engine`] is told what the script
//! asked for and answers with the events to publish and what to start.

use vstd::prelude::*;

use crate::codex;
use crate::codex::{AgentSpec, SpecView};
use crate::event;
use crate::event::{AgentId, AgentStatus, AgentUpdate, AppEvent, EventView, StepId, StepStatus, UpdateView};
use crate::journal;
use crate::journal::{EntryView, FileRead, Journal, JournalEntry, JournalView, KeyInput, KeyView};
use crate::json;
use crate::registry;
use crate::registry::TypeFile;
use crate::text;
use crate::worktree::{WorktreeSpec, WorktreeView};

pub mod laws;
pub mod script;

verus! {

// ── What a script asks for ──

/// One `agent(prompt, opts)` call.
#[derive(Debug)]
pub struct JsAgentSpec {
    pub id: AgentId,
    pub label: String,
    pub step: StepId,
    pub prompt: String,
    pub model: Option<String>,
    pub sandbox: Option<String>,
    /// JSON Schema, as JSON text.
    pub schema: Option<String>,
    pub cwd: Option<String>,
    pub isolate: bool,
    /// Timeout in milliseconds; absent means unbounded.
    pub timeout_ms: Option<u64>,
    /// Registry agent type, whose body frames the prompt.
    pub agent_type: Option<String>,
    /// One-level nesting group; cosmetic, and no part of the journal key.
    pub group: Option<String>,
}

/// What a [`JsAgentSpec`] says.
#[verifier::ext_equal]
pub struct CallView {
    pub id: AgentId,
    pub label: Seq<char>,
    pub step: StepId,
    pub prompt: Seq<char>,
    pub model: Option<Seq<char>>,
    pub sandbox: Option<Seq<char>>,
    pub schema: Option<Seq<char>>,
    pub cwd: Option<Seq<char>>,
    pub isolate: bool,
    pub timeout_ms: Option<u64>,
    pub agent_type: Option<Seq<char>>,
    pub group: Option<Seq<char>>,
}

impl View for JsAgentSpec {
    type V = CallView;

    open spec fn view(&self) -> CallView {
        CallView {
            id: self.id,
            label: self.label@,
            step: self.step,
            prompt: self.prompt@,
            model: text::opt_text(self.model),
            sandbox: text::opt_text(self.sandbox),
            schema: text::opt_text(self.schema),
            cwd: text::opt_text(self.cwd),
            isolate: self.isolate,
            timeout_ms: self.timeout_ms,
            agent_type: text::opt_text(self.agent_type),
            group: text::opt_text(self.group),
        }
    }
}

/// A workflow's normalized `meta`.
#[derive(Debug)]
pub struct JsMeta {
    pub name: String,
    pub phases: Vec<String>,
}

// ── Step lifecycle ──

/// The step left when `new_step` is entered: the one before it, if any, since
/// steps are numbered densely from zero.
pub fn left_step(new_step: usize) -> (r: Option<usize>)
    ensures
        match r {
            Some(p) => new_step > 0 && p == new_step - 1,
            None => new_step == 0,
        },
{
    if new_step > 0 {
        Some(new_step - 1)
    } else {
        None
    }
}

/// The last step's terminal status when the run ends.
pub fn final_step_status(success: bool) -> (r: StepStatus)
    ensures
        r == if success {
            StepStatus::Done
        } else {
            StepStatus::Failed
        },
{
    if success {
        StepStatus::Done
    } else {
        StepStatus::Failed
    }
}

// ── Starting an agent ──

/// What an agent call that asks for both a worktree and a directory is told.
pub const ISOLATE_CONFLICT: &'static str =
    "agent opts: `isolate`/`isolation` and `cwd` are mutually exclusive — an isolated agent runs at its worktree root";

/// The prompt the agent is sent: its own, after the framing of its type.
pub open spec fn framed(framing: Option<Seq<char>>, prompt: Seq<char>) -> Seq<char> {
    match framing {
        Some(f) => f + "\n\n"@ + prompt,
        None => prompt,
    }
}

/// What identifies a call for the journal, `prompt` being the one actually sent.
pub open spec fn call_identity(c: CallView, prompt: Seq<char>) -> KeyView {
    KeyView {
        prompt,
        model: c.model,
        sandbox: c.sandbox,
        schema: c.schema,
        cwd: c.cwd,
        isolate: c.isolate,
    }
}

/// The key of a call in the journal.
pub open spec fn call_key(c: CallView, prompt: Seq<char>) -> Seq<char> {
    journal::key_of(call_identity(c, prompt))
}

/// The event that announces an agent.
pub open spec fn spawned(c: CallView, prompt: Seq<char>) -> EventView {
    EventView::AgentSpawned { id: c.id, step: c.step, label: c.label, prompt, group: c.group }
}

/// The events of a call answered from the journal.
pub open spec fn replayed(c: CallView, prompt: Seq<char>, hit: Seq<char>) -> Seq<EventView> {
    seq![
        spawned(c, prompt),
        EventView::Agent { id: c.id, update: UpdateView::Note("resumed from journal"@) },
        EventView::Agent { id: c.id, update: UpdateView::Final(hit) },
        EventView::Agent { id: c.id, update: UpdateView::Status(AgentStatus::Done) },
    ]
}

/// What becomes of an `agent()` call.
pub enum Plan {
    /// The call fails with this message.
    Refuse(String),
    /// The call is answered from the journal.
    Replay { events: Vec<AppEvent>, result: String },
    /// An agent is started; its result is filed under `key` and `occ`.
    Start { key: String, occ: u32, prompt: String },
}

/// What a [`Plan`] says.
pub enum PlanView {
    Refuse(Seq<char>),
    Replay { events: Seq<EventView>, result: Seq<char> },
    Start { key: Seq<char>, occ: u32, prompt: Seq<char> },
}

impl View for Plan {
    type V = PlanView;

    open spec fn view(&self) -> PlanView {
        match *self {
            Plan::Refuse(m) => PlanView::Refuse(m@),
            Plan::Replay { events, result } => PlanView::Replay {
                events: event::events_view(events@),
                result: result@,
            },
            Plan::Start { key, occ, prompt } => PlanView::Start {
                key: key@,
                occ,
                prompt: prompt@,
            },
        }
    }
}

/// What an [`Engine`] says.
#[verifier::ext_equal]
pub struct EngineView {
    pub budget_total: Option<u64>,
    pub journal: JournalView,
    /// How many steps have been entered.
    pub steps: u64,
    /// How many calls have been counted in the journal, as far as that can be
    /// numbered.
    pub calls: u64,
}

impl EngineView {
    /// No key has had more calls than there were, and steps can be numbered.
    pub open spec fn wf(self) -> bool {
        &&& self.steps <= usize::MAX
        &&& forall|key: Seq<char>| #[trigger] self.journal.count(key) <= self.calls
    }
}

/// The engine and its answer to a call whose type's framing, if it has a type, is
/// known. A call answered from the journal costs nothing, so the budget is looked
/// at only after that.
pub open spec fn framed_plan(
    v: EngineView,
    c: CallView,
    spent: u64,
    framing: Option<Seq<char>>,
) -> (EngineView, PlanView) {
    let prompt = framed(framing, c.prompt);
    let key = call_key(c, prompt);
    let occ = v.journal.count(key);
    let counted = EngineView {
        journal: v.journal.claimed(key),
        calls: if v.calls < u64::MAX {
            (v.calls + 1) as u64
        } else {
            v.calls
        },
        ..v
    };
    (
        counted,
        match v.journal.result(key, occ) {
            Some(hit) => PlanView::Replay { events: replayed(c, prompt, hit), result: hit },
            None => if codex::exceeded(v.budget_total, spent) {
                PlanView::Refuse(codex::refusal(v.budget_total, spent))
            } else {
                PlanView::Start { key, occ, prompt }
            },
        },
    )
}

/// The engine and its answer to a call. `framing` is what looking up the call's
/// type gave: nothing where it has none.
pub open spec fn agent_plan(
    v: EngineView,
    c: CallView,
    spent: u64,
    framing: Option<Result<Seq<char>, Seq<char>>>,
) -> (EngineView, PlanView) {
    if c.isolate && c.cwd is Some {
        (v, PlanView::Refuse(ISOLATE_CONFLICT@))
    } else {
        match framing {
            Some(Err(e)) => (v, PlanView::Refuse(e)),
            Some(Ok(f)) => framed_plan(v, c, spent, Some(f)),
            None => framed_plan(v, c, spent, None),
        }
    }
}

/// The key a call is counted under: none where it is refused before that.
pub open spec fn counted_key(
    c: CallView,
    framing: Option<Result<Seq<char>, Seq<char>>>,
) -> Option<Seq<char>> {
    if c.isolate && c.cwd is Some {
        None
    } else {
        match framing {
            Some(Err(_)) => None,
            Some(Ok(f)) => Some(call_key(c, framed(Some(f), c.prompt))),
            None => Some(call_key(c, c.prompt)),
        }
    }
}

/// The call, if it is counted at all, can still be numbered among those of its key.
pub open spec fn countable(
    v: EngineView,
    c: CallView,
    framing: Option<Result<Seq<char>, Seq<char>>>,
) -> bool {
    counted_key(c, framing) matches Some(key) ==> v.journal.count(key) < u32::MAX
}

/// What looking up a type gave.
pub open spec fn framing_view(f: Option<Result<String, String>>) -> Option<
    Result<Seq<char>, Seq<char>>,
> {
    match f {
        Some(r) => Some(text::result_text(r)),
        None => None,
    }
}

/// The run's journal, its budget, and its counters.
pub struct Engine {
    pub budget_total: Option<u64>,
    pub journal: Journal,
    pub steps: u64,
    pub calls: u64,
}

impl View for Engine {
    type V = EngineView;

    open spec fn view(&self) -> EngineView {
        EngineView {
            budget_total: self.budget_total,
            journal: self.journal@,
            steps: self.steps,
            calls: self.calls,
        }
    }
}

fn opt_as_str(o: &Option<String>) -> (r: Option<&str>)
    ensures
        text::opt_str(r) == text::opt_text(*o),
{
    match o {
        Some(s) => Some(s.as_str()),
        None => None,
    }
}

/// The event that announces an agent.
pub fn spawned_event(spec: &JsAgentSpec, prompt: &str) -> (r: AppEvent)
    ensures
        r@ == spawned(spec@, prompt@),
{
    AppEvent::AgentSpawned {
        id: spec.id,
        step: spec.step,
        label: spec.label.clone(),
        prompt: text::copied(prompt),
        group: text::copied_opt(&spec.group),
    }
}

fn replay_events(spec: &JsAgentSpec, prompt: &str, hit: &str) -> (r: Vec<AppEvent>)
    ensures
        event::events_view(r@) == replayed(spec@, prompt@, hit@),
{
    let mut r: Vec<AppEvent> = Vec::new();
    r.push(spawned_event(spec, prompt));
    r.push(
        AppEvent::Agent {
            id: spec.id,
            update: AgentUpdate::Note(text::copied("resumed from journal")),
        },
    );
    r.push(AppEvent::Agent { id: spec.id, update: AgentUpdate::Final(text::copied(hit)) });
    r.push(AppEvent::Agent { id: spec.id, update: AgentUpdate::Status(AgentStatus::Done) });
    assert(event::events_view(r@) =~= replayed(spec@, prompt@, hit@));
    r
}

impl Engine {
    /// An engine at the start of a run. The journal holds what an earlier run
    /// recorded, and no call has been counted yet.
    pub fn new(budget_total: Option<u64>, journal: Journal) -> (r: Self)
        requires
            journal@.seen == Map::<Seq<char>, u32>::empty(),
        ensures
            r@ == (EngineView { budget_total, journal: journal@, steps: 0, calls: 0 }),
            r@.wf(),
    {
        Engine { budget_total, journal, steps: 0, calls: 0 }
    }

    /// Whether any one more call can be counted, whatever its key.
    pub fn has_room(&self) -> (r: bool)
        ensures
            r == (self@.calls < u32::MAX),
            r && self@.wf() ==> forall|key: Seq<char>| #[trigger]
                self@.journal.count(key) < u32::MAX,
    {
        self.calls < 0xffff_ffff
    }

    /// Answer a call whose type's framing, if it has a type, is known.
    pub fn on_framed(
        &mut self,
        spec: &JsAgentSpec,
        spent: u64,
        framing: Option<Result<String, String>>,
    ) -> (r: Plan)
        requires
            old(self)@.wf(),
            countable(old(self)@, spec@, framing_view(framing)),
        ensures
            (final(self)@, r@) == agent_plan(old(self)@, spec@, spent, framing_view(framing)),
            final(self)@.wf(),
    {
        if spec.isolate && spec.cwd.is_some() {
            return Plan::Refuse(text::copied(ISOLATE_CONFLICT));
        }
        let prompt = match framing {
            Some(Err(e)) => {
                return Plan::Refuse(e);
            },
            Some(Ok(f)) => {
                let mut p = f;
                p.push_str("\n\n");
                p.push_str(spec.prompt.as_str());
                p
            },
            None => spec.prompt.clone(),
        };
        let input = KeyInput {
            prompt: prompt.as_str(),
            model: opt_as_str(&spec.model),
            sandbox: opt_as_str(&spec.sandbox),
            schema: opt_as_str(&spec.schema),
            cwd: opt_as_str(&spec.cwd),
            isolate: spec.isolate,
        };
        let key = journal::journal_key(&input);
        proof {
            assert(key@ == call_key(spec@, prompt@));
        }
        let occ: u32 = self.journal.occurrence(key.as_str());
        if self.calls < u64::MAX {
            self.calls = self.calls + 1;
        }
        proof {
            assert forall|k: Seq<char>| #[trigger] self@.journal.count(k) <= self@.calls by {
                assert(old(self)@.journal.count(k) <= old(self)@.calls);
            }
        }
        match self.journal.get(key.as_str(), occ) {
            Some(hit) => {
                let events = replay_events(spec, prompt.as_str(), hit);
                return Plan::Replay { events, result: text::copied(hit) };
            },
            None => {},
        }
        if codex::over_budget(self.budget_total, spent) {
            return Plan::Refuse(codex::budget_refusal(self.budget_total, spent));
        }
        Plan::Start { key, occ, prompt }
    }

    /// Answer an `agent()` call. The call's type, if it has one, is looked up
    /// first, `read` being asked for its file: the framed prompt is what
    /// identifies the call, so editing a type's file runs its agents again.
    pub fn on_agent<F: FnOnce(&str) -> TypeFile>(
        &mut self,
        spec: &JsAgentSpec,
        spent: u64,
        read: F,
    ) -> (r: Plan)
        requires
            old(self)@.wf(),
            spec.agent_type is None ==> countable(old(self)@, spec@, None),
            spec@.agent_type is Some && registry::valid_type(spec@.agent_type->0) ==> forall|
                name: &str,
                c: String,
            |
                name@ == spec@.agent_type->0 + ".md"@ && #[trigger] read.ensures(
                    (name,),
                    TypeFile::Text(c),
                ) ==> countable(
                    old(self)@,
                    spec@,
                    Some(Ok(text::trimmed(registry::stripped(c@)))),
                ),
            !(spec.isolate && spec.cwd is Some) && spec@.agent_type is Some && registry::valid_type(
                spec@.agent_type->0,
            ) ==> forall|name: &str|
                name@ == spec@.agent_type->0 + ".md"@ ==> #[trigger] read.requires((name,)),
        ensures
            final(self)@.wf(),
            (spec.isolate && spec.cwd is Some) || spec.agent_type is None ==> (final(self)@, r@)
                == agent_plan(old(self)@, spec@, spent, None),
            !(spec.isolate && spec.cwd is Some) && spec@.agent_type is Some
                && !registry::valid_type(spec@.agent_type->0) ==> (final(self)@, r@) == agent_plan(
                old(self)@,
                spec@,
                spent,
                Some(
                    Err(
                        "agentType "@ + text::debug_form(spec@.agent_type->0)
                            + ": invalid type name"@,
                    ),
                ),
            ),
            !(spec.isolate && spec.cwd is Some) && spec@.agent_type is Some && registry::valid_type(
                spec@.agent_type->0,
            ) ==> exists|name: &str, f: TypeFile|
                name@ == spec@.agent_type->0 + ".md"@ && #[trigger] read.ensures((name,), f) && (
                final(self)@,
                r@,
                ) == agent_plan(
                    old(self)@,
                    spec@,
                    spent,
                    Some(registry::framing(spec@.agent_type->0, f)),
                ),
    {
        if spec.isolate && spec.cwd.is_some() {
            return self.on_framed(spec, spent, None);
        }
        match &spec.agent_type {
            None => self.on_framed(spec, spent, None),
            Some(t) => {
                let found = registry::agent_system_prefix(t.as_str(), read);
                proof {
                    if registry::valid_type(t@) {
                        let (name, f) = choose|name: &str, f: TypeFile|
                            name@ == t@ + ".md"@ && #[trigger] read.ensures((name,), f)
                                && text::result_text(found) == registry::framing(t@, f);
                        if let TypeFile::Text(c) = f {
                            assert(read.ensures((name,), TypeFile::Text(c)));
                        }
                    }
                }
                self.on_framed(spec, spent, Some(found))
            },
        }
    }

    /// File an agent's result. `write` is handed the journal line; a failure to
    /// write it is announced under the agent's own id and does not fail the run.
    pub fn record_result<W: FnOnce(&str) -> Result<(), String>>(
        &mut self,
        id: AgentId,
        key: String,
        occ: u32,
        result: String,
        write: W,
    ) -> (r: Option<AppEvent>)
        requires
            old(self)@.journal.result(key@, occ) is None ==> forall|line: &str|
                line@ == journal::record_text(EntryView { key: key@, occ, result: result@ })
                    + "\n"@ ==> #[trigger] write.requires((line,)),
        ensures
            old(self)@.journal.result(key@, occ) is Some ==> r is None && final(self)@
                == old(self)@,
            old(self)@.journal.result(key@, occ) is None ==> exists|line: &str, out: Result<
                (),
                String,
            >|
                line@ == journal::record_text(EntryView { key: key@, occ, result: result@ })
                    + "\n"@ && #[trigger] write.ensures((line,), out) && match out {
                    Ok(_) => r is None && final(self)@ == (EngineView {
                        journal: old(self)@.journal.added(
                            EntryView { key: key@, occ, result: result@ },
                        ),
                        ..old(self)@
                    }),
                    Err(e) => final(self)@ == old(self)@ && (r matches Some(ev) && ev@
                        == (EventView::Agent {
                        id,
                        update: UpdateView::Note("journal append failed: "@ + e@),
                    })),
                },
            old(self)@.wf() ==> final(self)@.wf(),
    {
        match self.journal.append(key, occ, result, write) {
            Ok(_) => {
                proof {
                    if old(self)@.wf() {
                        assert forall|k: Seq<char>| #[trigger]
                            self@.journal.count(k) <= self@.calls by {
                            assert(old(self)@.journal.count(k) <= old(self)@.calls);
                        }
                    }
                }
                None
            },
            Err(e) => Some(
                AppEvent::Agent {
                    id,
                    update: AgentUpdate::Note(text::concat2("journal append failed: ", e.as_str())),
                },
            ),
        }
    }

    /// Whether one more step can be numbered.
    pub fn can_enter(&self) -> (r: bool)
        ensures
            r == (self@.steps < usize::MAX),
    {
        self.steps < usize::MAX as u64
    }

    /// Enter a new step: its number, and the events that close the step just left
    /// and open the new one.
    pub fn on_phase(&mut self, title: String) -> (r: (u64, Vec<AppEvent>))
        requires
            old(self)@.wf(),
            old(self)@.steps < usize::MAX,
        ensures
            final(self)@.wf(),
            r.0 == old(self)@.steps,
            event::events_view(r.1@) == phase_events(old(self)@.steps as usize, title@),
            final(self)@ == (EngineView { steps: (old(self)@.steps + 1) as u64, ..old(self)@ }),
    {
        let n: u64 = self.steps;
        let step: usize = n as usize;
        self.steps = n + 1;
        let mut events: Vec<AppEvent> = Vec::new();
        match left_step(step) {
            Some(prev) => {
                events.push(AppEvent::StepStatus { step: prev, status: StepStatus::Done });
            },
            None => {},
        }
        events.push(AppEvent::StepDeclared { step, title });
        events.push(AppEvent::StepStatus { step, status: StepStatus::Running });
        proof {
            assert(event::events_view(events@) =~= phase_events(step, title@));
            assert forall|k: Seq<char>| #[trigger] self@.journal.count(k) <= self@.calls by {
                assert(old(self)@.journal.count(k) <= old(self)@.calls);
            }
        }
        (n, events)
    }

    /// The event that closes the last step entered, by the run's outcome.
    pub fn on_end(&self, success: bool) -> (r: Option<AppEvent>)
        requires
            self@.wf(),
        ensures
            match r {
                None => self@.steps == 0,
                Some(ev) => self@.steps > 0 && ev@ == closing_event(
                    (self@.steps - 1) as usize,
                    success,
                ),
            },
    {
        let entered: usize = self.steps as usize;
        match left_step(entered) {
            Some(last) => Some(
                AppEvent::StepStatus { step: last, status: final_step_status(success) },
            ),
            None => None,
        }
    }
}

/// The events of entering a step.
pub open spec fn phase_events(step: usize, title: Seq<char>) -> Seq<EventView> {
    let opened = seq![
        EventView::StepDeclared { step, title },
        EventView::StepStatus { step, status: StepStatus::Running },
    ];
    if step == 0 {
        opened
    } else {
        seq![EventView::StepStatus { step: (step - 1) as usize, status: StepStatus::Done }]
            + opened
    }
}

/// The event that closes the last step.
pub open spec fn closing_event(step: usize, success: bool) -> EventView {
    EventView::StepStatus {
        step,
        status: if success {
            StepStatus::Done
        } else {
            StepStatus::Failed
        },
    }
}

/// What the runner is given for a call: the files it needs are named by now.
pub open spec fn launched(
    c: CallView,
    prompt: Seq<char>,
    schema_path: Option<Seq<char>>,
    workflow_dir: Seq<char>,
    temp_dir: Seq<char>,
) -> SpecView {
    SpecView {
        id: c.id,
        step: c.step,
        label: c.label,
        prompt,
        cwd: c.cwd,
        model: c.model,
        sandbox: c.sandbox,
        output_schema: schema_path,
        timeout_ms: c.timeout_ms,
        worktree: if c.isolate {
            Some(WorktreeView { repo: workflow_dir, base: temp_dir })
        } else {
            None
        },
    }
}

/// What the runner is given for a call. An isolated agent is told only what to
/// fork; the worktree is made once it may start.
pub fn launch(
    spec: JsAgentSpec,
    prompt: String,
    schema_path: Option<String>,
    workflow_dir: &str,
    temp_dir: &str,
) -> (r: AgentSpec)
    ensures
        r@ == launched(
            spec@,
            prompt@,
            text::opt_text(schema_path),
            workflow_dir@,
            temp_dir@,
        ),
{
    let worktree = if spec.isolate {
        Some(WorktreeSpec { repo: text::copied(workflow_dir), base: text::copied(temp_dir) })
    } else {
        None
    };
    let r = AgentSpec {
        id: spec.id,
        step: spec.step,
        label: spec.label,
        prompt,
        cwd: spec.cwd,
        model: spec.model,
        sandbox: spec.sandbox,
        output_schema: schema_path,
        timeout_ms: spec.timeout_ms,
        worktree,
    };
    assert(r@ =~= launched(
        spec@,
        prompt@,
        text::opt_text(schema_path),
        workflow_dir@,
        temp_dir@,
    ));
    r
}

/// The name of the file that holds a call's schema.
pub fn schema_file(id: AgentId) -> (r: String)
    ensures
        r@ == "schema-"@ + text::decimal(id as nat) + ".json"@,
{
    let mut r = text::copied("schema-");
    r.push_str(text::decimal_text(id as u128).as_str());
    r.push_str(".json");
    r
}

// ── Other requests ──

/// A narrator line: a note under the id that belongs to no agent.
pub fn log_event(message: String) -> (r: AppEvent)
    ensures
        r@ == (EventView::Agent { id: 0, update: UpdateView::Note(message@) }),
{
    AppEvent::Agent { id: 0, update: AgentUpdate::Note(message) }
}

/// The workflow's metadata, for the front-ends to draw up front. No step is
/// entered by it.
pub fn meta_event(meta: JsMeta) -> (r: AppEvent)
    ensures
        r@ == (EventView::RunMeta { name: meta.name@, phases: text::texts(meta.phases@) }),
{
    AppEvent::RunMeta { name: meta.name, phases: meta.phases }
}

/// The run's token target as a JSON number, or `null` without one.
pub fn budget_json(total: Option<u64>) -> (v: serde_json::Value)
    ensures
        json::json_text(v) == match total {
            Some(t) => text::decimal(t as nat),
            None => "null"@,
        },
{
    match total {
        Some(t) => json::number_json(t),
        None => json::null_json(),
    }
}

// ── The run's ends ──

/// The run's result: what the script left, or an error when it left nothing.
pub fn settle(slot: Option<Result<serde_json::Value, String>>) -> (r: Result<
    serde_json::Value,
    String,
>)
    ensures
        match slot {
            Some(out) => r == out,
            None => r matches Err(m) && m@ == "workflow produced no result"@,
        },
{
    match slot {
        Some(out) => out,
        None => Err(text::copied("workflow produced no result")),
    }
}

/// The event that reports the run's result.
pub fn done_event(result: &Result<serde_json::Value, String>) -> (r: AppEvent)
    ensures
        r@ == EventView::WorkflowDone(
            match *result {
                Ok(v) => Ok(json::json_text(v)),
                Err(e) => Err(e@),
            },
        ),
{
    match result {
        Ok(v) => AppEvent::WorkflowDone(Ok(json::write_json(v))),
        Err(e) => AppEvent::WorkflowDone(Err(e.clone())),
    }
}

/// The note about a journal that could not be read.
pub open spec fn unreadable_note(path: Seq<char>, error: Seq<char>) -> EventView {
    EventView::Agent {
        id: 0,
        update: UpdateView::Note(
            "journal "@ + path + " unreadable ("@ + error + "); starting fresh"@,
        ),
    }
}

/// The journal a run starts with. One that cannot be read is replaced by a fresh
/// one, and said so: a resume that silently ran everything again would defeat its
/// purpose.
pub fn open_journal<F: Fn(&str) -> Option<JournalEntry>>(path: &str, read: FileRead, decode: F) -> (
r: (Journal, Option<AppEvent>))
    requires
        read matches FileRead::Text(content) ==> forall|t: &str|
            journal::records(content@).contains(t@) ==> #[trigger] decode.requires((t,)),
    ensures
        r.0@.seen == Map::<Seq<char>, u32>::empty(),
        match read {
            FileRead::Failed(e) => r.0@ == JournalView::empty() && (r.1 matches Some(ev) && ev@
                == unreadable_note(path@, e@)),
            FileRead::Missing => r.0@ == JournalView::empty() && r.1 is None,
            FileRead::Text(content) => r.1 is None && exists|d: Seq<Option<JournalEntry>>|
                #[trigger] journal::decoded_by(decode, journal::records(content@), d)
                    && r.0@.cache == journal::cache_of(journal::entries_view(d)),
        },
{
    match Journal::load(read, decode) {
        Ok(j) => (j, None),
        Err(e) => {
            let mut m = text::copied("journal ");
            m.push_str(path);
            m.push_str(" unreadable (");
            m.push_str(e.as_str());
            m.push_str("); starting fresh");
            (Journal::new(), Some(AppEvent::Agent { id: 0, update: AgentUpdate::Note(m) }))
        },
    }
}

} // verus!
