//! Terminal front-end for a run: steps on the left, the agents of the selected
//! step on the right, and a scrollable detail view of one agent.
//!
//! Keys: Up/Down move; Right/Enter drill in (Steps, Agents, Detail); Left/Esc
//! go back; q quits. In Detail: Up/Down/PgUp/PgDn/Home/End scroll.

pub mod bench;
pub mod changes;
pub mod laws;
pub mod moves;
pub mod panes;
pub mod render;
pub mod rows;
pub mod session;
pub mod shows;
pub mod state;

use std::collections::HashMap;

use vstd::prelude::*;

use crate::event;
use crate::event::{
    AgentId, AgentStatus, AgentUpdate, AppEvent, KeyCode, KeyEvent, StepId, StepStatus,
};
use crate::text;

pub use crate::tui::rows::{AgentRow, Row};
pub use crate::tui::state::{Focus, MAX_DETAIL};

verus! {

/// Status of a group: any failed member fails it; otherwise it runs until every
/// member is done.
pub open spec fn rolled_up(statuses: Seq<AgentStatus>) -> AgentStatus {
    if exists|i: int| 0 <= i < statuses.len() && statuses[i] == AgentStatus::Failed {
        AgentStatus::Failed
    } else if statuses.len() > 0 && forall|i: int|
        0 <= i < statuses.len() ==> statuses[i] == AgentStatus::Done {
        AgentStatus::Done
    } else {
        AgentStatus::Running
    }
}

/// Roll the statuses of a group's members up into one.
pub fn rollup(statuses: &[AgentStatus]) -> (r: AgentStatus)
    ensures
        r == rolled_up(statuses@),
{
    let mut all_done: bool = true;
    let mut i: usize = 0;
    while i < statuses.len()
        invariant
            i <= statuses@.len(),
            forall|j: int| 0 <= j < i ==> statuses@[j] != AgentStatus::Failed,
            all_done == forall|j: int| 0 <= j < i ==> statuses@[j] == AgentStatus::Done,
        decreases statuses@.len() - i,
    {
        match statuses[i] {
            AgentStatus::Failed => {
                return AgentStatus::Failed;
            },
            AgentStatus::Done => {},
            _ => {
                assert(statuses@[i as int] != AgentStatus::Done);
                all_done = false;
            },
        }
        i += 1;
    }
    if statuses.len() > 0 && all_done {
        AgentStatus::Done
    } else {
        AgentStatus::Running
    }
}

/// One declared step.
pub struct StepRow {
    pub title: String,
    pub status: StepStatus,
}

impl View for StepRow {
    type V = state::StepView;

    open spec fn view(&self) -> state::StepView {
        state::StepView { title: self.title@, status: self.status }
    }
}

/// What a list of steps holds.
pub open spec fn steps_view(v: Seq<StepRow>) -> Seq<state::StepView> {
    Seq::new(v.len(), |i: int| v[i]@)
}

/// What the agent index holds.
pub open spec fn index_view(v: Seq<Vec<usize>>) -> Seq<Seq<usize>> {
    Seq::new(v.len(), |i: int| v[i]@)
}

/// No group is listed twice.
pub open spec fn listed_once(v: Seq<(StepId, String)>) -> bool {
    forall|i: int, j: int|
        0 <= i < j < v.len() ==> !((#[trigger] v[i]).0 == (#[trigger] v[j]).0 && v[i].1@ == v[j].1@)
}

/// The state of the front-end. Every change arrives as an event or a key.
pub struct App {
    pub steps: Vec<StepRow>,
    pub agents: Vec<AgentRow>,
    pub by_id: HashMap<AgentId, usize>,
    /// Agent indices by step, kept up to date so drawing never rescans all
    /// agents.
    pub step_agents: Vec<Vec<usize>>,
    pub focus: Focus,
    pub steps_sel: usize,
    pub agents_sel: usize,
    pub detail_scroll: usize,
    pub done: Option<Result<String, String>>,
    pub should_quit: bool,
    /// Bumped when the Steps pane must be rebuilt.
    pub steps_ver: u64,
    /// Bumped when the Detail pane must be rebuilt.
    pub detail_ver: u64,
    /// Workflow name, shown in the status bar.
    pub meta_name: Option<String>,
    /// Collapsed groups, each with its step.
    pub collapsed: Vec<(StepId, String)>,
    /// Bumped on every collapse or expansion.
    pub collapse_gen: u64,
    /// The agent the Detail pane is drilled into, pinned by index when it was
    /// opened: visible rows shift as agents spawn, the agent list only grows.
    pub detail_agent: Option<usize>,
}

/// The characters on whichever side of a finished run's result is present.
pub open spec fn done_view(d: Option<Result<String, String>>) -> Option<
    Result<Seq<char>, Seq<char>>,
> {
    match d {
        Some(r) => Some(text::result_text(r)),
        None => None,
    }
}

impl View for App {
    type V = state::AppView;

    open spec fn view(&self) -> state::AppView {
        state::AppView {
            steps: steps_view(self.steps@),
            agents: rows::agents_view(self.agents@),
            by_id: self.by_id@,
            step_agents: index_view(self.step_agents@),
            focus: self.focus,
            steps_sel: self.steps_sel,
            agents_sel: self.agents_sel,
            detail_scroll: self.detail_scroll,
            done: done_view(self.done),
            should_quit: self.should_quit,
            steps_ver: self.steps_ver,
            detail_ver: self.detail_ver,
            meta_name: text::opt_text(self.meta_name),
            collapsed: rows::collapsed_view(self.collapsed@),
            collapse_gen: self.collapse_gen,
            detail_agent: self.detail_agent,
        }
    }
}

impl AgentRow {
    /// Take in one progress item, keeping the detail log within its cap.
    pub fn absorb(&mut self, update: AgentUpdate)
        ensures
            final(self)@ == state::updated_agent(old(self)@, update@),
    {
        let ghost before = self@;
        let ghost u = update@;
        match update {
            AgentUpdate::Status(s) => {
                self.status = s;
                assert(self@.detail =~= before.detail + state::detail_lines(u));
            },
            AgentUpdate::Tokens { input, output } => {
                self.tokens_in = input;
                self.tokens_out = output;
                let mut l = text::copied("[tokens] in=");
                l.push_str(text::decimal_text(input as u128).as_str());
                l.push_str(" out=");
                l.push_str(text::decimal_text(output as u128).as_str());
                self.detail.push(l);
                assert(self@.detail =~= before.detail + state::detail_lines(u));
            },
            AgentUpdate::Reasoning(t) => {
                self.detail.push(text::concat2("[reason] ", t.as_str()));
                assert(self@.detail =~= before.detail + state::detail_lines(u));
            },
            AgentUpdate::Command { command, output } => {
                self.detail.push(text::concat2("[cmd] ", command.as_str()));
                let ghost head = self@.detail;
                match output {
                    Some(o) => {
                        let lines = text::split_lines(o.as_str());
                        let ghost all = text::texts(lines@);
                        let mut i: usize = 0;
                        while i < lines.len()
                            invariant
                                i <= lines@.len(),
                                all == text::texts(lines@),
                                self@ == (rows::AgentView {
                                    detail: head + state::indented(all.take(i as int)),
                                    ..before
                                }),
                            decreases lines@.len() - i,
                        {
                            let ghost cur = self@.detail;
                            self.detail.push(text::concat2("    ", lines[i].as_str()));
                            assert(self@.detail =~= cur.push("    "@ + all[i as int]));
                            assert(cur.push("    "@ + all[i as int]) =~= head + state::indented(
                                all.take(i as int + 1),
                            ));
                            i += 1;
                        }
                        assert(all.take(i as int) =~= all);
                        assert(self@.detail =~= before.detail + state::detail_lines(u));
                    },
                    None => {
                        assert(self@.detail =~= before.detail + state::detail_lines(u));
                    },
                }
            },
            AgentUpdate::FileChange(t) => {
                self.detail.push(text::concat2("[file] ", t.as_str()));
                assert(self@.detail =~= before.detail + state::detail_lines(u));
            },
            AgentUpdate::ToolCall(t) => {
                self.detail.push(text::concat2("[tool] ", t.as_str()));
                assert(self@.detail =~= before.detail + state::detail_lines(u));
            },
            AgentUpdate::WebSearch(t) => {
                self.detail.push(text::concat2("[web] ", t.as_str()));
                assert(self@.detail =~= before.detail + state::detail_lines(u));
            },
            AgentUpdate::Message(t) => {
                self.detail.push(text::concat2("[msg] ", t.as_str()));
                assert(self@.detail =~= before.detail + state::detail_lines(u));
            },
            AgentUpdate::Note(t) => {
                self.detail.push(text::concat2("[note] ", t.as_str()));
                self.last_note = Some(t);
                assert(self@.detail =~= before.detail + state::detail_lines(u));
            },
            AgentUpdate::Final(t) => {
                self.detail.push(String::new());
                self.detail.push(text::copied("-- FINAL -----------------------------------"));
                self.detail.push(t);
                assert(self@.detail =~= before.detail + state::detail_lines(u));
            },
        }
        let n: usize = self.detail.len();
        if n > MAX_DETAIL {
            let ghost full = self@.detail;
            let tail = self.detail.split_off(n - MAX_DETAIL);
            self.detail = tail;
            assert(self@.detail =~= full.skip(n - MAX_DETAIL));
        }
    }
}

impl App {
    /// The state is one that events and keys can reach, and no collapsed group
    /// is listed twice.
    pub open spec fn wf(&self) -> bool {
        &&& self@.wf()
        &&& listed_once(self.collapsed@)
    }

    pub fn new() -> (r: Self)
        ensures
            r.wf(),
            r@ == state::AppView::initial(),
    {
        let r = App {
            steps: Vec::new(),
            agents: Vec::new(),
            by_id: HashMap::new(),
            step_agents: Vec::new(),
            focus: Focus::Steps,
            steps_sel: 0,
            agents_sel: 0,
            detail_scroll: 0,
            done: None,
            should_quit: false,
            steps_ver: 0,
            detail_ver: 0,
            meta_name: None,
            collapsed: Vec::new(),
            collapse_gen: 0,
            detail_agent: None,
        };
        assert(r@ =~= state::AppView::initial());
        r
    }

    /// Agent indices of the selected step.
    pub fn agents_of_selected_step(&self) -> (r: &[usize])
        ensures
            r@ == self@.selected_agents(),
    {
        if self.steps_sel < self.step_agents.len() {
            self.step_agents[self.steps_sel].as_slice()
        } else {
            &[]
        }
    }

    /// Visible rows of the Agents pane for the selected step.
    pub fn rows_for_selected_step(&self) -> (r: Vec<Row>)
        requires
            self.wf(),
        ensures
            r@ == self@.rows(),
    {
        if self.steps_sel < self.step_agents.len() {
            assert(self@.step_agents[self.steps_sel as int] == self.step_agents@[self.steps_sel as int]@);
            assert forall|k: int|
                0 <= k < self.step_agents@[self.steps_sel as int]@.len() implies (
            #[trigger] self.step_agents@[self.steps_sel as int]@[k]) < self.agents@.len() by {
                assert(self@.step_agents[self.steps_sel as int][k] < self@.agents.len());
            }
            rows::derive_rows(
                &self.agents,
                &self.step_agents[self.steps_sel],
                &self.collapsed,
                self.steps_sel,
            )
        } else {
            Vec::new()
        }
    }

    /// The selected row of the Agents pane, if the selection is in range.
    fn row_under_selection(&self) -> (r: Option<Row>)
        requires
            self.wf(),
        ensures
            r == self@.selected_row(),
    {
        let rows = self.rows_for_selected_step();
        if self.agents_sel < rows.len() {
            Some(rows[self.agents_sel])
        } else {
            None
        }
    }

    /// Make sure at least `n` steps exist.
    fn grow_steps(&mut self, n: usize)
        ensures
            steps_view(final(self).steps@) == state::grown_steps(steps_view(old(self).steps@), n as nat),
            index_view(final(self).step_agents@) == state::grown_index(
                index_view(old(self).step_agents@),
                n as nat,
            ),
            *final(self) == (App {
                steps: final(self).steps,
                step_agents: final(self).step_agents,
                ..*old(self)
            }),
    {
        let ghost steps0 = steps_view(self.steps@);
        let ghost index0 = index_view(self.step_agents@);
        assert(steps0 =~= state::grown_steps(steps0, steps0.len()));
        while self.steps.len() < n
            invariant
                steps0 == steps_view(old(self).steps@),
                steps_view(self.steps@) == state::grown_steps(steps0, self.steps@.len()),
                self.steps@.len() <= n || self.steps@.len() == steps0.len(),
                self.steps@.len() >= steps0.len(),
                *self == (App { steps: self.steps, ..*old(self) }),
            decreases n - self.steps@.len(),
        {
            let ghost cur = steps_view(self.steps@);
            self.steps.push(StepRow { title: String::new(), status: StepStatus::Pending });
            assert(steps_view(self.steps@) =~= cur.push(state::blank_step()));
            assert(steps_view(self.steps@) =~= state::grown_steps(steps0, self.steps@.len()));
        }
        assert(steps_view(self.steps@) =~= state::grown_steps(steps0, n as nat));
        assert(index0 =~= state::grown_index(index0, index0.len()));
        let ghost mid = *self;
        while self.step_agents.len() < n
            invariant
                index0 == index_view(old(self).step_agents@),
                index_view(self.step_agents@) == state::grown_index(index0, self.step_agents@.len()),
                self.step_agents@.len() <= n || self.step_agents@.len() == index0.len(),
                self.step_agents@.len() >= index0.len(),
                *self == (App { step_agents: self.step_agents, ..mid }),
            decreases n - self.step_agents@.len(),
        {
            let ghost cur = index_view(self.step_agents@);
            self.step_agents.push(Vec::new());
            assert(index_view(self.step_agents@) =~= cur.push(Seq::<usize>::empty()));
            assert(index_view(self.step_agents@) =~= state::grown_index(
                index0,
                self.step_agents@.len(),
            ));
        }
        assert(index_view(self.step_agents@) =~= state::grown_index(index0, n as nat));
    }

    fn declare_step(&mut self, step: StepId, title: String)
        requires
            old(self).wf(),
            old(self).steps_ver < u64::MAX,
            step < usize::MAX,
        ensures
            final(self)@ == state::after_step_declared(old(self)@, step, title@),
            final(self).collapsed == old(self).collapsed,
    {
        self.grow_steps(step + 1);
        let ghost grown = steps_view(self.steps@);
        assert(grown.len() == self.steps@.len());
        assert(step < grown.len());
        self.steps[step].title = title;
        self.steps_ver = self.steps_ver + 1;
        assert(steps_view(self.steps@) =~= grown.update(
            step as int,
            state::StepView { title: title@, status: grown[step as int].status },
        ));
    }

    fn set_step_status(&mut self, step: StepId, status: StepStatus)
        requires
            old(self).steps_ver < u64::MAX,
        ensures
            final(self)@ == state::after_step_status(old(self)@, step, status),
            final(self).collapsed == old(self).collapsed,
    {
        if step < self.steps.len() {
            self.steps[step].status = status;
        }
        self.steps_ver = self.steps_ver + 1;
        assert(self@.steps =~= state::after_step_status(old(self)@, step, status).steps);
    }

    fn note_progress(&mut self, id: AgentId, update: AgentUpdate)
        requires
            old(self).wf(),
            id != 0 && old(self)@.by_id.contains_key(id) && old(self)@.detail_agent == Some(
                old(self)@.by_id[id],
            ) ==> old(self).detail_ver < u64::MAX,
        ensures
            final(self)@ == state::after_agent_update(old(self)@, id, update@),
            final(self).collapsed == old(self).collapsed,
    {
        if id == 0 {
            return ;
        }
        match self.by_id.get(&id) {
            None => {},
            Some(i) => {
                let idx: usize = *i;
                assert(self@.by_id.contains_key(id));
                let ghost agents0 = self@.agents;
                self.agents[idx].absorb(update);
                assert(self@.agents =~= agents0.update(
                    idx as int,
                    state::updated_agent(agents0[idx as int], update@),
                ));
                match self.detail_agent {
                    Some(pin) => {
                        if pin == idx {
                            self.detail_ver = self.detail_ver + 1;
                        }
                    },
                    None => {},
                }
            },
        }
    }

    fn declare_run(&mut self, name: String, phases: Vec<String>)
        requires
            old(self).wf(),
            old(self).steps_ver < u64::MAX,
        ensures
            final(self)@ == state::after_run_meta(old(self)@, name@, text::texts(phases@)),
            final(self).collapsed == old(self).collapsed,
    {
        let ghost titles = text::texts(phases@);
        let n: usize = phases.len();
        self.grow_steps(n);
        let ghost g = steps_view(self.steps@);
        let ghost grown = *self;
        let mut i: usize = 0;
        assert(g.len() == self.steps@.len());
        assert(g =~= state::titled_steps(g, titles.take(0)));
        while i < n
            invariant
                i <= n == phases@.len(),
                titles == text::texts(phases@),
                n <= g.len() == self.steps@.len(),
                g == steps_view(grown.steps@),
                *self == (App { steps: self.steps, ..grown }),
                steps_view(self.steps@) == state::titled_steps(g, titles.take(i as int)),
            decreases n - i,
        {
            let ghost cur = steps_view(self.steps@);
            let ghost next = state::titled_steps(g, titles.take(i as int + 1));
            assert(cur[i as int] == g[i as int]);
            assert(self.steps@[i as int]@ == g[i as int]);
            assert forall|j: int| 0 <= j < g.len() && j != i implies cur[j] == next[j] by {
                assert(titles.take(i as int + 1).len() == i + 1);
                if j < i {
                    assert(titles.take(i as int)[j] == titles.take(i as int + 1)[j]);
                }
            }
            if self.steps[i].title.as_str().is_empty() {
                self.steps[i].title = phases[i].clone();
                assert(steps_view(self.steps@)[i as int] == next[i as int]);
            }
            assert(steps_view(self.steps@) =~= next);
            i += 1;
        }
        assert(titles.take(n as int) =~= titles);
        assert(state::titled_steps(g, titles) =~= state::titled_steps(old(self)@.steps, titles));
        if !name.as_str().is_empty() {
            self.meta_name = Some(name);
        }
        self.steps_ver = self.steps_ver + 1;
    }

    fn spawn_agent(
        &mut self,
        id: AgentId,
        step: StepId,
        label: String,
        prompt: String,
        group: Option<String>,
    )
        requires
            old(self).wf(),
            old(self).steps_ver < u64::MAX,
            step < usize::MAX,
        ensures
            final(self)@ == state::after_agent_spawned(
                old(self)@,
                id,
                step,
                label@,
                prompt@,
                text::opt_text(group),
            ),
            final(self).collapsed == old(self).collapsed,
            old(self)@.agents.len() < usize::MAX,
    {
        let ghost s = self@;
        let ghost t = state::spawned(s, id, step, label@, prompt@, text::opt_text(group));
        // The row itself, not its position: a spawn into an earlier expanded
        // group inserts a row above the selection.
        let keep = if step == self.steps_sel {
            self.row_under_selection()
        } else {
            None
        };
        let idx: usize = self.agents.len();
        let mut detail: Vec<String> = Vec::new();
        detail.push(text::copied("-- INPUT (prompt) --------------------------"));
        detail.push(prompt);
        detail.push(String::new());
        detail.push(text::copied("-- STREAM ----------------------------------"));
        let row = AgentRow {
            step,
            label,
            group,
            status: AgentStatus::Pending,
            tokens_in: 0,
            tokens_out: 0,
            detail,
            last_note: None,
        };
        assert(row@ =~= state::new_agent(step, label@, prompt@, text::opt_text(group))) by {
            assert(row@.detail =~= state::new_agent(
                step,
                label@,
                prompt@,
                text::opt_text(group),
            ).detail);
        }
        self.agents.push(row);
        assert(self@.agents =~= t.agents);
        self.by_id.insert(id, idx);
        self.grow_steps(step + 1);
        let ghost grown = index_view(self.step_agents@);
        assert(grown.len() == self.step_agents@.len());
        self.step_agents[step].push(idx);
        assert(self@.step_agents =~= t.step_agents);
        self.steps_ver = self.steps_ver + 1;
        assert(self@ == t);
        assert(self.agents@.len() == self.agents.len());
        proof {
            laws::lemma_spawned_wf(s, id, step, label@, prompt@, text::opt_text(group));
        }
        match keep {
            Some(row) => {
                let rows = self.rows_for_selected_step();
                match rows::position_of(&rows, row) {
                    Some(i) => {
                        self.agents_sel = i;
                    },
                    None => {},
                }
            },
            None => {},
        }
    }

    /// Apply one event.
    pub fn apply(&mut self, ev: AppEvent)
        requires
            old(self).wf(),
            state::event_fits(ev@),
            state::versions_fit(old(self)@, ev@),
        ensures
            final(self).wf(),
            final(self)@ == state::after_event(old(self)@, ev@),
    {
        let ghost s = self@;
        let ghost e = ev@;
        match ev {
            AppEvent::StepDeclared { step, title } => {
                self.declare_step(step, title);
            },
            AppEvent::StepStatus { step, status } => {
                self.set_step_status(step, status);
            },
            AppEvent::AgentSpawned { id, step, label, prompt, group } => {
                self.spawn_agent(id, step, label, prompt, group);
                proof {
                    laws::law_event_keeps_wf(s, e);
                }
                return ;
            },
            AppEvent::Agent { id, update } => {
                self.note_progress(id, update);
            },
            AppEvent::RunMeta { name, phases } => {
                self.declare_run(name, phases);
            },
            AppEvent::WorkflowDone(r) => {
                self.done = Some(r);
            },
            AppEvent::EngineError(e) => {
                self.done = Some(Err(e));
            },
            AppEvent::Key(_) => {},
            AppEvent::Render => {},
        }
        proof {
            laws::lemma_event_keeps_wf_but_spawn(s, e);
        }
    }

    /// Fold or unfold the group `g` of the selected step.
    fn toggle_group(&mut self, g: String)
        requires
            listed_once(old(self).collapsed@),
        ensures
            listed_once(final(self).collapsed@),
            final(self)@ == (state::AppView {
                collapsed: state::toggled(old(self)@.collapsed, (old(self).steps_sel, g@)),
                ..old(self)@
            }),
    {
        let ghost v = self.collapsed@;
        let ghost p = (self.steps_sel, g@);
        let mut i: usize = 0;
        while i < self.collapsed.len()
            invariant
                i <= self.collapsed@.len(),
                self.collapsed@ == v,
                *self == *old(self),
                p == (self.steps_sel, g@),
                listed_once(v),
                forall|j: int| 0 <= j < i ==> !((#[trigger] v[j]).0 == p.0 && v[j].1@ == p.1),
            decreases self.collapsed@.len() - i,
        {
            if self.collapsed[i].0 == self.steps_sel && text::same_text(
                self.collapsed[i].1.as_str(),
                g.as_str(),
            ) {
                self.collapsed.remove(i);
                proof {
                    let w = self.collapsed@;
                    assert(v[i as int].0 == p.0);
                    assert(rows::collapsed_view(v).contains(p));
                    lemma_unlisted(v, i as int);
                    assert(rows::collapsed_view(w) =~= rows::collapsed_view(v).remove(p));
                }
                return ;
            }
            i += 1;
        }
        self.collapsed.push((self.steps_sel, g));
        proof {
            let w = self.collapsed@;
            assert(!rows::collapsed_view(v).contains(p));
            assert forall|q: (StepId, Seq<char>)| rows::collapsed_view(w).contains(q) == (
            rows::collapsed_view(v).contains(q) || q == p) by {
                if rows::collapsed_view(v).contains(q) {
                    let k = choose|k: int|
                        0 <= k < v.len() && (#[trigger] v[k]).0 == q.0 && v[k].1@ == q.1;
                    assert(w[k] == v[k]);
                }
                assert(w[v.len() as int].0 == p.0 && w[v.len() as int].1@ == p.1);
            }
            assert(rows::collapsed_view(w) =~= rows::collapsed_view(v).insert(p));
        }
    }

    /// Right or Enter in the Agents pane.
    fn open_selection(&mut self)
        requires
            old(self).wf(),
        ensures
            listed_once(final(self).collapsed@),
            final(self)@ == state::after_open(old(self)@),
    {
        let ghost s = self@;
        proof {
            if s.agents_sel < s.rows().len() {
                laws::law_rows_point_at_agents(s, s.agents_sel as int);
            }
        }
        match self.row_under_selection() {
            Some(Row::Agent { idx }) => {
                self.focus = Focus::Detail;
                self.detail_scroll = 0;
                self.detail_agent = Some(idx);
            },
            Some(Row::Header { first }) => {
                let g = match &self.agents[first].group {
                    Some(g) => g.clone(),
                    None => String::new(),
                };
                assert(g@ == state::group_name(s, first));
                self.toggle_group(g);
                self.collapse_gen = self.collapse_gen.wrapping_add(1);
                proof {
                    laws::lemma_same_index(s, self@);
                }
                let n: usize = self.rows_for_selected_step().len();
                let last: usize = if n == 0 {
                    0
                } else {
                    n - 1
                };
                if self.agents_sel > last {
                    self.agents_sel = last;
                }
            },
            None => {},
        }
    }

    /// React to one key.
    pub fn on_key(&mut self, k: KeyEvent)
        requires
            old(self).wf(),
        ensures
            final(self).wf(),
            final(self)@ == state::after_key(old(self)@, k),
    {
        let ghost s = self@;
        let focus = self.focus;
        let steps_sel: usize = self.steps_sel;
        let agents_sel: usize = self.agents_sel;
        let collapse_gen: u64 = self.collapse_gen;
        self.dispatch_key(k);
        if self.focus != focus || self.steps_sel != steps_sel || self.agents_sel != agents_sel
            || self.collapse_gen != collapse_gen {
            self.steps_ver = self.steps_ver.wrapping_add(1);
            self.detail_ver = self.detail_ver.wrapping_add(1);
        }
        proof {
            laws::law_key_keeps_wf(s, k);
        }
    }

    fn dispatch_key(&mut self, k: KeyEvent)
        requires
            old(self).wf(),
        ensures
            listed_once(final(self).collapsed@),
            final(self)@ == state::key_effect(old(self)@, k),
    {
        match (self.focus, k.code) {
            (_, KeyCode::Char('q')) => {
                self.should_quit = true;
            },
            (_, KeyCode::Char('c')) => {
                if k.control {
                    self.should_quit = true;
                }
            },
            (Focus::Steps, KeyCode::Up) => {
                self.steps_sel = self.steps_sel.saturating_sub(1);
            },
            (Focus::Steps, KeyCode::Down) => {
                let n: usize = self.steps.len();
                if n > 0 && self.steps_sel < n - 1 {
                    self.steps_sel = self.steps_sel + 1;
                }
            },
            (Focus::Steps, KeyCode::Right) | (Focus::Steps, KeyCode::Enter) => {
                if self.agents_of_selected_step().len() > 0 {
                    self.focus = Focus::Agents;
                    self.agents_sel = 0;
                }
            },
            (Focus::Agents, KeyCode::Up) => {
                self.agents_sel = self.agents_sel.saturating_sub(1);
            },
            (Focus::Agents, KeyCode::Down) => {
                // Bounded by visible rows: headers lengthen the list, collapsed
                // groups shorten it.
                let n: usize = self.rows_for_selected_step().len();
                if n > 0 && self.agents_sel < n - 1 {
                    self.agents_sel = self.agents_sel + 1;
                }
            },
            (Focus::Agents, KeyCode::Left) | (Focus::Agents, KeyCode::Esc) => {
                self.focus = Focus::Steps;
            },
            (Focus::Agents, KeyCode::Right) | (Focus::Agents, KeyCode::Enter) => {
                self.open_selection();
            },
            (Focus::Detail, KeyCode::Left) | (Focus::Detail, KeyCode::Esc) => {
                self.focus = Focus::Agents;
            },
            (Focus::Detail, KeyCode::Up) => {
                self.detail_scroll = self.detail_scroll.saturating_sub(1);
            },
            (Focus::Detail, KeyCode::Down) => {
                self.detail_scroll = self.detail_scroll.saturating_add(1);
            },
            (Focus::Detail, KeyCode::PageUp) => {
                self.detail_scroll = self.detail_scroll.saturating_sub(10);
            },
            (Focus::Detail, KeyCode::PageDown) => {
                self.detail_scroll = self.detail_scroll.saturating_add(10);
            },
            (Focus::Detail, KeyCode::Home) => {
                self.detail_scroll = 0;
            },
            (Focus::Detail, KeyCode::End) => {
                self.detail_scroll = usize::MAX;
            },
            _ => {},
        }
    }
}

/// Taking one entry out of a list without repeats takes its group out of the set.
proof fn lemma_unlisted(v: Seq<(StepId, String)>, i: int)
    requires
        listed_once(v),
        0 <= i < v.len(),
    ensures
        listed_once(v.remove(i)),
        forall|q: (StepId, Seq<char>)| #[trigger]
            rows::collapsed_view(v.remove(i)).contains(q) == (rows::collapsed_view(v).contains(q)
                && q != (v[i].0, v[i].1@)),
{
    let w = v.remove(i);
    let p = (v[i].0, v[i].1@);
    assert forall|a: int, b: int| 0 <= a < b < w.len() implies !((#[trigger] w[a]).0 == (
    #[trigger] w[b]).0 && w[a].1@ == w[b].1@) by {
        let a2 = if a < i { a } else { a + 1 };
        let b2 = if b < i { b } else { b + 1 };
        assert(w[a] == v[a2] && w[b] == v[b2]);
    }
    assert forall|q: (StepId, Seq<char>)| #[trigger] rows::collapsed_view(w).contains(q) == (
    rows::collapsed_view(v).contains(q) && q != p) by {
        if rows::collapsed_view(w).contains(q) {
            let k = choose|k: int|
                0 <= k < w.len() && (#[trigger] w[k]).0 == q.0 && w[k].1@ == q.1;
            let k2 = if k < i { k } else { k + 1 };
            assert(v[k2] == w[k]);
            if k2 < i {
                assert(!(v[k2].0 == v[i].0 && v[k2].1@ == v[i].1@));
            } else {
                assert(!(v[i].0 == v[k2].0 && v[i].1@ == v[k2].1@));
            }
        }
        if rows::collapsed_view(v).contains(q) && q != p {
            let k = choose|k: int|
                0 <= k < v.len() && (#[trigger] v[k]).0 == q.0 && v[k].1@ == q.1;
            let k2 = if k < i { k } else { k - 1 };
            assert(w[k2] == v[k]);
        }
    }
}

} // verus!
