//! What the terminal front-end shows, and how events and keys change it.

use vstd::prelude::*;

use crate::event;
use crate::event::{AgentId, AgentStatus, KeyCode, KeyEvent, StepId, StepStatus};
use crate::text;
use crate::tui::rows;
use crate::tui::rows::Row;

verus! {

/// Lines of detail kept per agent; older ones are dropped.
pub const MAX_DETAIL: usize = 2000;

#[derive(Debug, PartialEq, Eq, Clone, Copy, Structural)]
pub enum Focus {
    Steps,
    Agents,
    Detail,
}

/// One step as shown.
#[verifier::ext_equal]
pub struct StepView {
    pub title: Seq<char>,
    pub status: StepStatus,
}

/// Everything the front-end holds.
#[verifier::ext_equal]
pub struct AppView {
    pub steps: Seq<StepView>,
    pub agents: Seq<rows::AgentView>,
    pub by_id: Map<AgentId, usize>,
    pub step_agents: Seq<Seq<usize>>,
    pub focus: Focus,
    pub steps_sel: usize,
    pub agents_sel: usize,
    pub detail_scroll: usize,
    pub done: Option<Result<Seq<char>, Seq<char>>>,
    pub should_quit: bool,
    pub steps_ver: u64,
    pub detail_ver: u64,
    pub meta_name: Option<Seq<char>>,
    pub collapsed: Set<(StepId, Seq<char>)>,
    pub collapse_gen: u64,
    pub detail_agent: Option<usize>,
}

impl AppView {
    /// Nothing declared, nothing spawned, the Steps pane in focus.
    pub open spec fn initial() -> AppView {
        AppView {
            steps: Seq::empty(),
            agents: Seq::empty(),
            by_id: Map::empty(),
            step_agents: Seq::empty(),
            focus: Focus::Steps,
            steps_sel: 0,
            agents_sel: 0,
            detail_scroll: 0,
            done: None,
            should_quit: false,
            steps_ver: 0,
            detail_ver: 0,
            meta_name: None,
            collapsed: Set::empty(),
            collapse_gen: 0,
            detail_agent: None,
        }
    }

    /// `step_agents` lists, for each step, exactly its agents in spawn order.
    pub open spec fn indexed(self) -> bool {
        &&& self.steps.len() == self.step_agents.len()
        &&& forall|s: int, k: int|
            0 <= s < self.step_agents.len() && 0 <= k < self.step_agents[s].len() ==> {
                &&& (#[trigger] self.step_agents[s][k]) < self.agents.len()
                &&& self.agents[self.step_agents[s][k] as int].step == s
            }
        &&& forall|s: int, k: int, l: int|
            0 <= s < self.step_agents.len() && 0 <= k < l < self.step_agents[s].len()
                ==> #[trigger] self.step_agents[s][k] < #[trigger] self.step_agents[s][l]
        &&& forall|a: int|
            0 <= a < self.agents.len() ==> {
                &&& (#[trigger] self.agents[a]).step < self.step_agents.len()
                &&& self.step_agents[self.agents[a].step as int].contains(a as usize)
            }
    }

    /// What every reachable state satisfies.
    pub open spec fn wf(self) -> bool {
        &&& self.indexed()
        &&& self.agents.len() <= usize::MAX
        &&& forall|id: AgentId| #[trigger]
            self.by_id.contains_key(id) ==> self.by_id[id] < self.agents.len()
        &&& forall|a: int|
            0 <= a < self.agents.len() ==> (#[trigger] self.agents[a]).detail.len() <= MAX_DETAIL
        &&& self.steps_sel == 0 || self.steps_sel < self.steps.len()
        &&& self.detail_agent matches Some(i) ==> i < self.agents.len()
        &&& self.focus == Focus::Detail ==> self.detail_agent is Some
    }

    /// The agents of the selected step.
    pub open spec fn selected_agents(self) -> Seq<usize> {
        if self.steps_sel < self.step_agents.len() {
            self.step_agents[self.steps_sel as int]
        } else {
            Seq::empty()
        }
    }

    /// The visible rows of the Agents pane for the selected step.
    pub open spec fn rows(self) -> Seq<Row> {
        rows::visible_rows(
            self.agents,
            self.selected_agents(),
            rows::folded_in(self.collapsed, self.steps_sel),
        )
    }

    /// The row the Agents pane has selected, if the selection is in range.
    pub open spec fn selected_row(self) -> Option<Row> {
        if self.agents_sel < self.rows().len() {
            Some(self.rows()[self.agents_sel as int])
        } else {
            None
        }
    }
}

// ── Events ──

pub open spec fn blank_step() -> StepView {
    StepView { title: Seq::empty(), status: StepStatus::Pending }
}

/// `steps` with untitled pending steps added until there are at least `n`.
pub open spec fn grown_steps(steps: Seq<StepView>, n: nat) -> Seq<StepView> {
    if steps.len() >= n {
        steps
    } else {
        steps + Seq::new((n - steps.len()) as nat, |i: int| blank_step())
    }
}

/// The agent index with empty entries added until there are at least `n`.
pub open spec fn grown_index(ix: Seq<Seq<usize>>, n: nat) -> Seq<Seq<usize>> {
    if ix.len() >= n {
        ix
    } else {
        ix + Seq::new((n - ix.len()) as nat, |i: int| Seq::<usize>::empty())
    }
}

pub open spec fn after_step_declared(s: AppView, step: StepId, title: Seq<char>) -> AppView {
    let steps = grown_steps(s.steps, step as nat + 1);
    AppView {
        steps: steps.update(step as int, StepView { title, status: steps[step as int].status }),
        step_agents: grown_index(s.step_agents, step as nat + 1),
        steps_ver: (s.steps_ver + 1) as u64,
        ..s
    }
}

pub open spec fn after_step_status(s: AppView, step: StepId, status: StepStatus) -> AppView {
    AppView {
        steps: if step < s.steps.len() {
            s.steps.update(step as int, StepView { title: s.steps[step as int].title, status })
        } else {
            s.steps
        },
        steps_ver: (s.steps_ver + 1) as u64,
        ..s
    }
}

/// A freshly spawned agent: pending, with its prompt heading the detail log.
pub open spec fn new_agent(
    step: StepId,
    label: Seq<char>,
    prompt: Seq<char>,
    group: Option<Seq<char>>,
) -> rows::AgentView {
    rows::AgentView {
        step,
        label,
        group,
        status: AgentStatus::Pending,
        tokens_in: 0,
        tokens_out: 0,
        detail: seq![
            "-- INPUT (prompt) --------------------------"@,
            prompt,
            Seq::empty(),
            "-- STREAM ----------------------------------"@,
        ],
        last_note: None,
    }
}

/// A spawn before the selection is put back on its row: the agent is listed
/// under its step, which is created if nothing declared it.
pub open spec fn spawned(
    s: AppView,
    id: AgentId,
    step: StepId,
    label: Seq<char>,
    prompt: Seq<char>,
    group: Option<Seq<char>>,
) -> AppView {
    let idx = s.agents.len() as usize;
    let ix = grown_index(s.step_agents, step as nat + 1);
    AppView {
        steps: grown_steps(s.steps, step as nat + 1),
        agents: s.agents.push(new_agent(step, label, prompt, group)),
        by_id: s.by_id.insert(id, idx),
        step_agents: ix.update(step as int, ix[step as int].push(idx)),
        steps_ver: (s.steps_ver + 1) as u64,
        ..s
    }
}

/// `t` with the selection moved to where `row` first stands; unchanged if it
/// stands nowhere.
pub open spec fn reselected(t: AppView, row: Row) -> AppView {
    if t.rows().contains(row) {
        AppView { agents_sel: t.rows().index_of_first(row)->0 as usize, ..t }
    } else {
        t
    }
}

pub open spec fn after_agent_spawned(
    s: AppView,
    id: AgentId,
    step: StepId,
    label: Seq<char>,
    prompt: Seq<char>,
    group: Option<Seq<char>>,
) -> AppView {
    let t = spawned(s, id, step, label, prompt, group);
    match s.selected_row() {
        Some(row) if step == s.steps_sel => reselected(t, row),
        _ => t,
    }
}

/// The lines an update adds to its agent's detail log.
pub open spec fn detail_lines(u: event::UpdateView) -> Seq<Seq<char>> {
    match u {
        event::UpdateView::Status(_) => Seq::empty(),
        event::UpdateView::Tokens { input, output } => seq![
            "[tokens] in="@ + text::decimal(input as nat) + " out="@ + text::decimal(output as nat),
        ],
        event::UpdateView::Reasoning(t) => seq!["[reason] "@ + t],
        event::UpdateView::Command { command, output } => seq!["[cmd] "@ + command] + match output {
            Some(o) => indented(text::lines_of(o)),
            None => Seq::empty(),
        },
        event::UpdateView::FileChange(t) => seq!["[file] "@ + t],
        event::UpdateView::ToolCall(t) => seq!["[tool] "@ + t],
        event::UpdateView::WebSearch(t) => seq!["[web] "@ + t],
        event::UpdateView::Message(t) => seq!["[msg] "@ + t],
        event::UpdateView::Note(t) => seq!["[note] "@ + t],
        event::UpdateView::Final(t) => seq![
            Seq::empty(),
            "-- FINAL -----------------------------------"@,
            t,
        ],
    }
}

/// Each line set in by four blanks.
pub open spec fn indented(lines: Seq<Seq<char>>) -> Seq<Seq<char>> {
    Seq::new(lines.len(), |i: int| "    "@ + lines[i])
}

/// The last [`MAX_DETAIL`] lines.
pub open spec fn capped(detail: Seq<Seq<char>>) -> Seq<Seq<char>> {
    if detail.len() > MAX_DETAIL {
        detail.skip(detail.len() - MAX_DETAIL)
    } else {
        detail
    }
}

pub open spec fn updated_agent(a: rows::AgentView, u: event::UpdateView) -> rows::AgentView {
    rows::AgentView {
        status: match u {
            event::UpdateView::Status(st) => st,
            _ => a.status,
        },
        tokens_in: match u {
            event::UpdateView::Tokens { input, .. } => input,
            _ => a.tokens_in,
        },
        tokens_out: match u {
            event::UpdateView::Tokens { output, .. } => output,
            _ => a.tokens_out,
        },
        detail: capped(a.detail + detail_lines(u)),
        last_note: match u {
            event::UpdateView::Note(t) => Some(t),
            _ => a.last_note,
        },
        ..a
    }
}

/// Progress of agent `id`: narrator lines and unknown agents change nothing;
/// only the agent the Detail pane is pinned to invalidates that pane.
pub open spec fn after_agent_update(s: AppView, id: AgentId, u: event::UpdateView) -> AppView {
    if id == 0 || !s.by_id.contains_key(id) {
        s
    } else {
        let idx = s.by_id[id];
        AppView {
            agents: s.agents.update(idx as int, updated_agent(s.agents[idx as int], u)),
            detail_ver: if s.detail_agent == Some(idx) {
                (s.detail_ver + 1) as u64
            } else {
                s.detail_ver
            },
            ..s
        }
    }
}

/// Phase titles fill the steps that have none.
pub open spec fn titled_steps(steps: Seq<StepView>, phases: Seq<Seq<char>>) -> Seq<StepView> {
    let g = grown_steps(steps, phases.len());
    Seq::new(
        g.len(),
        |i: int|
            if i < phases.len() && g[i].title.len() == 0 {
                StepView { title: phases[i], status: g[i].status }
            } else {
                g[i]
            },
    )
}

pub open spec fn after_run_meta(s: AppView, name: Seq<char>, phases: Seq<Seq<char>>) -> AppView {
    AppView {
        meta_name: if name.len() > 0 {
            Some(name)
        } else {
            s.meta_name
        },
        steps: titled_steps(s.steps, phases),
        step_agents: grown_index(s.step_agents, phases.len()),
        steps_ver: (s.steps_ver + 1) as u64,
        ..s
    }
}

/// The state after an event.
pub open spec fn after_event(s: AppView, ev: event::EventView) -> AppView {
    match ev {
        event::EventView::StepDeclared { step, title } => after_step_declared(s, step, title),
        event::EventView::StepStatus { step, status } => after_step_status(s, step, status),
        event::EventView::AgentSpawned { id, step, label, prompt, group } => after_agent_spawned(
            s,
            id,
            step,
            label,
            prompt,
            group,
        ),
        event::EventView::Agent { id, update } => after_agent_update(s, id, update),
        event::EventView::RunMeta { name, phases } => after_run_meta(s, name, phases),
        event::EventView::WorkflowDone(r) => AppView { done: Some(r), ..s },
        event::EventView::EngineError(e) => AppView { done: Some(Err(e)), ..s },
        event::EventView::Key(_) => s,
        event::EventView::Render => s,
    }
}

/// The step an event names must leave room for one more.
pub open spec fn event_fits(ev: event::EventView) -> bool {
    match ev {
        event::EventView::StepDeclared { step, .. } => step < usize::MAX,
        event::EventView::AgentSpawned { step, .. } => step < usize::MAX,
        _ => true,
    }
}

/// The version an event moves, if it moves one, leaves room for one more.
pub open spec fn versions_fit(s: AppView, ev: event::EventView) -> bool {
    match ev {
        event::EventView::StepDeclared { .. } => s.steps_ver < u64::MAX,
        event::EventView::StepStatus { .. } => s.steps_ver < u64::MAX,
        event::EventView::AgentSpawned { .. } => s.steps_ver < u64::MAX,
        event::EventView::RunMeta { .. } => s.steps_ver < u64::MAX,
        event::EventView::Agent { id, .. } => id != 0 && s.by_id.contains_key(id)
            && s.detail_agent == Some(s.by_id[id]) ==> s.detail_ver < u64::MAX,
        _ => true,
    }
}

// ── Keys ──

pub open spec fn saturating_down(n: usize, by: nat) -> usize {
    if n < by {
        0
    } else {
        (n - by) as usize
    }
}

pub open spec fn saturating_up(n: usize, by: nat) -> usize {
    if n + by > usize::MAX {
        usize::MAX
    } else {
        (n + by) as usize
    }
}

/// The collapsed set with one group folded or unfolded.
pub open spec fn toggled(
    collapsed: Set<(StepId, Seq<char>)>,
    p: (StepId, Seq<char>),
) -> Set<(StepId, Seq<char>)> {
    if collapsed.contains(p) {
        collapsed.remove(p)
    } else {
        collapsed.insert(p)
    }
}

/// The name of the group whose first agent is `first`.
pub open spec fn group_name(s: AppView, first: usize) -> Seq<char> {
    match s.agents[first as int].group {
        Some(g) => g,
        None => Seq::empty(),
    }
}

/// Enter on a group header: fold or unfold it and keep the selection in range.
pub open spec fn after_toggle(s: AppView, first: usize) -> AppView {
    let t = AppView {
        collapsed: toggled(s.collapsed, (s.steps_sel, group_name(s, first))),
        collapse_gen: s.collapse_gen.wrapping_add(1),
        ..s
    };
    let last = if t.rows().len() == 0 {
        0
    } else {
        t.rows().len() - 1
    };
    AppView {
        agents_sel: if t.agents_sel <= last {
            t.agents_sel
        } else {
            last as usize
        },
        ..t
    }
}

/// Enter in the Agents pane: drill into an agent, or toggle a group.
pub open spec fn after_open(s: AppView) -> AppView {
    match s.selected_row() {
        Some(Row::Agent { idx }) => AppView {
            focus: Focus::Detail,
            detail_scroll: 0,
            detail_agent: Some(idx),
            ..s
        },
        Some(Row::Header { first }) => after_toggle(s, first),
        None => s,
    }
}

/// What a key does, before the panes are invalidated.
pub open spec fn key_effect(s: AppView, k: KeyEvent) -> AppView {
    if k.code == KeyCode::Char('q') || (k.code == KeyCode::Char('c') && k.control) {
        AppView { should_quit: true, ..s }
    } else {
        match (s.focus, k.code) {
            (Focus::Steps, KeyCode::Up) => AppView {
                steps_sel: saturating_down(s.steps_sel, 1),
                ..s
            },
            (Focus::Steps, KeyCode::Down) => if s.steps_sel + 1 < s.steps.len() {
                AppView { steps_sel: (s.steps_sel + 1) as usize, ..s }
            } else {
                s
            },
            (Focus::Steps, KeyCode::Right) | (Focus::Steps, KeyCode::Enter) => if s.selected_agents().len()
                > 0 {
                AppView { focus: Focus::Agents, agents_sel: 0, ..s }
            } else {
                s
            },
            (Focus::Agents, KeyCode::Up) => AppView {
                agents_sel: saturating_down(s.agents_sel, 1),
                ..s
            },
            (Focus::Agents, KeyCode::Down) => if s.agents_sel + 1 < s.rows().len() {
                AppView { agents_sel: (s.agents_sel + 1) as usize, ..s }
            } else {
                s
            },
            (Focus::Agents, KeyCode::Left) | (Focus::Agents, KeyCode::Esc) => AppView {
                focus: Focus::Steps,
                ..s
            },
            (Focus::Agents, KeyCode::Right) | (Focus::Agents, KeyCode::Enter) => after_open(s),
            (Focus::Detail, KeyCode::Left) | (Focus::Detail, KeyCode::Esc) => AppView {
                focus: Focus::Agents,
                ..s
            },
            (Focus::Detail, KeyCode::Up) => AppView {
                detail_scroll: saturating_down(s.detail_scroll, 1),
                ..s
            },
            (Focus::Detail, KeyCode::Down) => AppView {
                detail_scroll: saturating_up(s.detail_scroll, 1),
                ..s
            },
            (Focus::Detail, KeyCode::PageUp) => AppView {
                detail_scroll: saturating_down(s.detail_scroll, 10),
                ..s
            },
            (Focus::Detail, KeyCode::PageDown) => AppView {
                detail_scroll: saturating_up(s.detail_scroll, 10),
                ..s
            },
            (Focus::Detail, KeyCode::Home) => AppView { detail_scroll: 0, ..s },
            (Focus::Detail, KeyCode::End) => AppView { detail_scroll: usize::MAX, ..s },
            _ => s,
        }
    }
}

/// The inputs of the cached panes are the same. The scroll offset is not one of
/// them: it is applied to the cached lines at draw time.
pub open spec fn same_pane_inputs(s: AppView, t: AppView) -> bool {
    s.focus == t.focus && s.steps_sel == t.steps_sel && s.agents_sel == t.agents_sel
        && s.collapse_gen == t.collapse_gen
}

/// The state after a key.
pub open spec fn after_key(s: AppView, k: KeyEvent) -> AppView {
    let t = key_effect(s, k);
    if same_pane_inputs(s, t) {
        t
    } else {
        AppView {
            steps_ver: s.steps_ver.wrapping_add(1),
            detail_ver: s.detail_ver.wrapping_add(1),
            ..t
        }
    }
}

} // verus!
