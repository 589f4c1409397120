//! What holds of every state the front-end can reach, and across its steps.

use vstd::prelude::*;

use crate::event;
use crate::event::{AgentId, KeyEvent, StepId};
use crate::tui::rows;
use crate::tui::rows::Row;
use crate::tui::state;

verus! {

// ── Rows ──

/// The members of a group are among the agents given, and all of that group.
pub proof fn lemma_members(agents: Seq<rows::AgentView>, idxs: Seq<usize>, g: Seq<char>)
    ensures
        forall|i: int|
            0 <= i < rows::members(agents, idxs, g).len() ==> {
                &&& idxs.contains(#[trigger] rows::members(agents, idxs, g)[i])
                &&& agents[rows::members(agents, idxs, g)[i] as int].group == Some(g)
            },
    decreases idxs.len(),
{
    if idxs.len() > 0 {
        let head = idxs.drop_last();
        lemma_members(agents, head, g);
        let m = rows::members(agents, idxs, g);
        assert forall|i: int| 0 <= i < m.len() implies idxs.contains(#[trigger] m[i])
            && agents[m[i] as int].group == Some(g) by {
            let mh = rows::members(agents, head, g);
            if i < mh.len() {
                assert(m[i] == mh[i]);
                let k = choose|k: int| 0 <= k < head.len() && head[k] == mh[i];
                assert(idxs[k] == m[i]);
            } else {
                assert(m[i] == idxs.last());
                assert(idxs[idxs.len() - 1] == m[i]);
            }
        }
    }
}

/// A visible row points at an agent that was given; a header at one with a group.
pub open spec fn row_valid(agents: Seq<rows::AgentView>, idxs: Seq<usize>, r: Row) -> bool {
    match r {
        Row::Agent { idx } => idxs.contains(idx),
        Row::Header { first } => idxs.contains(first) && agents[first as int].group is Some,
    }
}

pub proof fn lemma_rows_upto_valid(
    agents: Seq<rows::AgentView>,
    idxs: Seq<usize>,
    folded: Set<Seq<char>>,
    n: nat,
)
    requires
        n <= idxs.len(),
    ensures
        forall|i: int|
            0 <= i < rows::rows_upto(agents, idxs, folded, n).len() ==> row_valid(
                agents,
                idxs,
                #[trigger] rows::rows_upto(agents, idxs, folded, n)[i],
            ),
    decreases n,
{
    if n > 0 {
        let m = (n - 1) as nat;
        lemma_rows_upto_valid(agents, idxs, folded, m);
        let before = rows::rows_upto(agents, idxs, folded, m);
        let block = rows::row_block(agents, idxs, folded, m as int);
        let all = rows::rows_upto(agents, idxs, folded, n);
        assert(idxs.contains(idxs[m as int]));
        if let Some(g) = agents[idxs[m as int] as int].group {
            lemma_members(agents, idxs, g);
        }
        assert forall|i: int| 0 <= i < all.len() implies row_valid(
            agents,
            idxs,
            #[trigger] all[i],
        ) by {
            if i < before.len() {
                assert(all[i] == before[i]);
            } else {
                let j = i - before.len();
                assert(all[i] == block[j]);
                if let Some(g) = agents[idxs[m as int] as int].group {
                    if j > 0 {
                        assert(block[j] == Row::Agent { idx: rows::members(agents, idxs, g)[j - 1] });
                    }
                }
            }
        }
    }
}

/// Every visible row of a reachable state points at an existing agent, and a
/// header at one that carries a group name.
pub proof fn law_rows_point_at_agents(s: state::AppView, i: int)
    requires
        s.wf(),
        0 <= i < s.rows().len(),
    ensures
        match s.rows()[i] {
            Row::Agent { idx } => idx < s.agents.len() && s.agents[idx as int].step == s.steps_sel,
            Row::Header { first } => first < s.agents.len() && s.agents[first as int].step
                == s.steps_sel && s.agents[first as int].group is Some,
        },
{
    let idxs = s.selected_agents();
    let folded = rows::folded_in(s.collapsed, s.steps_sel);
    lemma_rows_upto_valid(s.agents, idxs, folded, idxs.len());
    let r = s.rows()[i];
    assert(row_valid(s.agents, idxs, r));
    let a = match r {
        Row::Agent { idx } => idx,
        Row::Header { first } => first,
    };
    let k = choose|k: int| 0 <= k < idxs.len() && idxs[k] == a;
    assert(s.step_agents[s.steps_sel as int][k] == a);
}

// ── Reachable states ──

/// Growing the step list keeps the index in step with it.
pub proof fn lemma_grown_indexed(s: state::AppView, n: nat)
    requires
        s.indexed(),
    ensures
        ({
            let t = state::AppView {
                steps: state::grown_steps(s.steps, n),
                step_agents: state::grown_index(s.step_agents, n),
                ..s
            };
            t.indexed() && t.steps.len() >= n && t.steps.len() >= s.steps.len()
        }),
{
    let ix = state::grown_index(s.step_agents, n);
    assert forall|a: int| 0 <= a < s.agents.len() implies {
        &&& (#[trigger] s.agents[a]).step < ix.len()
        &&& ix[s.agents[a].step as int].contains(a as usize)
    } by {
        assert(ix[s.agents[a].step as int] == s.step_agents[s.agents[a].step as int]);
    }
    assert forall|st: int, k: int| 0 <= st < ix.len() && 0 <= k < ix[st].len() implies {
        &&& (#[trigger] ix[st][k]) < s.agents.len()
        &&& s.agents[ix[st][k] as int].step == st
    } by {
        assert(st < s.step_agents.len());
        assert(s.step_agents[st][k] == ix[st][k]);
    }
    assert forall|st: int, k: int, l: int|
        0 <= st < ix.len() && 0 <= k < l < ix[st].len() implies #[trigger] ix[st][k]
        < #[trigger] ix[st][l] by {
        assert(st < s.step_agents.len());
        assert(s.step_agents[st][k] < s.step_agents[st][l]);
    }
}

/// A spawn leaves a reachable state.
pub proof fn lemma_spawned_wf(
    s: state::AppView,
    id: AgentId,
    step: StepId,
    label: Seq<char>,
    prompt: Seq<char>,
    group: Option<Seq<char>>,
)
    requires
        s.wf(),
        s.agents.len() < usize::MAX,
        step < usize::MAX,
    ensures
        state::spawned(s, id, step, label, prompt, group).wf(),
{
    let t = state::spawned(s, id, step, label, prompt, group);
    let idx = s.agents.len() as usize;
    let g = state::grown_index(s.step_agents, step as nat + 1);
    lemma_grown_indexed(s, step as nat + 1);
    let gs = state::AppView {
        steps: state::grown_steps(s.steps, step as nat + 1),
        step_agents: g,
        ..s
    };
    assert(gs.indexed());
    assert forall|a: int| 0 <= a < t.agents.len() implies {
        &&& (#[trigger] t.agents[a]).step < t.step_agents.len()
        &&& t.step_agents[t.agents[a].step as int].contains(a as usize)
    } by {
        if a < s.agents.len() {
            assert(gs.agents[a] == t.agents[a]);
            let st = t.agents[a].step as int;
            let k = choose|k: int| 0 <= k < g[st].len() && g[st][k] == a as usize;
            assert(t.step_agents[st][k] == a as usize);
        } else {
            let k = g[step as int].len() as int;
            assert(t.step_agents[step as int][k] == idx);
        }
    }
    assert forall|st: int, k: int|
        0 <= st < t.step_agents.len() && 0 <= k < t.step_agents[st].len() implies {
        &&& (#[trigger] t.step_agents[st][k]) < t.agents.len()
        &&& t.agents[t.step_agents[st][k] as int].step == st
    } by {
        if st == step && k == g[st].len() {
        } else {
            assert(gs.step_agents[st][k] == t.step_agents[st][k]);
        }
    }
    assert forall|st: int, k: int, l: int|
        0 <= st < t.step_agents.len() && 0 <= k < l < t.step_agents[st].len() implies #[trigger] t.step_agents[st][k]
        < #[trigger] t.step_agents[st][l] by {
        assert(gs.step_agents[st][k] == t.step_agents[st][k]);
        if l < g[st].len() {
            assert(gs.step_agents[st][l] == t.step_agents[st][l]);
        } else {
            assert(t.step_agents[st][l] == idx);
        }
    }
    assert forall|a: int| 0 <= a < t.agents.len() implies (#[trigger] t.agents[a]).detail.len()
        <= state::MAX_DETAIL by {
        if a < s.agents.len() {
            assert(t.agents[a] == s.agents[a]);
        }
    }
}

/// Every event leads from a reachable state to a reachable one.
pub proof fn law_event_keeps_wf(s: state::AppView, ev: event::EventView)
    requires
        s.wf(),
        s.agents.len() < usize::MAX,
        state::event_fits(ev),
    ensures
        state::after_event(s, ev).wf(),
{
    match ev {
        event::EventView::AgentSpawned { id, step, label, prompt, group } => {
            lemma_spawned_wf(s, id, step, label, prompt, group);
            lemma_same_index(
                state::spawned(s, id, step, label, prompt, group),
                state::after_event(s, ev),
            );
        },
        _ => {
            lemma_event_keeps_wf_but_spawn(s, ev);
        },
    }
}

/// Events that spawn no agent keep a state reachable.
pub proof fn lemma_event_keeps_wf_but_spawn(s: state::AppView, ev: event::EventView)
    requires
        s.wf(),
        state::event_fits(ev),
        !(ev is AgentSpawned),
    ensures
        state::after_event(s, ev).wf(),
{
    match ev {
        event::EventView::StepDeclared { step, title } => {
            lemma_grown_indexed(s, step as nat + 1);
            lemma_same_index(
                state::AppView {
                    steps: state::grown_steps(s.steps, step as nat + 1),
                    step_agents: state::grown_index(s.step_agents, step as nat + 1),
                    ..s
                },
                state::after_event(s, ev),
            );
        },
        event::EventView::StepStatus { .. } => {
            lemma_same_index(s, state::after_event(s, ev));
        },
        event::EventView::Agent { id, update } => {
            if id != 0 && s.by_id.contains_key(id) {
                let idx = s.by_id[id] as int;
                let t = state::after_event(s, ev);
                assert forall|a: int| 0 <= a < t.agents.len() implies (
                #[trigger] t.agents[a]).detail.len() <= state::MAX_DETAIL && t.agents[a].step
                    == s.agents[a].step by {
                    if a != idx {
                        assert(t.agents[a] == s.agents[a]);
                    }
                }
                lemma_same_index(s, t);
            }
        },
        event::EventView::RunMeta { name, phases } => {
            lemma_grown_indexed(s, phases.len());
            lemma_same_index(
                state::AppView {
                    steps: state::grown_steps(s.steps, phases.len()),
                    step_agents: state::grown_index(s.step_agents, phases.len()),
                    ..s
                },
                state::after_event(s, ev),
            );
        },
        _ => {},
    }
}

/// The index stays right when no agent changes its step.
pub proof fn lemma_same_index(s: state::AppView, t: state::AppView)
    requires
        s.indexed(),
        t.steps.len() == s.steps.len(),
        t.step_agents == s.step_agents,
        t.agents.len() == s.agents.len(),
        forall|a: int| 0 <= a < s.agents.len() ==> (#[trigger] t.agents[a]).step == s.agents[a].step,
    ensures
        t.indexed(),
{
    assert forall|a: int| 0 <= a < t.agents.len() implies {
        &&& (#[trigger] t.agents[a]).step < t.step_agents.len()
        &&& t.step_agents[t.agents[a].step as int].contains(a as usize)
    } by {
        assert(s.agents[a].step == t.agents[a].step);
    }
    assert forall|st: int, k: int|
        0 <= st < t.step_agents.len() && 0 <= k < t.step_agents[st].len() implies {
        &&& (#[trigger] t.step_agents[st][k]) < t.agents.len()
        &&& t.agents[t.step_agents[st][k] as int].step == st
    } by {
        assert(s.step_agents[st][k] < s.agents.len());
    }
}

/// Every key leads from a reachable state to a reachable one.
pub proof fn law_key_keeps_wf(s: state::AppView, k: KeyEvent)
    requires
        s.wf(),
    ensures
        state::after_key(s, k).wf(),
{
    if s.agents_sel < s.rows().len() {
        law_rows_point_at_agents(s, s.agents_sel as int);
    }
    lemma_same_index(s, state::after_key(s, k));
}

// ── Which rows are visible ──

/// A row is visible exactly when some agent's block brings it.
pub proof fn lemma_rows_upto_contains(
    agents: Seq<rows::AgentView>,
    idxs: Seq<usize>,
    folded: Set<Seq<char>>,
    n: nat,
    r: Row,
)
    ensures
        rows::rows_upto(agents, idxs, folded, n).contains(r) <==> exists|p: int|
            0 <= p < n && (#[trigger] rows::row_block(agents, idxs, folded, p)).contains(r),
    decreases n,
{
    if n > 0 {
        let m = (n - 1) as nat;
        lemma_rows_upto_contains(agents, idxs, folded, m, r);
        let before = rows::rows_upto(agents, idxs, folded, m);
        let block = rows::row_block(agents, idxs, folded, m as int);
        let all = rows::rows_upto(agents, idxs, folded, n);
        assert(all == before + block);
        if all.contains(r) {
            let i = choose|i: int| 0 <= i < all.len() && all[i] == r;
            if i < before.len() {
                assert(before[i] == r);
                assert(before.contains(r));
            } else {
                assert(block[i - before.len()] == r);
                assert(rows::row_block(agents, idxs, folded, m as int).contains(r));
            }
        }
        if exists|p: int|
            0 <= p < n && (#[trigger] rows::row_block(agents, idxs, folded, p)).contains(r) {
            let p = choose|p: int|
                0 <= p < n && (#[trigger] rows::row_block(agents, idxs, folded, p)).contains(r);
            if p == m {
                let j = choose|j: int| 0 <= j < block.len() && block[j] == r;
                assert(all[before.len() + j] == r);
            } else {
                assert(before.contains(r));
                let j = choose|j: int| 0 <= j < before.len() && before[j] == r;
                assert(all[j] == r);
            }
        }
    }
}

/// Every agent of group `g` among `idxs` is a member of it.
pub proof fn lemma_members_complete(
    agents: Seq<rows::AgentView>,
    idxs: Seq<usize>,
    g: Seq<char>,
    p: int,
)
    requires
        0 <= p < idxs.len(),
        agents[idxs[p] as int].group == Some(g),
    ensures
        rows::members(agents, idxs, g).contains(idxs[p]),
    decreases idxs.len(),
{
    let head = idxs.drop_last();
    let m = rows::members(agents, idxs, g);
    if p == idxs.len() - 1 {
        assert(m.last() == idxs[p]);
        assert(m[m.len() - 1] == idxs[p]);
    } else {
        lemma_members_complete(agents, head, g, p);
        let mh = rows::members(agents, head, g);
        let k = choose|k: int| 0 <= k < mh.len() && mh[k] == idxs[p];
        assert(m[k] == mh[k]);
    }
}

/// Some position holds the first agent of the group of the agent at `p`.
pub proof fn lemma_first_of(agents: Seq<rows::AgentView>, idxs: Seq<usize>, p: int) -> (f: int)
    requires
        0 <= p < idxs.len(),
    ensures
        0 <= f <= p,
        agents[idxs[f] as int].group == agents[idxs[p] as int].group,
        rows::first_seen(agents, idxs, f),
    decreases p,
{
    if rows::first_seen(agents, idxs, p) {
        p
    } else {
        let q = choose|q: int|
            0 <= q < p && (#[trigger] agents[idxs[q] as int]).group == agents[idxs[p] as int].group;
        lemma_first_of(agents, idxs, q)
    }
}

/// What a block holds.
pub proof fn lemma_block(
    agents: Seq<rows::AgentView>,
    idxs: Seq<usize>,
    folded: Set<Seq<char>>,
    p: int,
    r: Row,
)
    requires
        0 <= p < idxs.len(),
    ensures
        rows::row_block(agents, idxs, folded, p).contains(r) <==> match agents[idxs[p] as int].group {
            None => r == (Row::Agent { idx: idxs[p] }),
            Some(g) => rows::first_seen(agents, idxs, p) && (r == (Row::Header { first: idxs[p] })
                || (!folded.contains(g) && (r matches Row::Agent { idx } && idxs.contains(idx)
                && agents[idx as int].group == Some(g)))),
        },
{
    let b = rows::row_block(agents, idxs, folded, p);
    match agents[idxs[p] as int].group {
        None => {
            assert(b[0] == Row::Agent { idx: idxs[p] });
        },
        Some(g) => {
            if rows::first_seen(agents, idxs, p) {
                let m = rows::members(agents, idxs, g);
                lemma_members(agents, idxs, g);
                assert(b[0] == Row::Header { first: idxs[p] });
                if !folded.contains(g) {
                    if b.contains(r) {
                        let i = choose|i: int| 0 <= i < b.len() && b[i] == r;
                        if i > 0 {
                            assert(b[i] == Row::Agent { idx: m[i - 1] });
                        }
                    }
                    if let Row::Agent { idx } = r {
                        if idxs.contains(idx) && agents[idx as int].group == Some(g) {
                            let k = choose|k: int| 0 <= k < idxs.len() && idxs[k] == idx;
                            lemma_members_complete(agents, idxs, g, k);
                            let j = choose|j: int| 0 <= j < m.len() && m[j] == idx;
                            assert(b[j + 1] == r);
                        }
                    }
                }
            }
        },
    }
}

/// Which rows are visible: every ungrouped agent; the header of every group, at
/// its first agent; and the members of every group that is not collapsed.
pub open spec fn shown(
    agents: Seq<rows::AgentView>,
    idxs: Seq<usize>,
    folded: Set<Seq<char>>,
    r: Row,
) -> bool {
    match r {
        Row::Agent { idx } => idxs.contains(idx) && match agents[idx as int].group {
            None => true,
            Some(g) => !folded.contains(g),
        },
        Row::Header { first } => exists|p: int|
            0 <= p < idxs.len() && idxs[p] == first && (#[trigger] agents[idxs[p] as int]).group is Some
                && rows::first_seen(agents, idxs, p),
    }
}

pub proof fn lemma_visible(
    agents: Seq<rows::AgentView>,
    idxs: Seq<usize>,
    folded: Set<Seq<char>>,
    r: Row,
)
    ensures
        rows::visible_rows(agents, idxs, folded).contains(r) <==> shown(agents, idxs, folded, r),
{
    lemma_rows_upto_contains(agents, idxs, folded, idxs.len(), r);
    if rows::visible_rows(agents, idxs, folded).contains(r) {
        let p = choose|p: int|
            0 <= p < idxs.len() && (#[trigger] rows::row_block(agents, idxs, folded, p)).contains(r);
        lemma_block(agents, idxs, folded, p, r);
        assert(idxs.contains(idxs[p]));
        assert(agents[idxs[p] as int].group is Some || agents[idxs[p] as int].group is None);
    }
    if shown(agents, idxs, folded, r) {
        match r {
            Row::Agent { idx } => {
                let k = choose|k: int| 0 <= k < idxs.len() && idxs[k] == idx;
                let f = if agents[idx as int].group is Some {
                    lemma_first_of(agents, idxs, k)
                } else {
                    k
                };
                lemma_block(agents, idxs, folded, f, r);
                assert(rows::row_block(agents, idxs, folded, f).contains(r));
            },
            Row::Header { first } => {
                let p = choose|p: int|
                    0 <= p < idxs.len() && idxs[p] == first && (
                    #[trigger] agents[idxs[p] as int]).group is Some && rows::first_seen(
                        agents,
                        idxs,
                        p,
                    );
                lemma_block(agents, idxs, folded, p, r);
                assert(rows::row_block(agents, idxs, folded, p).contains(r));
            },
        }
    }
}

/// The Agents pane shows exactly the ungrouped agents of the selected step, a
/// header for each of its groups, and the members of its expanded groups.
pub proof fn law_visible_rows(s: state::AppView, r: Row)
    requires
        s.wf(),
    ensures
        s.rows().contains(r) <==> shown(
            s.agents,
            s.selected_agents(),
            rows::folded_in(s.collapsed, s.steps_sel),
            r,
        ),
{
    lemma_visible(
        s.agents,
        s.selected_agents(),
        rows::folded_in(s.collapsed, s.steps_sel),
        r,
    );
}

/// Agents listed once each.
pub open spec fn distinct(idxs: Seq<usize>) -> bool {
    forall|i: int, j: int| 0 <= i < j < idxs.len() ==> idxs[i] != idxs[j]
}

pub proof fn lemma_members_distinct(
    agents: Seq<rows::AgentView>,
    idxs: Seq<usize>,
    g: Seq<char>,
)
    requires
        distinct(idxs),
    ensures
        distinct(rows::members(agents, idxs, g)),
    decreases idxs.len(),
{
    if idxs.len() > 0 {
        let head = idxs.drop_last();
        lemma_members_distinct(agents, head, g);
        lemma_members(agents, head, g);
        let mh = rows::members(agents, head, g);
        let m = rows::members(agents, idxs, g);
        assert forall|i: int, j: int| 0 <= i < j < m.len() implies m[i] != m[j] by {
            if j == mh.len() {
                assert(m[i] == mh[i]);
                let k = choose|k: int| 0 <= k < head.len() && head[k] == mh[i];
                assert(idxs[k] != idxs[idxs.len() - 1]);
            } else {
                assert(mh[i] != mh[j]);
            }
        }
    }
}

/// No row is brought twice.
pub proof fn lemma_rows_distinct(
    agents: Seq<rows::AgentView>,
    idxs: Seq<usize>,
    folded: Set<Seq<char>>,
    n: nat,
)
    requires
        distinct(idxs),
        n <= idxs.len(),
    ensures
        rows::rows_upto(agents, idxs, folded, n).no_duplicates(),
    decreases n,
{
    if n > 0 {
        let m = (n - 1) as nat;
        lemma_rows_distinct(agents, idxs, folded, m);
        let before = rows::rows_upto(agents, idxs, folded, m);
        let block = rows::row_block(agents, idxs, folded, m as int);
        let all = rows::rows_upto(agents, idxs, folded, n);
        assert(all == before + block);
        assert forall|i: int, j: int| 0 <= i < all.len() && 0 <= j < all.len() && i < j implies all[i]
            != all[j] by {
            if j < before.len() {
                assert(before[i] != before[j]);
            } else if i >= before.len() {
                let a = i - before.len();
                let b = j - before.len();
                assert(all[i] == block[a] && all[j] == block[b]);
                if let Some(g) = agents[idxs[m as int] as int].group {
                    lemma_members_distinct(agents, idxs, g);
                    let ms = rows::members(agents, idxs, g);
                    assert(block[b] == Row::Agent { idx: ms[b - 1] });
                    if a > 0 {
                        assert(block[a] == Row::Agent { idx: ms[a - 1] });
                        assert(ms[a - 1] != ms[b - 1]);
                    }
                }
            } else {
                let r = all[i];
                assert(before[i] == r);
                assert(before.contains(r));
                lemma_rows_upto_contains(agents, idxs, folded, m, r);
                let p = choose|p: int|
                    0 <= p < m && (#[trigger] rows::row_block(agents, idxs, folded, p)).contains(r);
                lemma_block(agents, idxs, folded, p, r);
                if all[j] == r {
                    assert(block[j - before.len()] == r);
                    assert(block.contains(r));
                    lemma_block(agents, idxs, folded, m as int, r);
                    assert(idxs[p] != idxs[m as int]);
                    assert(agents[idxs[p] as int].group == agents[idxs[m as int] as int].group);
                    assert(!rows::first_seen(agents, idxs, m as int));
                }
            }
        }
    }
}

/// No row is shown twice.
pub proof fn law_rows_distinct(s: state::AppView)
    requires
        s.wf(),
    ensures
        s.rows().no_duplicates(),
{
    let idxs = s.selected_agents();
    if s.steps_sel < s.step_agents.len() {
        assert forall|i: int, j: int| 0 <= i < j < idxs.len() implies idxs[i] != idxs[j] by {
            assert(s.step_agents[s.steps_sel as int][i] < s.step_agents[s.steps_sel as int][j]);
        }
    }
    lemma_rows_distinct(
        s.agents,
        idxs,
        rows::folded_in(s.collapsed, s.steps_sel),
        idxs.len(),
    );
}

proof fn lemma_flat_rows(
    agents: Seq<rows::AgentView>,
    idxs: Seq<usize>,
    folded: Set<Seq<char>>,
    n: nat,
)
    requires
        n <= idxs.len(),
        forall|k: int| 0 <= k < idxs.len() ==> (#[trigger] agents[idxs[k] as int]).group is None,
    ensures
        rows::rows_upto(agents, idxs, folded, n) == rows::agent_rows(idxs.take(n as int)),
    decreases n,
{
    if n == 0 {
        assert(rows::agent_rows(idxs.take(0)) =~= Seq::<Row>::empty());
    } else {
        lemma_flat_rows(agents, idxs, folded, (n - 1) as nat);
        assert(agents[idxs[n - 1] as int].group is None);
        assert(rows::agent_rows(idxs.take(n as int)) =~= rows::agent_rows(idxs.take(n - 1)) + seq![
            Row::Agent { idx: idxs[n - 1] },
        ]);
    }
}

/// Without groups the pane is the plain list of agents in spawn order.
pub proof fn law_no_groups_no_headers(s: state::AppView)
    requires
        s.wf(),
        forall|k: int|
            0 <= k < s.selected_agents().len() ==> (
            #[trigger] s.agents[s.selected_agents()[k] as int]).group is None,
    ensures
        s.rows() == rows::agent_rows(s.selected_agents()),
{
    let idxs = s.selected_agents();
    lemma_flat_rows(s.agents, idxs, rows::folded_in(s.collapsed, s.steps_sel), idxs.len());
    assert(idxs.take(idxs.len() as int) =~= idxs);
}

// ── Spawns ──

/// What is shown for `idxs` does not depend on agents beyond them.
proof fn lemma_rows_depend(
    a: Seq<rows::AgentView>,
    b: Seq<rows::AgentView>,
    idxs: Seq<usize>,
    folded: Set<Seq<char>>,
    r: Row,
)
    requires
        forall|k: int|
            0 <= k < idxs.len() ==> a[#[trigger] idxs[k] as int].group == b[idxs[k] as int].group,
        shown(a, idxs, folded, r),
    ensures
        shown(b, idxs, folded, r),
{
    match r {
        Row::Agent { idx } => {
            let k = choose|k: int| 0 <= k < idxs.len() && idxs[k] == idx;
            assert(a[idxs[k] as int].group == b[idxs[k] as int].group);
        },
        Row::Header { first } => {
            let p = choose|p: int|
                0 <= p < idxs.len() && idxs[p] == first && (#[trigger] a[idxs[p] as int]).group is Some
                    && rows::first_seen(a, idxs, p);
            assert(b[idxs[p] as int].group is Some);
            assert forall|q: int| 0 <= q < p implies (#[trigger] b[idxs[q] as int]).group
                != b[idxs[p] as int].group by {
                assert(a[idxs[q] as int].group != a[idxs[p] as int].group);
            }
        },
    }
}

/// A row that is shown stays shown when one more agent joins the step.
proof fn lemma_shown_grows(
    agents: Seq<rows::AgentView>,
    idxs: Seq<usize>,
    more: usize,
    folded: Set<Seq<char>>,
    r: Row,
)
    requires
        shown(agents, idxs, folded, r),
    ensures
        shown(agents, idxs.push(more), folded, r),
{
    let grown = idxs.push(more);
    match r {
        Row::Agent { idx } => {
            let k = choose|k: int| 0 <= k < idxs.len() && idxs[k] == idx;
            assert(grown[k] == idx);
        },
        Row::Header { first } => {
            let p = choose|p: int|
                0 <= p < idxs.len() && idxs[p] == first && (
                #[trigger] agents[idxs[p] as int]).group is Some && rows::first_seen(
                    agents,
                    idxs,
                    p,
                );
            assert(agents[grown[p] as int].group is Some);
            assert forall|q: int| 0 <= q < p implies (#[trigger] agents[grown[q] as int]).group
                != agents[grown[p] as int].group by {
                assert(agents[idxs[q] as int].group != agents[idxs[p] as int].group);
            }
        },
    }
}

/// A row shown before a spawn is shown after it.
pub proof fn lemma_spawn_keeps_rows(
    s: state::AppView,
    id: AgentId,
    step: StepId,
    label: Seq<char>,
    prompt: Seq<char>,
    group: Option<Seq<char>>,
    r: Row,
)
    requires
        s.wf(),
        s.agents.len() < usize::MAX,
        step < usize::MAX,
        s.rows().contains(r),
    ensures
        state::spawned(s, id, step, label, prompt, group).rows().contains(r),
{
    let t = state::spawned(s, id, step, label, prompt, group);
    let folded = rows::folded_in(s.collapsed, s.steps_sel);
    let idxs = s.selected_agents();
    let idx = s.agents.len() as usize;
    lemma_visible(s.agents, idxs, folded, r);
    if s.steps_sel < s.step_agents.len() {
        assert forall|k: int| 0 <= k < idxs.len() implies s.agents[#[trigger] idxs[k] as int].group
            == t.agents[idxs[k] as int].group by {
            assert(s.step_agents[s.steps_sel as int][k] < s.agents.len());
        }
    }
    lemma_rows_depend(s.agents, t.agents, idxs, folded, r);
    if step == s.steps_sel {
        let grown = state::grown_index(s.step_agents, step as nat + 1);
        assert(grown[step as int] =~= idxs);
        assert(t.selected_agents() == idxs.push(idx));
        lemma_shown_grows(t.agents, idxs, idx, folded, r);
        lemma_visible(t.agents, idxs.push(idx), folded, r);
    } else {
        assert(t.selected_agents() =~= idxs);
        lemma_visible(t.agents, idxs, folded, r);
    }
}

/// A spawn never moves the selection to another row: whatever row was selected
/// is still the selected one, wherever it now stands.
pub proof fn law_spawn_keeps_selected_row(
    s: state::AppView,
    id: AgentId,
    step: StepId,
    label: Seq<char>,
    prompt: Seq<char>,
    group: Option<Seq<char>>,
)
    requires
        s.wf(),
        s.agents.len() < usize::MAX,
        step < usize::MAX,
        s.selected_row() is Some,
        state::spawned(s, id, step, label, prompt, group).rows().len() <= usize::MAX,
    ensures
        state::after_event(
            s,
            event::EventView::AgentSpawned { id, step, label, prompt, group },
        ).selected_row() == s.selected_row(),
{
    let t = state::spawned(s, id, step, label, prompt, group);
    let row = s.selected_row()->0;
    assert(s.rows()[s.agents_sel as int] == row);
    if step == s.steps_sel {
        lemma_spawn_keeps_rows(s, id, step, label, prompt, group, row);
        t.rows().index_of_first_ensures(row);
        let u = state::reselected(t, row);
        assert(u.rows() == t.rows());
    } else {
        let idxs = s.selected_agents();
        assert(t.selected_agents() =~= idxs);
        assert forall|k: int| 0 <= k < idxs.len() implies s.agents[#[trigger] idxs[k] as int].group
            == t.agents[idxs[k] as int].group by {
            assert(s.step_agents[s.steps_sel as int][k] < s.agents.len());
        }
        lemma_rows_same(
            s.agents,
            t.agents,
            idxs,
            rows::folded_in(s.collapsed, s.steps_sel),
            idxs.len(),
        );
    }
}

/// Rows depend on nothing of the agents but their groups.
proof fn lemma_rows_same(
    a: Seq<rows::AgentView>,
    b: Seq<rows::AgentView>,
    idxs: Seq<usize>,
    folded: Set<Seq<char>>,
    n: nat,
)
    requires
        n <= idxs.len(),
        forall|k: int|
            0 <= k < idxs.len() ==> a[#[trigger] idxs[k] as int].group == b[idxs[k] as int].group,
    ensures
        rows::rows_upto(a, idxs, folded, n) == rows::rows_upto(b, idxs, folded, n),
    decreases n,
{
    if n > 0 {
        lemma_rows_same(a, b, idxs, folded, (n - 1) as nat);
        let p = n - 1;
        assert(a[idxs[p] as int].group == b[idxs[p] as int].group);
        assert(rows::first_seen(a, idxs, p) == rows::first_seen(b, idxs, p)) by {
            if rows::first_seen(a, idxs, p) {
                assert forall|q: int| 0 <= q < p implies (#[trigger] b[idxs[q] as int]).group
                    != b[idxs[p] as int].group by {
                    assert(a[idxs[q] as int].group != a[idxs[p] as int].group);
                }
            }
            if rows::first_seen(b, idxs, p) {
                assert forall|q: int| 0 <= q < p implies (#[trigger] a[idxs[q] as int]).group
                    != a[idxs[p] as int].group by {
                    assert(b[idxs[q] as int].group != b[idxs[p] as int].group);
                }
            }
        }
        if let Some(g) = a[idxs[p] as int].group {
            lemma_members_same(a, b, idxs, g);
        }
    }
}

proof fn lemma_members_same(
    a: Seq<rows::AgentView>,
    b: Seq<rows::AgentView>,
    idxs: Seq<usize>,
    g: Seq<char>,
)
    requires
        forall|k: int|
            0 <= k < idxs.len() ==> a[#[trigger] idxs[k] as int].group == b[idxs[k] as int].group,
    ensures
        rows::members(a, idxs, g) == rows::members(b, idxs, g),
    decreases idxs.len(),
{
    if idxs.len() > 0 {
        let head = idxs.drop_last();
        assert forall|k: int| 0 <= k < head.len() implies a[#[trigger] head[k] as int].group
            == b[head[k] as int].group by {
            assert(idxs[k] == head[k]);
        }
        lemma_members_same(a, b, head, g);
        assert(a[idxs[idxs.len() - 1] as int].group == b[idxs[idxs.len() - 1] as int].group);
    }
}

/// No event moves the selection to another row or out of range: whatever row was
/// selected is still the selected one.
pub proof fn law_event_keeps_selected_row(s: state::AppView, ev: event::EventView)
    requires
        s.wf(),
        s.agents.len() < usize::MAX,
        state::event_fits(ev),
        s.selected_row() is Some,
        state::after_event(s, ev).rows().len() <= usize::MAX,
    ensures
        state::after_event(s, ev).selected_row() == s.selected_row(),
        state::after_event(s, ev).agents_sel < state::after_event(s, ev).rows().len(),
{
    let t = state::after_event(s, ev);
    match ev {
        event::EventView::AgentSpawned { id, step, label, prompt, group } => {
            let u = state::spawned(s, id, step, label, prompt, group);
            assert(t.rows() == u.rows());
            law_spawn_keeps_selected_row(s, id, step, label, prompt, group);
        },
        _ => {
            let idxs = s.selected_agents();
            assert(idxs.len() > 0);
            assert(t.selected_agents() =~= idxs);
            assert forall|k: int| 0 <= k < idxs.len() implies s.agents[#[trigger] idxs[k] as int].group
                == t.agents[idxs[k] as int].group by {
                assert(s.step_agents[s.steps_sel as int][k] < s.agents.len());
                law_agents_only_grow(s, ev, idxs[k] as int);
            }
            lemma_rows_same(
                s.agents,
                t.agents,
                idxs,
                rows::folded_in(s.collapsed, s.steps_sel),
                idxs.len(),
            );
        },
    }
}

/// The agent list only grows: an event keeps every agent at its index, with its
/// step, label and group.
pub proof fn law_agents_only_grow(s: state::AppView, ev: event::EventView, a: int)
    requires
        s.wf(),
        0 <= a < s.agents.len(),
    ensures
        a < state::after_event(s, ev).agents.len(),
        state::after_event(s, ev).agents[a].step == s.agents[a].step,
        state::after_event(s, ev).agents[a].label == s.agents[a].label,
        state::after_event(s, ev).agents[a].group == s.agents[a].group,
{
}

// ── What redraws ──

/// No event retargets the Detail pane.
pub proof fn law_detail_pin_survives_events(s: state::AppView, ev: event::EventView)
    ensures
        state::after_event(s, ev).detail_agent == s.detail_agent,
{
}

/// The Detail pane is invalidated by progress of the agent it is pinned to, and
/// by no other event.
pub proof fn law_detail_follows_its_agent(s: state::AppView, ev: event::EventView)
    requires
        s.wf(),
        s.detail_ver < u64::MAX,
    ensures
        (state::after_event(s, ev).detail_ver != s.detail_ver) <==> (ev matches event::EventView::Agent {
            id,
            ..
        } && id != 0 && s.by_id.contains_key(id) && s.detail_agent == Some(s.by_id[id])),
{
}

/// While the Detail version stands still, the log it shows stands still.
pub proof fn law_detail_cache_fresh(s: state::AppView, ev: event::EventView)
    requires
        s.wf(),
        s.detail_ver < u64::MAX,
        s.detail_agent is Some,
        state::after_event(s, ev).detail_ver == s.detail_ver,
    ensures
        state::after_event(s, ev).agents[s.detail_agent->0 as int].detail
            == s.agents[s.detail_agent->0 as int].detail,
{
}

/// While the Steps version stands still, everything the Steps pane shows stands
/// still: titles, statuses, agent counts, selection and focus.
pub proof fn law_steps_cache_fresh(s: state::AppView, ev: event::EventView)
    requires
        s.wf(),
        s.steps_ver < u64::MAX,
        state::after_event(s, ev).steps_ver == s.steps_ver,
    ensures
        state::after_event(s, ev).steps == s.steps,
        state::after_event(s, ev).step_agents == s.step_agents,
        state::after_event(s, ev).steps_sel == s.steps_sel,
        state::after_event(s, ev).focus == s.focus,
{
}

/// The scroll offset plays no part in what holds of a state.
pub proof fn lemma_scrolled_wf(s: state::AppView, scroll: usize)
    requires
        s.wf(),
    ensures
        (state::AppView { detail_scroll: scroll, ..s }).wf(),
{
    let t = state::AppView { detail_scroll: scroll, ..s };
    lemma_same_index(s, t);
}

/// Scrolling the Detail pane changes the scroll offset and nothing else, so no
/// cached pane is rebuilt for it.
pub proof fn law_scroll_invalidates_nothing(s: state::AppView, k: KeyEvent)
    requires
        s.focus == state::Focus::Detail,
        k.code is Up || k.code is Down || k.code is PageUp || k.code is PageDown || k.code is Home
            || k.code is End,
    ensures
        state::after_key(s, k) == (state::AppView {
            detail_scroll: state::after_key(s, k).detail_scroll,
            ..s
        }),
{
}

/// A key that moves the focus, a selection or a fold invalidates both panes, and
/// one that moves none of them invalidates neither.
pub proof fn law_keys_invalidate_what_they_move(s: state::AppView, k: KeyEvent)
    ensures
        ({
            let t = state::after_key(s, k);
            let moved = !state::same_pane_inputs(s, t);
            &&& moved <==> t.steps_ver != s.steps_ver
            &&& moved <==> t.detail_ver != s.detail_ver
        }),
{
    let t = state::key_effect(s, k);
    assert(s.steps_ver.wrapping_add(1) != s.steps_ver);
    assert(s.detail_ver.wrapping_add(1) != s.detail_ver);
}

/// A key never changes the steps, the agents or what was streamed.
pub proof fn law_keys_keep_data(s: state::AppView, k: KeyEvent)
    ensures
        ({
            let t = state::after_key(s, k);
            t.steps == s.steps && t.agents == s.agents && t.by_id == s.by_id && t.step_agents
                == s.step_agents && t.done == s.done && t.meta_name == s.meta_name
        }),
{
}

// ── Folding ──

/// Folding a group and unfolding it again restores the fold state.
pub proof fn law_toggle_twice(collapsed: Set<(StepId, Seq<char>)>, p: (StepId, Seq<char>))
    ensures
        state::toggled(state::toggled(collapsed, p), p) == collapsed,
{
    assert(state::toggled(state::toggled(collapsed, p), p) =~= collapsed);
}

/// Enter on a group header stays in the Agents pane and toggles that group.
pub proof fn law_enter_on_header_toggles(s: state::AppView, first: usize)
    requires
        s.wf(),
        s.focus == state::Focus::Agents,
        s.selected_row() == Some(Row::Header { first }),
    ensures
        ({
            let k = KeyEvent {
                code: event::KeyCode::Enter,
                control: false,
                release: false,
            };
            let t = state::after_key(s, k);
            let p = (s.steps_sel, state::group_name(s, first));
            &&& t.focus == state::Focus::Agents
            &&& t.collapsed.contains(p) == !s.collapsed.contains(p)
            &&& t.collapse_gen != s.collapse_gen
            &&& t.detail_agent == s.detail_agent
        }),
{
    assert(s.collapse_gen.wrapping_add(1) != s.collapse_gen);
}

/// Outside the Steps pane a row is selected.
pub open spec fn row_selected(s: state::AppView) -> bool {
    s.focus != state::Focus::Steps ==> s.selected_row() is Some
}

/// A fresh front-end starts that way, and no event ends it.
pub proof fn law_selection_stays_in_range_under_events(s: state::AppView, ev: event::EventView)
    requires
        s.wf(),
        s.agents.len() < usize::MAX,
        state::event_fits(ev),
        row_selected(s),
        state::after_event(s, ev).rows().len() <= usize::MAX,
    ensures
        row_selected(state::AppView::initial()),
        row_selected(state::after_event(s, ev)),
{
    if s.focus != state::Focus::Steps {
        law_event_keeps_selected_row(s, ev);
    }
}

/// Nor does a key, which never takes a selection that is in range out of it.
pub proof fn law_selection_stays_in_range(s: state::AppView, k: KeyEvent)
    requires
        s.wf(),
        row_selected(s),
        s.rows().len() <= usize::MAX,
    ensures
        row_selected(state::after_key(s, k)),
        s.focus != state::Focus::Steps ==> state::after_key(s, k).selected_row() is Some,
{
    if s.focus == state::Focus::Steps {
        if s.selected_agents().len() > 0 {
            lemma_agents_show_rows(s);
        }
    } else {
        lemma_key_keeps_selection(s, k);
    }
}

/// A step with agents shows at least one row.
proof fn lemma_agents_show_rows(s: state::AppView)
    requires
        s.wf(),
        s.selected_agents().len() > 0,
    ensures
        s.rows().len() > 0,
{
    let idxs = s.selected_agents();
    let folded = rows::folded_in(s.collapsed, s.steps_sel);
    let first = idxs[0];
    let r = if s.agents[first as int].group is Some {
        Row::Header { first }
    } else {
        Row::Agent { idx: first }
    };
    lemma_visible(s.agents, idxs, folded, r);
    assert(s.rows().contains(r));
}

proof fn lemma_key_keeps_selection(s: state::AppView, k: KeyEvent)
    requires
        s.wf(),
        s.focus != state::Focus::Steps,
        s.agents_sel < s.rows().len(),
        s.rows().len() <= usize::MAX,
    ensures
        state::after_key(s, k).agents_sel < state::after_key(s, k).rows().len(),
{
    let t = state::after_key(s, k);
    law_rows_point_at_agents(s, s.agents_sel as int);
    if t.collapsed != s.collapsed {
        let first = s.selected_row()->0->first;
        lemma_visible(
            s.agents,
            s.selected_agents(),
            rows::folded_in(s.collapsed, s.steps_sel),
            Row::Header { first },
        );
        assert(s.rows().contains(s.rows()[s.agents_sel as int]));
        lemma_visible(
            t.agents,
            t.selected_agents(),
            rows::folded_in(t.collapsed, t.steps_sel),
            Row::Header { first },
        );
        assert(t.rows().contains(Row::Header { first }));
        assert(t.rows().len() > 0);
    }
}

// ── Phases ──

/// Declaring the phases up front never replaces a title a step already has.
pub proof fn law_meta_keeps_titles(
    s: state::AppView,
    name: Seq<char>,
    phases: Seq<Seq<char>>,
    i: int,
)
    requires
        0 <= i < s.steps.len(),
        s.steps[i].title.len() > 0,
    ensures
        state::after_run_meta(s, name, phases).steps[i] == s.steps[i],
{
}

/// A phase declared up front waits as pending until its step is entered, and
/// entering it sets the title in place.
pub proof fn law_phases_align_with_steps(
    s: state::AppView,
    name: Seq<char>,
    phases: Seq<Seq<char>>,
    i: StepId,
    title: Seq<char>,
)
    requires
        s.wf(),
        s.steps.len() <= i < phases.len(),
    ensures
        ({
            let t = state::after_run_meta(s, name, phases);
            let u = state::after_step_declared(t, i, title);
            &&& t.steps[i as int] == (state::StepView {
                title: phases[i as int],
                status: event::StepStatus::Pending,
            })
            &&& u.steps.len() == t.steps.len()
            &&& u.steps[i as int].title == title
            &&& forall|j: int|
                0 <= j < t.steps.len() && j != i ==> #[trigger] u.steps[j] == t.steps[j]
        }),
{
}

} // verus!
