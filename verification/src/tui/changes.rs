//! What each event changes, told over what is shown before and after.

use vstd::prelude::*;

use crate::event;
use crate::event::{AgentId, AgentStatus, EventView, StepId, StepStatus, UpdateView};
use crate::text;
use crate::tui::laws;
use crate::tui::rows;
use crate::tui::rows::{AgentRow, Row};
use crate::tui::session;
use crate::tui::state;
use crate::tui::state::AppView;
use crate::tui::App;

verus! {

// ── Steps ──

/// Declaring a step titles it, whether it was there or not, and changes no other
/// step and no status; steps that the number skips are there, untitled and
/// pending.
pub proof fn law_declared_step_is_titled(s: AppView, step: StepId, title: Seq<char>, i: int)
    requires
        s.wf(),
        step < usize::MAX,
    ensures
        ({
            let t = state::after_event(s, EventView::StepDeclared { step, title });
            &&& t.steps.len() == if s.steps.len() > step {
                s.steps.len()
            } else {
                (step + 1) as nat
            }
            &&& t.steps[step as int].title == title
            &&& 0 <= i < s.steps.len() ==> t.steps[i].status == s.steps[i].status
            &&& 0 <= i < s.steps.len() && i != step ==> t.steps[i].title == s.steps[i].title
            &&& s.steps.len() <= i < t.steps.len() ==> t.steps[i].status == StepStatus::Pending
            &&& s.steps.len() <= i < step ==> t.steps[i].title.len() == 0
            &&& t.agents == s.agents
            &&& t.by_id == s.by_id
            &&& 0 <= i < s.step_agents.len() ==> t.step_agents[i] == s.step_agents[i]
            &&& s.step_agents.len() <= i < t.step_agents.len() ==> t.step_agents[i].len() == 0
            &&& t.done == s.done
            &&& t.meta_name == s.meta_name
        }),
{
}

/// A step's status is set as told, and nothing else is; a step that was never
/// declared has none to set.
pub proof fn law_step_status_is_set(s: AppView, step: StepId, status: StepStatus, i: int)
    ensures
        ({
            let t = state::after_event(s, EventView::StepStatus { step, status });
            &&& t.steps.len() == s.steps.len()
            &&& step < s.steps.len() ==> t.steps[step as int].status == status
            &&& 0 <= i < s.steps.len() ==> t.steps[i].title == s.steps[i].title
            &&& 0 <= i < s.steps.len() && i != step ==> t.steps[i].status == s.steps[i].status
            &&& t.agents == s.agents
            &&& t.by_id == s.by_id
            &&& t.step_agents == s.step_agents
            &&& t.agents_sel == s.agents_sel
            &&& t.done == s.done
            &&& t.meta_name == s.meta_name
        }),
{
}

/// Metadata names the run, unless the name is empty, and gives each phase a step:
/// it titles those that have no title and changes no status and no other title.
pub proof fn law_metadata_titles_the_steps(
    s: AppView,
    name: Seq<char>,
    phases: Seq<Seq<char>>,
    i: int,
)
    requires
        s.wf(),
    ensures
        ({
            let t = state::after_event(s, EventView::RunMeta { name, phases });
            &&& name.len() > 0 ==> t.meta_name == Some(name)
            &&& name.len() == 0 ==> t.meta_name == s.meta_name
            &&& t.steps.len() == if s.steps.len() >= phases.len() {
                s.steps.len()
            } else {
                phases.len()
            }
            &&& 0 <= i < phases.len() && (i >= s.steps.len() || s.steps[i].title.len() == 0)
                ==> t.steps[i].title == phases[i]
            &&& 0 <= i < s.steps.len() && (i >= phases.len() || s.steps[i].title.len() > 0)
                ==> t.steps[i].title == s.steps[i].title
            &&& 0 <= i < s.steps.len() ==> t.steps[i].status == s.steps[i].status
            &&& s.steps.len() <= i < t.steps.len() ==> t.steps[i].status == StepStatus::Pending
            &&& t.agents == s.agents
            &&& t.by_id == s.by_id
            &&& 0 <= i < s.step_agents.len() ==> t.step_agents[i] == s.step_agents[i]
            &&& t.done == s.done
        }),
{
}

/// The run's outcome is kept as told; a fatal error is a failed outcome. Nothing
/// else changes.
pub proof fn law_outcome_is_kept(s: AppView, r: Result<Seq<char>, Seq<char>>, e: Seq<char>)
    ensures
        ({
            let t = state::after_event(s, EventView::WorkflowDone(r));
            t.done == Some(r) && t == (AppView { done: t.done, ..s })
        }),
        ({
            let t = state::after_event(s, EventView::EngineError(e));
            t.done == Some(Err::<Seq<char>, Seq<char>>(e)) && t == (AppView { done: t.done, ..s })
        }),
{
}

/// Ticks and keys are no news: as events they change nothing.
pub proof fn law_ticks_are_no_news(s: AppView, k: event::KeyEvent)
    ensures
        state::after_event(s, EventView::Render) == s,
        state::after_event(s, EventView::Key(k)) == s,
{
}

/// Events that change what the Steps pane shows move its version on by one.
pub proof fn law_steps_events_move_the_version(s: AppView, ev: EventView)
    requires
        s.steps_ver < u64::MAX,
        ev is StepDeclared || ev is StepStatus || ev is AgentSpawned || ev is RunMeta,
    ensures
        state::after_event(s, ev).steps_ver == s.steps_ver + 1,
{
}

// ── Agents ──

/// A spawned agent is added last, pending, with no tokens and no note; it keeps
/// what it was announced with, its log starts with its prompt, its id leads to it,
/// and it is the last one of its step. Every other agent stays as it was.
pub proof fn law_spawned_agent_is_listed(
    s: AppView,
    id: AgentId,
    step: StepId,
    label: Seq<char>,
    prompt: Seq<char>,
    group: Option<Seq<char>>,
    a: int,
    other: AgentId,
)
    requires
        s.wf(),
        s.agents.len() < usize::MAX,
        step < usize::MAX,
    ensures
        ({
            let t = state::after_event(
                s,
                EventView::AgentSpawned { id, step, label, prompt, group },
            );
            let new = t.agents.last();
            &&& t.agents.len() == s.agents.len() + 1
            &&& new.step == step
            &&& new.label == label
            &&& new.group == group
            &&& new.status == AgentStatus::Pending
            &&& new.tokens_in == 0
            &&& new.tokens_out == 0
            &&& new.last_note is None
            &&& new.detail.len() == 4
            &&& new.detail[1] == prompt
            &&& 0 <= a < s.agents.len() ==> t.agents[a] == s.agents[a]
            &&& t.by_id.contains_key(id)
            &&& t.by_id[id] == s.agents.len()
            &&& other != id ==> (t.by_id.contains_key(other) <==> s.by_id.contains_key(other))
            &&& other != id && s.by_id.contains_key(other) ==> t.by_id[other] == s.by_id[other]
            &&& step < t.step_agents.len()
            &&& t.step_agents[step as int].last() == s.agents.len()
            &&& t.step_agents[step as int].len() == if step < s.step_agents.len() {
                s.step_agents[step as int].len() + 1
            } else {
                1
            }
            &&& 0 <= a < s.step_agents.len() && a != step ==> t.step_agents[a]
                == s.step_agents[a]
            &&& 0 <= a < s.steps.len() ==> t.steps[a] == s.steps[a]
            &&& t.done == s.done
            &&& t.meta_name == s.meta_name
        }),
{
}

/// Progress reaches the agent that the id leads to and no other; the narrator's
/// id and ids that were never spawned reach none.
pub proof fn law_progress_reaches_its_agent(s: AppView, id: AgentId, u: UpdateView, a: int)
    requires
        s.wf(),
    ensures
        ({
            let t = state::after_event(s, EventView::Agent { id, update: u });
            let known = id != 0 && s.by_id.contains_key(id);
            &&& !known ==> t == s
            &&& t.agents.len() == s.agents.len()
            &&& 0 <= a < s.agents.len() && !(known && a == s.by_id[id]) ==> t.agents[a]
                == s.agents[a]
            &&& known ==> t.agents[s.by_id[id] as int] == state::updated_agent(
                s.agents[s.by_id[id] as int],
                u,
            )
            &&& t.steps == s.steps
            &&& t.step_agents == s.step_agents
            &&& t.by_id == s.by_id
            &&& t.agents_sel == s.agents_sel
            &&& t.done == s.done
            &&& t.meta_name == s.meta_name
        }),
{
}

/// A status, a token count or a note replaces the agent's own and nothing else
/// does; who the agent is never changes.
pub proof fn law_progress_sets_its_column(a: rows::AgentView, u: UpdateView)
    ensures
        ({
            let b = state::updated_agent(a, u);
            &&& u matches UpdateView::Status(s) ==> b.status == s
            &&& u !is Status ==> b.status == a.status
            &&& u matches UpdateView::Tokens { input, output } ==> b.tokens_in == input
                && b.tokens_out == output
            &&& u !is Tokens ==> b.tokens_in == a.tokens_in && b.tokens_out == a.tokens_out
            &&& u matches UpdateView::Note(n) ==> b.last_note == Some(n)
            &&& u !is Note ==> b.last_note == a.last_note
            &&& b.step == a.step
            &&& b.label == a.label
            &&& b.group == a.group
        }),
{
}

/// The log only grows at its end, and loses lines only at its front, no more than
/// must go to stay within the limit.
pub proof fn law_log_keeps_the_latest(a: rows::AgentView, u: UpdateView, i: int)
    requires
        a.detail.len() <= 2000,
    ensures
        ({
            let b = state::updated_agent(a, u);
            let all = a.detail + state::detail_lines(u);
            &&& b.detail.len() <= 2000
            &&& all.len() <= 2000 ==> b.detail.len() == all.len()
            &&& all.len() > 2000 ==> b.detail.len() == 2000
            &&& 0 <= i < b.detail.len() ==> b.detail[i] == all[all.len() - b.detail.len() + i]
        }),
{
}

/// A line that tells a text starts with what kind it is and ends with the text.
pub open spec fn tells(line: Seq<char>, tag: Seq<char>, t: Seq<char>) -> bool {
    line.len() == tag.len() + 1 + t.len() && text::starts_with(line, tag) && line[tag.len() as int]
        == ' ' && text::ends_with(line, t)
}

proof fn lemma_tells(line: Seq<char>, tag: Seq<char>, t: Seq<char>)
    requires
        line == tag + seq![' '] + t,
    ensures
        tells(line, tag, t),
{
    assert(line =~= tag + (seq![' '] + t));
    text::laws::law_part_is_contained(tag, tag, seq![' '] + t);
    text::laws::law_part_is_contained(tag + seq![' '], t, t);
}

/// What an agent says or does is logged in one line, marked by its kind.
pub proof fn law_log_tells_what_was_said(t: Seq<char>)
    ensures
        ({
            let l = state::detail_lines(UpdateView::Reasoning(t));
            l.len() == 1 && tells(l[0], "[reason]"@, t)
        }),
        ({
            let l = state::detail_lines(UpdateView::FileChange(t));
            l.len() == 1 && tells(l[0], "[file]"@, t)
        }),
        ({
            let l = state::detail_lines(UpdateView::ToolCall(t));
            l.len() == 1 && tells(l[0], "[tool]"@, t)
        }),
        ({
            let l = state::detail_lines(UpdateView::WebSearch(t));
            l.len() == 1 && tells(l[0], "[web]"@, t)
        }),
        ({
            let l = state::detail_lines(UpdateView::Message(t));
            l.len() == 1 && tells(l[0], "[msg]"@, t)
        }),
        ({
            let l = state::detail_lines(UpdateView::Note(t));
            l.len() == 1 && tells(l[0], "[note]"@, t)
        }),
{
    reveal_strlit("[reason] ");
    reveal_strlit("[reason]");
    reveal_strlit("[file] ");
    reveal_strlit("[file]");
    reveal_strlit("[tool] ");
    reveal_strlit("[tool]");
    reveal_strlit("[web] ");
    reveal_strlit("[web]");
    reveal_strlit("[msg] ");
    reveal_strlit("[msg]");
    reveal_strlit("[note] ");
    reveal_strlit("[note]");
    let sp = seq![' '];
    assert("[reason] "@ =~= "[reason]"@ + sp);
    assert("[file] "@ =~= "[file]"@ + sp);
    assert("[tool] "@ =~= "[tool]"@ + sp);
    assert("[web] "@ =~= "[web]"@ + sp);
    assert("[msg] "@ =~= "[msg]"@ + sp);
    assert("[note] "@ =~= "[note]"@ + sp);
    lemma_tells("[reason] "@ + t, "[reason]"@, t);
    lemma_tells("[file] "@ + t, "[file]"@, t);
    lemma_tells("[tool] "@ + t, "[tool]"@, t);
    lemma_tells("[web] "@ + t, "[web]"@, t);
    lemma_tells("[msg] "@ + t, "[msg]"@, t);
    lemma_tells("[note] "@ + t, "[note]"@, t);
}

proof fn lemma_set_in(x: Seq<char>)
    ensures
        text::ends_with("    "@ + x, x),
        ("    "@ + x).len() == 4 + x.len(),
        text::starts_with("    "@ + x, seq![' ', ' ', ' ', ' ']),
{
    reveal_strlit("    ");
    assert("    "@ =~= seq![' ', ' ', ' ', ' ']);
    text::laws::law_part_is_contained("    "@, x, x);
    text::laws::law_part_is_contained("    "@, "    "@, x);
}

/// A command is logged in one line, and its output below it, line by line and set
/// in; a status leaves no line.
pub proof fn law_log_tells_what_was_run(command: Seq<char>, o: Seq<char>, s: AgentStatus, i: int)
    ensures
        ({
            let l = state::detail_lines(UpdateView::Command { command, output: Some(o) });
            &&& l.len() == 1 + text::lines_of(o).len()
            &&& tells(l[0], "[cmd]"@, command)
            &&& 0 <= i < text::lines_of(o).len() ==> text::ends_with(l[i + 1], text::lines_of(o)[i])
                && l[i + 1].len() == 4 + text::lines_of(o)[i].len() && text::starts_with(
                l[i + 1],
                seq![' ', ' ', ' ', ' '],
            )
        }),
        ({
            let l = state::detail_lines(UpdateView::Command { command, output: None });
            l.len() == 1 && tells(l[0], "[cmd]"@, command)
        }),
        state::detail_lines(UpdateView::Status(s)).len() == 0,
{
    assert("[cmd] "@ == "[cmd]"@ + seq![' ']) by {
        reveal_strlit("[cmd] ");
        reveal_strlit("[cmd]");
        assert("[cmd] "@ =~= "[cmd]"@ + seq![' ']);
    }
    lemma_tells("[cmd] "@ + command, "[cmd]"@, command);
    let lines = text::lines_of(o);
    let l = seq!["[cmd] "@ + command] + state::indented(lines);
    assert(state::detail_lines(UpdateView::Command { command, output: Some(o) }) == l);
    assert(state::detail_lines(UpdateView::Command { command, output: None })
        =~= seq!["[cmd] "@ + command]);
    if 0 <= i < lines.len() {
        assert(l[i + 1] == "    "@ + lines[i]);
        lemma_set_in(lines[i]);
    }
}

/// The token counts are logged in one line that holds both; the final payload is
/// logged whole, as the last line.
pub proof fn law_log_tells_the_end(input: u64, output: u64, t: Seq<char>)
    ensures
        ({
            let l = state::detail_lines(UpdateView::Tokens { input, output });
            &&& l.len() == 1
            &&& text::contains_text(l[0], "in="@ + text::decimal(input as nat))
            &&& text::ends_with(l[0], "out="@ + text::decimal(output as nat))
        }),
        ({
            let l = state::detail_lines(UpdateView::Final(t));
            l.len() == 3 && l.last() == t
        }),
{
    reveal_strlit("[tokens] in=");
    reveal_strlit("[tokens] ");
    reveal_strlit("in=");
    reveal_strlit(" out=");
    reveal_strlit(" ");
    reveal_strlit("out=");
    let a = text::decimal(input as nat);
    let b = text::decimal(output as nat);
    let line = "[tokens] in="@ + a + " out="@ + b;
    assert("[tokens] in="@ =~= "[tokens] "@ + "in="@);
    assert(" out="@ =~= " "@ + "out="@);
    assert(line =~= "[tokens] "@ + ("in="@ + a) + (" out="@ + b));
    text::laws::law_part_is_contained("[tokens] "@, "in="@ + a, " out="@ + b);
    let front = "[tokens] in="@ + a + " "@;
    assert(line =~= front + ("out="@ + b));
    text::laws::law_part_is_contained(front, "out="@ + b, b);
}

// ── Rows ──

/// A group's members are its agents among those given, each once and in the same
/// order.
pub proof fn law_members_keep_their_order(
    agents: Seq<rows::AgentView>,
    idxs: Seq<usize>,
    g: Seq<char>,
    x: usize,
)
    requires
        forall|i: int, j: int| 0 <= i < j < idxs.len() ==> idxs[i] < idxs[j],
    ensures
        rows::members(agents, idxs, g).contains(x) <==> idxs.contains(x) && agents[x as int].group
            == Some(g),
        forall|i: int, j: int|
            0 <= i < j < rows::members(agents, idxs, g).len() ==> rows::members(
                agents,
                idxs,
                g,
            )[i] < rows::members(agents, idxs, g)[j],
    decreases idxs.len(),
{
    let m = rows::members(agents, idxs, g);
    laws::lemma_members(agents, idxs, g);
    if idxs.contains(x) && agents[x as int].group == Some(g) {
        let p = choose|p: int| 0 <= p < idxs.len() && idxs[p] == x;
        laws::lemma_members_complete(agents, idxs, g, p);
    }
    if m.contains(x) {
        let i = choose|i: int| 0 <= i < m.len() && m[i] == x;
        assert(idxs.contains(m[i]));
    }
    if idxs.len() > 0 {
        let head = idxs.drop_last();
        law_members_keep_their_order(agents, head, g, x);
        let mh = rows::members(agents, head, g);
        laws::lemma_members(agents, head, g);
        assert forall|i: int, j: int| 0 <= i < j < m.len() implies m[i] < m[j] by {
            if j < mh.len() {
                assert(mh[i] < mh[j]);
            } else {
                assert(m[j] == idxs.last());
                assert(m[i] == mh[i]);
                assert(head.contains(mh[i]));
                let k = choose|k: int| 0 <= k < head.len() && head[k] == mh[i];
                assert(idxs[k] < idxs[idxs.len() - 1]);
            }
        }
    }
}

/// A row that opens a place of its own in the list: an agent without a group, or
/// the header of one.
pub open spec fn anchor(agents: Seq<rows::AgentView>, r: Row) -> Option<usize> {
    match r {
        Row::Header { first } => Some(first),
        Row::Agent { idx } => if agents[idx as int].group is None {
            Some(idx)
        } else {
            None
        },
    }
}

proof fn lemma_block_anchor(
    agents: Seq<rows::AgentView>,
    idxs: Seq<usize>,
    folded: Set<Seq<char>>,
    p: int,
    i: int,
)
    requires
        0 <= p < idxs.len(),
        0 <= i < rows::row_block(agents, idxs, folded, p).len(),
    ensures
        i == 0 ==> anchor(agents, rows::row_block(agents, idxs, folded, p)[i]) == Some(idxs[p]),
        i > 0 ==> anchor(agents, rows::row_block(agents, idxs, folded, p)[i]) is None,
{
    let b = rows::row_block(agents, idxs, folded, p);
    if i > 0 {
        let g = agents[idxs[p] as int].group->0;
        laws::lemma_members(agents, idxs, g);
        let m = rows::members(agents, idxs, g);
        assert(b[i] == rows::agent_rows(m)[i - 1]);
        assert(agents[m[i - 1] as int].group == Some(g));
    }
}

proof fn lemma_anchors_in_order(
    agents: Seq<rows::AgentView>,
    idxs: Seq<usize>,
    folded: Set<Seq<char>>,
    n: nat,
    i: int,
    j: int,
)
    requires
        forall|a: int, b: int| 0 <= a < b < idxs.len() ==> idxs[a] < idxs[b],
        n <= idxs.len(),
        0 <= i <= j < rows::rows_upto(agents, idxs, folded, n).len(),
    ensures
        ({
            let r = rows::rows_upto(agents, idxs, folded, n);
            &&& anchor(agents, r[i]) matches Some(x) ==> exists|p: int|
                0 <= p < n && #[trigger] idxs[p] == x
            &&& anchor(agents, r[i]) is Some && anchor(agents, r[j]) is Some && i < j ==> anchor(
                agents,
                r[i],
            )->0 < anchor(agents, r[j])->0
        }),
    decreases n,
{
    if n > 0 {
        let m = (n - 1) as nat;
        let before = rows::rows_upto(agents, idxs, folded, m);
        let block = rows::row_block(agents, idxs, folded, m as int);
        let r = rows::rows_upto(agents, idxs, folded, n);
        assert(r == before + block);
        if j < before.len() {
            lemma_anchors_in_order(agents, idxs, folded, m, i, j);
        } else {
            assert(r[j] == block[j - before.len()]);
            lemma_block_anchor(agents, idxs, folded, m as int, j - before.len());
            if i < before.len() {
                assert(r[i] == before[i]);
                lemma_anchors_in_order(agents, idxs, folded, m, i, i);
            } else {
                assert(r[i] == block[i - before.len()]);
                lemma_block_anchor(agents, idxs, folded, m as int, i - before.len());
                assert(idxs[m as int] == idxs[m as int]);
            }
        }
    }
}

/// Agents without a group, and groups by their first agent, are listed in the
/// order in which they were spawned.
pub proof fn law_rows_keep_spawn_order(s: AppView, i: int, j: int)
    requires
        s.wf(),
        0 <= i < j < s.rows().len(),
        anchor(s.agents, s.rows()[i]) is Some,
        anchor(s.agents, s.rows()[j]) is Some,
    ensures
        anchor(s.agents, s.rows()[i])->0 < anchor(s.agents, s.rows()[j])->0,
{
    let idxs = s.selected_agents();
    lemma_anchors_in_order(
        s.agents,
        idxs,
        rows::folded_in(s.collapsed, s.steps_sel),
        idxs.len(),
        i,
        j,
    );
}

proof fn lemma_members_follow(
    agents: Seq<rows::AgentView>,
    idxs: Seq<usize>,
    folded: Set<Seq<char>>,
    n: nat,
    i: int,
    first: usize,
    g: Seq<char>,
)
    requires
        n <= idxs.len(),
        0 <= i < rows::rows_upto(agents, idxs, folded, n).len(),
        rows::rows_upto(agents, idxs, folded, n)[i] == (Row::Header { first }),
        agents[first as int].group == Some(g),
        !folded.contains(g),
    ensures
        ({
            let r = rows::rows_upto(agents, idxs, folded, n);
            let m = rows::members(agents, idxs, g);
            &&& i + m.len() < r.len()
            &&& forall|k: int|
                0 <= k < m.len() ==> r[i + 1 + k] == (Row::Agent { idx: #[trigger] m[k] })
        }),
    decreases n,
{
    let m = (n - 1) as nat;
    let before = rows::rows_upto(agents, idxs, folded, m);
    let block = rows::row_block(agents, idxs, folded, m as int);
    let r = rows::rows_upto(agents, idxs, folded, n);
    assert(r == before + block);
    let ms = rows::members(agents, idxs, g);
    if i < before.len() {
        assert(r[i] == before[i]);
        lemma_members_follow(agents, idxs, folded, m, i, first, g);
        assert forall|k: int| 0 <= k < ms.len() implies r[i + 1 + k] == (Row::Agent {
            idx: #[trigger] ms[k],
        }) by {
            assert(r[i + 1 + k] == before[i + 1 + k]);
        }
    } else {
        assert(r[i] == block[i - before.len()]);
        lemma_block_anchor(agents, idxs, folded, m as int, i - before.len());
        assert(i == before.len());
        assert(block == seq![Row::Header { first: idxs[m as int] }] + rows::agent_rows(ms));
        assert forall|k: int| 0 <= k < ms.len() implies r[i + 1 + k] == (Row::Agent {
            idx: #[trigger] ms[k],
        }) by {
            assert(r[i + 1 + k] == block[1 + k]);
        }
    }
}

/// The members of a group that is not folded stand right below its header, in
/// order.
pub proof fn law_members_follow_their_header(s: AppView, i: int, first: usize, g: Seq<char>, k: int)
    requires
        s.wf(),
        0 <= i < s.rows().len(),
        s.rows()[i] == (Row::Header { first }),
        s.agents[first as int].group == Some(g),
        !s.collapsed.contains((s.steps_sel, g)),
        0 <= k < rows::members(s.agents, s.selected_agents(), g).len(),
    ensures
        i + 1 + k < s.rows().len(),
        s.rows()[i + 1 + k] == (Row::Agent {
            idx: rows::members(s.agents, s.selected_agents(), g)[k],
        }),
{
    let idxs = s.selected_agents();
    lemma_members_follow(
        s.agents,
        idxs,
        rows::folded_in(s.collapsed, s.steps_sel),
        idxs.len(),
        i,
        first,
        g,
    );
}

/// The Agents pane lists the agents of the selected step and of no other.
pub proof fn law_selected_step_is_listed(s: AppView, a: usize)
    requires
        s.wf(),
    ensures
        s.selected_agents().contains(a) <==> a < s.agents.len() && s.agents[a as int].step
            == s.steps_sel,
{
    if s.selected_agents().contains(a) {
        let k = choose|k: int| 0 <= k < s.selected_agents().len() && s.selected_agents()[k] == a;
        assert(s.step_agents[s.steps_sel as int][k] == a);
    }
}

/// An agent has a row exactly when it belongs to the selected step and its group,
/// if it has one, is not folded there.
pub proof fn law_agents_are_shown_unless_folded(s: AppView, idx: usize)
    requires
        s.wf(),
    ensures
        s.rows().contains(Row::Agent { idx }) <==> idx < s.agents.len() && s.agents[idx as int].step
            == s.steps_sel && (s.agents[idx as int].group matches Some(g) ==> !s.collapsed.contains(
            (s.steps_sel, g),
        )),
{
    laws::law_visible_rows(s, Row::Agent { idx });
    law_selected_step_is_listed(s, idx);
}

/// A group has a header exactly when the selected step has an agent of it, folded
/// or not: at the first one.
pub proof fn law_groups_have_one_header(s: AppView, first: usize)
    requires
        s.wf(),
    ensures
        s.rows().contains(Row::Header { first }) <==> first < s.agents.len()
            && s.agents[first as int].step == s.steps_sel && s.agents[first as int].group is Some
            && forall|a: int|
            0 <= a < first && (#[trigger] s.agents[a]).step == s.steps_sel ==> s.agents[a].group
                != s.agents[first as int].group,
{
    let idxs = s.selected_agents();
    let r = Row::Header { first };
    laws::law_visible_rows(s, r);
    law_selected_step_is_listed(s, first);
    if s.rows().contains(r) {
        let p = choose|p: int|
            0 <= p < idxs.len() && idxs[p] == first && (#[trigger] s.agents[idxs[p] as int]).group
                is Some && rows::first_seen(s.agents, idxs, p);
        assert(idxs.contains(first));
        assert forall|a: int|
            0 <= a < first && (#[trigger] s.agents[a]).step == s.steps_sel implies s.agents[a].group
            != s.agents[first as int].group by {
            law_selected_step_is_listed(s, a as usize);
            let q = choose|q: int| 0 <= q < idxs.len() && idxs[q] == a as usize;
            assert(q < p) by {
                if q > p {
                    assert(s.step_agents[s.steps_sel as int][p] < s.step_agents[s.steps_sel as int][q]);
                }
            }
            assert(s.agents[idxs[q] as int].group != s.agents[idxs[p] as int].group);
        }
    }
    if first < s.agents.len() && s.agents[first as int].step == s.steps_sel
        && s.agents[first as int].group is Some && (forall|a: int|
        0 <= a < first && (#[trigger] s.agents[a]).step == s.steps_sel ==> s.agents[a].group
            != s.agents[first as int].group) {
        let p = choose|p: int| 0 <= p < idxs.len() && idxs[p] == first;
        assert forall|q: int| 0 <= q < p implies (#[trigger] s.agents[idxs[q] as int]).group
            != s.agents[idxs[p] as int].group by {
            assert(s.step_agents[s.steps_sel as int][q] < s.step_agents[s.steps_sel as int][p]);
            assert(s.agents[idxs[q] as int].step == s.steps_sel);
        }
        assert(s.agents[idxs[p] as int].group is Some);
        assert(rows::first_seen(s.agents, idxs, p));
    }
}

// ── Runs of events ──

/// A batch of one event is that event, and an empty one is nothing.
pub proof fn law_batch_of_one(s: AppView, ev: EventView)
    ensures
        session::after_events(s, seq![ev]) == state::after_event(s, ev),
        session::after_events(s, Seq::empty()) == s,
{
    reveal_with_fuel(session::after_events, 2);
    assert(seq![ev].drop_last() =~= Seq::<EventView>::empty());
}

// ── What the front-end holds ──

/// The front-end's state says everything it is made of.
pub proof fn law_app_says_everything(a: App, i: int, p: (StepId, Seq<char>))
    ensures
        a@.steps.len() == a.steps@.len(),
        0 <= i < a.steps@.len() ==> a@.steps[i].title == a.steps@[i].title@ && a@.steps[i].status
            == a.steps@[i].status,
        a@.agents.len() == a.agents@.len(),
        0 <= i < a.agents@.len() ==> a@.agents[i] == a.agents@[i]@,
        a@.by_id == a.by_id@,
        a@.step_agents.len() == a.step_agents@.len(),
        0 <= i < a.step_agents@.len() ==> a@.step_agents[i] == a.step_agents@[i]@,
        a@.focus == a.focus,
        a@.steps_sel == a.steps_sel,
        a@.agents_sel == a.agents_sel,
        a@.detail_scroll == a.detail_scroll,
        a@.done is Some <==> a.done is Some,
        a.done matches Some(Ok(t)) ==> a@.done == Some(Ok::<Seq<char>, Seq<char>>(t@)),
        a.done matches Some(Err(t)) ==> a@.done == Some(Err::<Seq<char>, Seq<char>>(t@)),
        a@.should_quit == a.should_quit,
        a@.meta_name == text::opt_text(a.meta_name),
        a@.collapsed.contains(p) <==> exists|k: int|
            0 <= k < a.collapsed@.len() && (#[trigger] a.collapsed@[k]).0 == p.0
                && a.collapsed@[k].1@ == p.1,
        a@.detail_agent == a.detail_agent,
{
}

/// An agent's row says everything it is made of.
pub proof fn law_agent_row_says_everything(a: AgentRow, i: int)
    ensures
        a@.step == a.step,
        a@.label == a.label@,
        a@.group == text::opt_text(a.group),
        a@.status == a.status,
        a@.tokens_in == a.tokens_in,
        a@.tokens_out == a.tokens_out,
        a@.detail.len() == a.detail@.len(),
        0 <= i < a.detail@.len() ==> a@.detail[i] == a.detail@[i]@,
        a@.last_note == text::opt_text(a.last_note),
{
}

// ── What can be taken in ──

/// Every event can be taken in but one that names the very last step number, which
/// leaves none to count up to.
pub proof fn law_events_fit(ev: EventView)
    ensures
        state::event_fits(ev) <==> !(ev matches EventView::StepDeclared { step, .. } && step
            == usize::MAX) && !(ev matches EventView::AgentSpawned { step, .. } && step
            == usize::MAX),
{
}

/// A state has room for as many events as its versions can still count.
pub proof fn law_room_is_what_versions_leave(s: AppView, n: nat)
    ensures
        s.steps_ver + n <= u64::MAX && s.detail_ver + n <= u64::MAX ==> session::room_for(s, n),
        session::room_for(AppView::initial(), u64::MAX as nat),
{
}

} // verus!
