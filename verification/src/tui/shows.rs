//! What the panes show of the state, told over what can be read off the screen.

use vstd::prelude::*;

use crate::cli;
use crate::event::{AgentStatus, KeyEvent, StepStatus};
use crate::render_opt;
use crate::render_opt::{Rect, RenderScheduler};
use crate::text;
use crate::tui;
use crate::tui::panes;
use crate::tui::panes::{ListPane, PieceView, Tone};
use crate::tui::render;
use crate::tui::rows;
use crate::tui::session;
use crate::tui::session::Input;
use crate::tui::state;
use crate::tui::state::{AppView, Focus};

verus! {

// ── Marks and words ──

/// Marks tell statuses apart, and success is green, failure red.
pub proof fn law_marks_tell_statuses_apart(
    a: StepStatus,
    b: StepStatus,
    x: AgentStatus,
    y: AgentStatus,
)
    ensures
        panes::step_mark(a).tone == panes::step_mark(b).tone ==> a == b,
        panes::step_mark(StepStatus::Done).tone == Tone::Green,
        panes::step_mark(StepStatus::Failed).tone == Tone::Red,
        panes::agent_mark(x).tone == panes::agent_mark(y).tone ==> x == y,
        panes::agent_mark(AgentStatus::Done).tone == Tone::Green,
        panes::agent_mark(AgentStatus::Failed).tone == Tone::Red,
{
}

/// Statuses in words are told apart too.
pub proof fn law_words_tell_statuses_apart(a: AgentStatus, b: AgentStatus)
    requires
        panes::status_word(a) == panes::status_word(b),
    ensures
        a == b,
{
    reveal_strlit("pending");
    reveal_strlit("running");
    reveal_strlit("done");
    reveal_strlit("failed");
    assert("pending"@[0] != "running"@[0]);
    assert("pending"@.len() == 7 && "running"@.len() == 7);
    assert("done"@.len() == 4 && "failed"@.len() == 6);
}

/// A text that fits is left alone; a longer one becomes exactly as long as may be,
/// the start of it with a mark for the rest.
pub proof fn law_truncation_keeps_the_start(s: Seq<char>, n: nat, i: int)
    ensures
        s.len() <= n ==> panes::truncated(s, n) == s,
        s.len() > n && n > 0 ==> panes::truncated(s, n).len() == n && panes::truncated(s, n).last()
            == '~',
        s.len() > n && 0 <= i < n - 1 ==> panes::truncated(s, n)[i] == s[i],
{
    reveal_strlit("~");
}

/// The selected line is the wanted one, or the last where there are not so many;
/// an empty list has none.
pub proof fn law_selection_is_held_in_range(wanted: nat, n: nat)
    ensures
        n == 0 <==> panes::selection(wanted, n) is None,
        panes::selection(wanted, n) matches Some(i) ==> i < n && i <= wanted,
        wanted < n ==> panes::selection(wanted, n) == Some(wanted),
        wanted >= n > 0 ==> panes::selection(wanted, n) == Some((n - 1) as nat),
{
}

// ── Steps ──

proof fn lemma_count_by_index(s: AppView, step: int, n: int) -> (k: int)
    requires
        s.wf(),
        0 <= step < s.steps.len(),
        0 <= n <= s.agents.len(),
    ensures
        0 <= k <= s.step_agents[step].len(),
        k == panes::agents_in(s.agents.take(n), step),
        forall|j: int| 0 <= j < k ==> (#[trigger] s.step_agents[step][j]) < n,
        forall|j: int| k <= j < s.step_agents[step].len() ==> #[trigger] s.step_agents[step][j] >= n,
    decreases n,
{
    let ix = s.step_agents[step];
    if n == 0 {
        assert(s.agents.take(0) =~= Seq::empty());
        0
    } else {
        let k = lemma_count_by_index(s, step, n - 1);
        assert(s.agents.take(n).drop_last() =~= s.agents.take(n - 1));
        assert(s.agents.take(n).last() == s.agents[n - 1]);
        if s.agents[n - 1].step == step {
            assert(ix.contains((n - 1) as usize));
            let p = choose|p: int| 0 <= p < ix.len() && ix[p] == (n - 1) as usize;
            assert(p >= k) by {
                if p < k {
                    assert(s.step_agents[step][p] < n - 1);
                }
            }
            if p > k {
                assert(s.step_agents[step][k] >= n - 1);
                assert(s.step_agents[step][k] < s.step_agents[step][p]);
            }
            assert(p == k);
            assert forall|j: int| k + 1 <= j < ix.len() implies #[trigger] s.step_agents[step][j]
                >= n by {
                assert(s.step_agents[step][k] < s.step_agents[step][j]);
            }
            k + 1
        } else {
            assert forall|j: int| k <= j < ix.len() implies #[trigger] s.step_agents[step][j]
                >= n by {
                assert(s.step_agents[step][j] >= n - 1);
                assert(s.agents[s.step_agents[step][j] as int].step == step);
            }
            k
        }
    }
}

/// The number shown at a step is that of the agents listed under it.
pub proof fn law_step_counts_its_agents(s: AppView, step: int)
    requires
        s.wf(),
        0 <= step < s.steps.len(),
    ensures
        panes::agents_in(s.agents, step) == s.step_agents[step].len(),
{
    let n = s.agents.len() as int;
    let k = lemma_count_by_index(s, step, n);
    assert(s.agents.take(n) =~= s.agents);
    if k < s.step_agents[step].len() {
        assert(s.step_agents[step][k] >= n);
    }
}

/// Each step has one line, in order: its mark, its title (or its number, where it
/// has none) and how many agents it has.
pub proof fn law_steps_are_listed(s: AppView, i: int)
    requires
        s.wf(),
        0 <= i < s.steps.len(),
    ensures
        panes::steps_shown(s).lines.len() == s.steps.len(),
        ({
            let l = panes::steps_shown(s).lines[i];
            &&& l.len() == 4
            &&& l[0] == panes::step_mark(s.steps[i].status)
            &&& s.steps[i].title.len() > 0 ==> l[2].text == s.steps[i].title
            &&& s.steps[i].title.len() == 0 ==> text::ends_with(l[2].text, text::decimal(i as nat))
            &&& text::contains_text(l[3].text, text::decimal(s.step_agents[i].len()))
        }),
{
    law_step_counts_its_agents(s, i);
    text::laws::law_part_is_contained("step "@, text::decimal(i as nat), "step "@);
    text::laws::law_part_is_contained("  ("@, text::decimal(s.step_agents[i].len()), ")"@);
}

/// A list shows the line that is selected and is set off while it has the focus,
/// and it alone.
pub proof fn law_lists_show_the_selection(s: AppView)
    requires
        s.wf(),
    ensures
        s.steps.len() > 0 ==> panes::steps_shown(s).selected == Some(s.steps_sel as nat),
        s.steps.len() == 0 ==> panes::steps_shown(s).selected is None,
        s.agents_sel < s.rows().len() ==> panes::agents_shown(s).selected == Some(
            s.agents_sel as nat,
        ),
        s.rows().len() == 0 ==> panes::agents_shown(s).selected is None,
        panes::steps_shown(s).active <==> s.focus == Focus::Steps,
        panes::agents_shown(s).active <==> s.focus == Focus::Agents,
{
}

// ── Agents ──

/// Each visible row has one line, in order, and the title names the selected step.
pub proof fn law_rows_are_listed(s: AppView, i: int)
    requires
        s.wf(),
    ensures
        panes::agents_shown(s).lines.len() == s.rows().len(),
        0 <= i < s.rows().len() && s.rows()[i] is Header ==> panes::agents_shown(s).lines[i]
            == panes::header_line(s, s.rows()[i]->first),
        0 <= i < s.rows().len() && s.rows()[i] is Agent ==> panes::agents_shown(s).lines[i]
            == panes::agent_line(s, s.rows()[i]->idx),
        s.steps.len() > 0 ==> text::contains_text(
            panes::agents_shown(s).title,
            s.steps[s.steps_sel as int].title,
        ),
{
    if s.steps.len() > 0 {
        text::laws::law_part_is_contained(
            " Agents · "@,
            s.steps[s.steps_sel as int].title,
            " "@,
        );
    }
}

/// An agent's line has its mark, its label in a field of 28 columns, set in by two
/// for a group's member, and its tokens, in and out.
pub proof fn law_agent_line_tells_its_agent(s: AppView, idx: usize, i: int)
    ensures
        ({
            let a = s.agents[idx as int];
            let l = panes::agent_line(s, idx);
            let inset = if a.group is Some {
                2int
            } else {
                0
            };
            let room = 28 - inset;
            &&& l.len() == 4
            &&& l[0] == panes::agent_mark(a.status)
            &&& l[2].text.len() == 28
            &&& 0 <= i < inset ==> l[2].text[i] == ' '
            &&& 0 <= i < a.label.len() && a.label.len() <= room ==> l[2].text[inset + i]
                == a.label[i]
            &&& 0 <= i < room - 1 && a.label.len() > room ==> l[2].text[inset + i] == a.label[i]
            &&& l[3].text == text::decimal(a.tokens_in as nat) + seq!['/'] + text::decimal(
                a.tokens_out as nat,
            )
        }),
{
    reveal_strlit("  ");
    reveal_strlit("/");
    reveal_strlit("~");
    assert("/"@ =~= seq!['/']);
    let a = s.agents[idx as int];
    if a.group is Some {
        let t = panes::truncated(a.label, 26);
        law_truncation_keeps_the_start(a.label, 26, i);
        let f = "  "@ + t;
        assert(f.len() <= 28);
        assert(0 <= i < t.len() ==> f[2 + i] == t[i]);
    } else {
        law_truncation_keeps_the_start(a.label, 28, i);
    }
}

/// A group's status: failed as soon as a member is, done once all are, and
/// running otherwise, in whatever order the members come.
pub proof fn law_rollup_goes_by_the_members(statuses: Seq<AgentStatus>)
    ensures
        tui::rolled_up(statuses) == AgentStatus::Failed <==> statuses.contains(AgentStatus::Failed),
        tui::rolled_up(statuses) == AgentStatus::Done <==> statuses.len() > 0 && forall|i: int|
            0 <= i < statuses.len() ==> statuses[i] == AgentStatus::Done,
        tui::rolled_up(statuses) != AgentStatus::Pending,
{
    if statuses.contains(AgentStatus::Failed) {
        let i = statuses.index_of(AgentStatus::Failed);
        assert(statuses[i] == AgentStatus::Failed);
    }
    if tui::rolled_up(statuses) == AgentStatus::Failed {
        let i = choose|i: int| 0 <= i < statuses.len() && statuses[i] == AgentStatus::Failed;
        assert(statuses.contains(statuses[i]));
    }
}

/// Done members are counted one by one.
pub proof fn law_done_members_are_counted(a: Seq<AgentStatus>, s: AgentStatus)
    ensures
        panes::done_count(Seq::empty()) == 0,
        panes::done_count(a.push(s)) == panes::done_count(a) + (if s == AgentStatus::Done {
            1int
        } else {
            0
        }),
{
    assert(a.push(s).drop_last() =~= a);
}

/// The members' tokens add up, in and out apart.
pub proof fn law_member_tokens_add_up(agents: Seq<rows::AgentView>, m: Seq<usize>, x: usize)
    ensures
        panes::tokens_in(agents, Seq::empty()) == 0,
        panes::tokens_out(agents, Seq::empty()) == 0,
        panes::tokens_in(agents, m.push(x)) == panes::tokens_in(agents, m)
            + agents[x as int].tokens_in,
        panes::tokens_out(agents, m.push(x)) == panes::tokens_out(agents, m)
            + agents[x as int].tokens_out,
{
    assert(m.push(x).drop_last() =~= m);
}

/// The statuses of some agents are their own, in order.
pub proof fn law_statuses_are_the_agents_own(agents: Seq<rows::AgentView>, m: Seq<usize>, i: int)
    ensures
        panes::statuses(agents, m).len() == m.len(),
        0 <= i < m.len() ==> panes::statuses(agents, m)[i] == agents[m[i] as int].status,
{
}

/// A header's line has the mark of the group as a whole, the group's name after a
/// sign of whether it is open, how many members are done out of how many, and
/// their tokens.
pub proof fn law_header_line_tells_its_group(s: AppView, first: usize, g: Seq<char>, i: int)
    requires
        s.agents[first as int].group == Some(g),
    ensures
        ({
            let l = panes::header_line(s, first);
            let m = rows::members(s.agents, s.selected_agents(), g);
            let all = panes::statuses(s.agents, m);
            &&& l.len() == 4
            &&& l[0].tone == Tone::Red <==> all.contains(AgentStatus::Failed)
            &&& l[0].tone == Tone::Green <==> m.len() > 0 && forall|k: int|
                0 <= k < m.len() ==> (#[trigger] all[k]) == AgentStatus::Done
            &&& l[2].text.len() == 28
            &&& l[2].text[0] == if s.collapsed.contains((s.steps_sel, g)) {
                '>'
            } else {
                'v'
            }
            &&& 0 <= i < g.len() && i < 25 ==> l[2].text[i + 2] == g[i]
            &&& l[3].text == seq!['['] + text::decimal(panes::done_count(all)) + seq!['/']
                + text::decimal(m.len()) + seq![']', ' ', ' '] + text::decimal(
                panes::tokens_in(s.agents, m),
            ) + seq!['/'] + text::decimal(panes::tokens_out(s.agents, m))
        }),
{
    let m = rows::members(s.agents, s.selected_agents(), g);
    let all = panes::statuses(s.agents, m);
    law_rollup_goes_by_the_members(all);
    reveal_strlit("v ");
    reveal_strlit("> ");
    reveal_strlit("~");
    reveal_strlit("[");
    reveal_strlit("/");
    reveal_strlit("]  ");
    assert("["@ =~= seq!['[']);
    assert("/"@ =~= seq!['/']);
    assert("]  "@ =~= seq![']', ' ', ' ']);
    let name = if s.collapsed.contains((s.steps_sel, g)) {
        "> "@ + g
    } else {
        "v "@ + g
    };
    law_truncation_keeps_the_start(name, 28, i + 2);
    law_truncation_keeps_the_start(name, 28, 0);
    let t = panes::truncated(name, 28);
    assert(t.len() <= 28 && t.len() >= 2);
    assert(panes::header_line(s, first)[2].text == text::padded(t, 28));
    assert(0 <= i < g.len() && i < 25 ==> name[i + 2] == g[i]);
}

// ── The status line ──

/// The status line ends with how the run stands, tells the keys before that, and
/// starts with the workflow's name where it has one.
pub proof fn law_status_line_tells_the_run(s: AppView)
    ensures
        ({
            let l = panes::status_shown(s);
            &&& s.done is None <==> l.last().tone == Tone::OnYellow
            &&& (s.done is Some && s.done->0 is Ok) <==> l.last().tone == Tone::OnGreen
            &&& (s.done is Some && s.done->0 is Err) <==> l.last().tone == Tone::OnRed
            &&& s.meta_name is None ==> l.len() == 3
            &&& s.meta_name matches Some(n) ==> l.len() == 5 && text::contains_text(l[0].text, n)
            &&& l[l.len() - 3].text == panes::hint(s.focus)
        }),
{
    match s.meta_name {
        Some(n) => text::laws::law_part_is_contained(" "@, n, " "@),
        None => {},
    }
}

/// Each pane has hints of its own.
pub proof fn law_hints_follow_the_focus(f: Focus, g: Focus)
    requires
        panes::hint(f) == panes::hint(g),
    ensures
        f == g,
{
    reveal_strlit(" Up/Dn steps | -> agents | q quit ");
    reveal_strlit(" Up/Dn agents | -> detail | <- steps | q quit ");
    reveal_strlit(" Up/Dn/PgUp/PgDn scroll | <- back | q quit ");
    assert(" Up/Dn steps | -> agents | q quit "@.len() == 34);
    assert(" Up/Dn agents | -> detail | <- steps | q quit "@.len() == 46);
    assert(" Up/Dn/PgUp/PgDn scroll | <- back | q quit "@.len() == 43);
}

// ── After the screen is left ──

/// The summary lists the failed agents and no others, in spawn order, each by the
/// name it is shown under and its latest note.
pub proof fn law_summary_lists_the_failed(agents: Seq<rows::AgentView>, a: rows::AgentView)
    ensures
        panes::failed_agents(Seq::empty()).len() == 0,
        a.status == AgentStatus::Failed ==> panes::failed_agents(agents.push(a))
            == panes::failed_agents(agents).push((cli::display_name(a.group, a.label), a.last_note)),
        a.status != AgentStatus::Failed ==> panes::failed_agents(agents.push(a))
            == panes::failed_agents(agents),
{
    assert(agents.push(a).drop_last() =~= agents);
}

// ── Detail ──

/// A pane's border takes one line and one column on each side; at least one column
/// is left.
pub proof fn law_border_takes_two(area: Rect)
    ensures
        area.height >= 2 ==> render::view_height(area) + 2 == area.height,
        area.height < 2 ==> render::view_height(area) == 0,
        area.width >= 3 ==> render::inner_width(area) + 2 == area.width,
        area.width < 3 ==> render::inner_width(area) == 1,
{
}

/// A log is wrapped line by line, in order, and no line is lost.
pub proof fn law_log_is_wrapped_line_by_line(log: Seq<Seq<char>>, line: Seq<char>, cols: nat)
    ensures
        render::wrapped_log(Seq::empty(), cols).len() == 0,
        render::wrapped_log(log.push(line), cols) == render::wrapped_log(log, cols)
            + render_opt::wrapped(line, cols),
{
    assert(log.push(line).drop_last() =~= log);
}

/// The Detail pane shows the log from the wanted line on, or from the last line
/// from which it still fills the pane; it names the agent and its status.
pub proof fn law_detail_shows_the_wanted_part(
    s: AppView,
    agent: usize,
    all: Seq<Seq<char>>,
    area: Rect,
    i: int,
)
    ensures
        ({
            let d = render::detail_shown(s, agent, all, area);
            let h = if area.height >= 2 {
                area.height - 2
            } else {
                0
            };
            &&& d.total == all.len()
            &&& s.detail_scroll + h <= all.len() ==> d.position == s.detail_scroll
            &&& s.detail_scroll + h > all.len() && all.len() >= h ==> d.position + h == all.len()
            &&& all.len() < h ==> d.position == 0
            &&& d.lines.len() == if all.len() < h {
                all.len() as int
            } else {
                h
            }
            &&& 0 <= i < d.lines.len() ==> d.lines[i] == all[d.position + i]
            &&& text::contains_text(d.title, s.agents[agent as int].label)
            &&& text::contains_text(d.title, panes::status_word(s.agents[agent as int].status))
        }),
{
    let a = s.agents[agent as int];
    let w = panes::status_word(a.status);
    let title = " Agent: "@ + a.label + " ["@ + w + "] "@;
    text::laws::law_part_is_contained(" Agent: "@, a.label, " ["@ + w + "] "@);
    assert(title =~= " Agent: "@ + a.label + (" ["@ + w + "] "@));
    text::laws::law_part_is_contained(" Agent: "@ + a.label + " ["@, w, "] "@);
}

// ── Bursts ──

/// Keys of a burst are acted on one by one, in order, each as if it came alone,
/// until one quits.
pub proof fn law_bursts_go_key_by_key(
    s: AppView,
    d: RenderScheduler,
    k: KeyEvent,
    rest: Seq<Input>,
)
    requires
        !s.should_quit,
    ensures
        !k.release && !state::after_key(s, k).should_quit ==> session::after_burst(
            s,
            d,
            seq![Input::Key(k)] + rest,
        ) == session::after_burst(state::after_key(s, k), d.after_key(), rest),
        k.release ==> session::after_burst(s, d, seq![Input::Key(k)] + rest)
            == session::after_burst(s, d, rest),
        session::after_burst(s, d, seq![Input::Other] + rest) == session::after_burst(s, d, rest),
        session::after_burst(s, d, Seq::empty()) == (s, d),
{
    let a = seq![Input::Key(k)] + rest;
    assert(a.first() == Input::Key(k));
    assert(a.drop_first() =~= rest);
    let b = seq![Input::Other] + rest;
    assert(b.first() == Input::Other);
    assert(b.drop_first() =~= rest);
}

/// A pane says everything it is made of.
pub proof fn law_pane_says_everything(p: ListPane, i: int, j: int)
    ensures
        p@.title == p.title@,
        p@.active == p.active,
        p@.selected is Some <==> p.selected is Some,
        p.selected matches Some(k) ==> p@.selected == Some(k as nat),
        p@.lines.len() == p.lines@.len(),
        0 <= i < p.lines@.len() ==> p@.lines[i].len() == p.lines@[i]@.len(),
        0 <= i < p.lines@.len() && 0 <= j < p.lines@[i]@.len() ==> p@.lines[i][j]
            == (PieceView { text: p.lines@[i]@[j].text@, tone: p.lines@[i]@[j].tone }),
{
}

} // verus!
