//! What each key does, told over where the selection stands before and after.

use vstd::prelude::*;

use crate::event;
use crate::event::{KeyCode, KeyEvent};
use crate::tui::laws;
use crate::tui::rows;
use crate::tui::rows::Row;
use crate::tui::session;
use crate::tui::state;
use crate::tui::state::{AppView, Focus};

verus! {

/// Pressing a key.
pub open spec fn press(code: KeyCode) -> KeyEvent {
    KeyEvent { code, control: false, release: false }
}

/// The state after some keys, first to last.
pub open spec fn after_keys(s: AppView, codes: Seq<KeyCode>) -> AppView
    decreases codes.len(),
{
    if codes.len() == 0 {
        s
    } else {
        state::after_key(after_keys(s, codes.drop_last()), press(codes.last()))
    }
}

// ── Steps ──

/// Down in the Steps pane selects the next step while there is one; Up selects
/// the one before while there is one, so each undoes the other. At the ends the
/// selection stays.
pub proof fn law_arrows_move_between_steps(s: AppView, down: KeyEvent, up: KeyEvent)
    requires
        s.focus == Focus::Steps,
        down.code == KeyCode::Down,
        up.code == KeyCode::Up,
        s.steps.len() <= usize::MAX,
    ensures
        state::after_key(s, down).focus == Focus::Steps,
        state::after_key(s, up).focus == Focus::Steps,
        s.steps_sel < s.steps.len() - 1 ==> state::after_key(s, down).steps_sel == s.steps_sel + 1,
        s.steps_sel < s.steps.len() - 1 ==> state::after_key(
            state::after_key(s, down),
            up,
        ).steps_sel == s.steps_sel,
        s.steps_sel >= s.steps.len() - 1 ==> state::after_key(s, down).steps_sel == s.steps_sel,
        s.steps_sel > 0 ==> state::after_key(s, up).steps_sel == s.steps_sel - 1,
        0 < s.steps_sel < s.steps.len() ==> state::after_key(
            state::after_key(s, up),
            down,
        ).steps_sel == s.steps_sel,
        s.steps_sel == 0 ==> state::after_key(s, up).steps_sel == 0,
{
}

/// As many presses of one key.
pub open spec fn times(code: KeyCode, n: nat) -> Seq<KeyCode> {
    Seq::new(n, |i: int| code)
}

proof fn lemma_downs(s: AppView, n: nat)
    requires
        s.focus == Focus::Steps,
        s.steps_sel + n < s.steps.len() <= usize::MAX,
    ensures
        ({
            let t = after_keys(s, times(KeyCode::Down, n));
            t.focus == Focus::Steps && t.steps_sel == s.steps_sel + n && t.steps == s.steps
        }),
    decreases n,
{
    if n > 0 {
        let m = (n - 1) as nat;
        lemma_downs(s, m);
        assert(times(KeyCode::Down, n).drop_last() =~= times(KeyCode::Down, m));
        let t = after_keys(s, times(KeyCode::Down, m));
        law_arrows_move_between_steps(t, press(KeyCode::Down), press(KeyCode::Up));
        laws::law_keys_keep_data(t, press(KeyCode::Down));
    }
}

proof fn lemma_ups(s: AppView, n: nat)
    requires
        s.focus == Focus::Steps,
        n <= s.steps_sel,
        s.steps.len() <= usize::MAX,
    ensures
        ({
            let t = after_keys(s, times(KeyCode::Up, n));
            t.focus == Focus::Steps && t.steps_sel == s.steps_sel - n && t.steps == s.steps
        }),
    decreases n,
{
    if n > 0 {
        let m = (n - 1) as nat;
        lemma_ups(s, m);
        assert(times(KeyCode::Up, n).drop_last() =~= times(KeyCode::Up, m));
        let t = after_keys(s, times(KeyCode::Up, m));
        law_arrows_move_between_steps(t, press(KeyCode::Down), press(KeyCode::Up));
        laws::law_keys_keep_data(t, press(KeyCode::Up));
    }
}

/// From any step every other can be reached by the arrow keys alone, by as many
/// presses as the two are apart.
pub proof fn law_every_step_can_be_reached(s: AppView, target: usize)
    requires
        s.focus == Focus::Steps,
        target < s.steps.len() <= usize::MAX,
    ensures
        target >= s.steps_sel ==> after_keys(
            s,
            times(KeyCode::Down, (target - s.steps_sel) as nat),
        ).steps_sel == target,
        target < s.steps_sel ==> after_keys(
            s,
            times(KeyCode::Up, (s.steps_sel - target) as nat),
        ).steps_sel == target,
{
    if target >= s.steps_sel {
        lemma_downs(s, (target - s.steps_sel) as nat);
    } else {
        lemma_ups(s, (s.steps_sel - target) as nat);
    }
}

/// No event moves the focus, selects another step, scrolls, quits or folds a
/// group: only keys do.
pub proof fn law_events_leave_the_user_alone(s: AppView, ev: event::EventView)
    ensures
        ({
            let t = state::after_event(s, ev);
            &&& t.focus == s.focus
            &&& t.steps_sel == s.steps_sel
            &&& t.detail_scroll == s.detail_scroll
            &&& t.should_quit == s.should_quit
            &&& t.collapsed == s.collapsed
            &&& t.collapse_gen == s.collapse_gen
            &&& t.detail_agent == s.detail_agent
        }),
{
}

proof fn lemma_events_leave_the_user_alone(s: AppView, evs: Seq<event::EventView>)
    ensures
        session::after_events(s, evs).focus == s.focus,
        session::after_events(s, evs).steps_sel == s.steps_sel,
    decreases evs.len(),
{
    if evs.len() > 0 {
        lemma_events_leave_the_user_alone(s, evs.drop_last());
        law_events_leave_the_user_alone(
            session::after_events(s, evs.drop_last()),
            evs.last(),
        );
    }
}

/// Whatever steps a run declares, from the start each of them is selected after
/// as many presses of Down as there are steps before it.
pub proof fn law_every_declared_step_can_be_reached(evs: Seq<event::EventView>, target: usize)
    requires
        target < session::after_events(AppView::initial(), evs).steps.len() <= usize::MAX,
    ensures
        ({
            let s = session::after_events(AppView::initial(), evs);
            let t = after_keys(s, times(KeyCode::Down, target as nat));
            t.steps_sel == target && t.focus == Focus::Steps
        }),
{
    let s = session::after_events(AppView::initial(), evs);
    lemma_events_leave_the_user_alone(AppView::initial(), evs);
    lemma_downs(s, target as nat);
}

/// At the start nothing is shown, the Steps pane has the focus, and nothing is
/// folded, finished or quit.
pub proof fn law_start_is_blank()
    ensures
        AppView::initial().steps.len() == 0,
        AppView::initial().agents.len() == 0,
        AppView::initial().step_agents.len() == 0,
        AppView::initial().focus == Focus::Steps,
        AppView::initial().steps_sel == 0,
        AppView::initial().done is None,
        AppView::initial().meta_name is None,
        AppView::initial().detail_agent is None,
        !AppView::initial().should_quit,
        forall|id: event::AgentId| !#[trigger] AppView::initial().by_id.contains_key(id),
        forall|p: (event::StepId, Seq<char>)| !#[trigger]
            AppView::initial().collapsed.contains(p),
{
}

// ── Drilling in and going back ──

/// Right and Enter go from a step to its agents, the first row selected; a step
/// without agents is not entered.
pub proof fn law_a_step_is_entered(s: AppView, k: KeyEvent)
    requires
        s.wf(),
        s.focus == Focus::Steps,
        k.code == KeyCode::Right || k.code == KeyCode::Enter,
    ensures
        ({
            let t = state::after_key(s, k);
            let agents = s.steps_sel < s.step_agents.len() && s.step_agents[s.steps_sel as int].len()
                > 0;
            &&& agents ==> t.focus == Focus::Agents && t.agents_sel == 0
            &&& !agents ==> t == s
            &&& t.steps_sel == s.steps_sel
        }),
{
}

/// Left and Esc go back one pane and keep what was selected there; in the Steps
/// pane they do nothing.
pub proof fn law_going_back_keeps_the_selection(s: AppView, k: KeyEvent)
    requires
        k.code == KeyCode::Left || k.code == KeyCode::Esc,
    ensures
        ({
            let t = state::after_key(s, k);
            &&& s.focus == Focus::Detail ==> t.focus == Focus::Agents
            &&& s.focus == Focus::Agents ==> t.focus == Focus::Steps
            &&& s.focus == Focus::Steps ==> t == s
            &&& t.steps_sel == s.steps_sel
            &&& t.agents_sel == s.agents_sel
            &&& t.should_quit == s.should_quit
        }),
{
}

/// Entering a step and going back is as if nothing happened but for the selection
/// among its agents.
pub proof fn law_a_step_is_left_as_it_was_entered(s: AppView, k: KeyEvent, back: KeyEvent)
    requires
        s.wf(),
        s.focus == Focus::Steps,
        k.code == KeyCode::Right || k.code == KeyCode::Enter,
        back.code == KeyCode::Left || back.code == KeyCode::Esc,
    ensures
        ({
            let t = state::after_key(state::after_key(s, k), back);
            t.focus == Focus::Steps && t.steps_sel == s.steps_sel && t.collapsed == s.collapsed
                && t.detail_agent == s.detail_agent
        }),
{
}

/// Right and Enter on an agent show that very agent from its first line.
pub proof fn law_an_agent_is_opened(s: AppView, k: KeyEvent, idx: usize)
    requires
        s.focus == Focus::Agents,
        k.code == KeyCode::Right || k.code == KeyCode::Enter,
        s.agents_sel < s.rows().len(),
        s.rows()[s.agents_sel as int] == (Row::Agent { idx }),
    ensures
        ({
            let t = state::after_key(s, k);
            &&& t.focus == Focus::Detail
            &&& t.detail_agent == Some(idx)
            &&& t.detail_scroll == 0
            &&& t.steps_sel == s.steps_sel
            &&& t.agents_sel == s.agents_sel
            &&& t.collapsed == s.collapsed
        }),
{
}

/// Right and Enter on a group's header fold the group, or unfold it: after that
/// its members are shown exactly when they were not before, its header stays, and
/// no other group is touched.
pub proof fn law_a_group_is_folded(
    s: AppView,
    k: KeyEvent,
    first: usize,
    g: Seq<char>,
    member: usize,
    other: (event::StepId, Seq<char>),
)
    requires
        s.wf(),
        s.focus == Focus::Agents,
        k.code == KeyCode::Right || k.code == KeyCode::Enter,
        s.agents_sel < s.rows().len(),
        s.rows()[s.agents_sel as int] == (Row::Header { first }),
        s.agents[first as int].group == Some(g),
        s.selected_agents().contains(member),
        s.agents[member as int].group == Some(g),
        other != (s.steps_sel, g),
    ensures
        ({
            let t = state::after_key(s, k);
            &&& t.focus == Focus::Agents
            &&& t.rows().contains(Row::Agent { idx: member }) <==> !s.rows().contains(
                Row::Agent { idx: member },
            )
            &&& t.rows().contains(Row::Header { first })
            &&& t.collapsed.contains(other) == s.collapsed.contains(other)
            &&& t.agents_sel < t.rows().len()
        }),
{
    let t = state::after_key(s, k);
    let r = Row::Header { first };
    laws::law_key_keeps_wf(s, k);
    assert(s.rows().contains(r));
    laws::law_visible_rows(s, r);
    laws::law_visible_rows(s, Row::Agent { idx: member });
    let f0 = rows::folded_in(s.collapsed, s.steps_sel);
    let f1 = rows::folded_in(t.collapsed, t.steps_sel);
    assert(t.steps_sel == s.steps_sel);
    assert(t.selected_agents() == s.selected_agents());
    assert(f1.contains(g) <==> !f0.contains(g));
    laws::law_visible_rows(t, r);
    laws::law_visible_rows(t, Row::Agent { idx: member });
    assert(laws::shown(t.agents, t.selected_agents(), f1, r));
    assert(t.rows().contains(r));
}

// ── Agents ──

/// Down in the Agents pane selects the next visible row while there is one; Up
/// selects the one before while there is one, so each undoes the other.
pub proof fn law_arrows_move_between_rows(s: AppView, down: KeyEvent, up: KeyEvent)
    requires
        s.focus == Focus::Agents,
        down.code == KeyCode::Down,
        up.code == KeyCode::Up,
        s.rows().len() <= usize::MAX,
    ensures
        state::after_key(s, down).focus == Focus::Agents,
        state::after_key(s, up).focus == Focus::Agents,
        state::after_key(s, down).steps_sel == s.steps_sel,
        state::after_key(s, up).steps_sel == s.steps_sel,
        s.agents_sel < s.rows().len() - 1 ==> state::after_key(s, down).agents_sel == s.agents_sel
            + 1,
        s.agents_sel < s.rows().len() - 1 ==> state::after_key(
            state::after_key(s, down),
            up,
        ).agents_sel == s.agents_sel,
        s.agents_sel >= s.rows().len() - 1 ==> state::after_key(s, down).agents_sel
            == s.agents_sel,
        s.agents_sel > 0 ==> state::after_key(s, up).agents_sel == s.agents_sel - 1,
        s.agents_sel == 0 ==> state::after_key(s, up).agents_sel == 0,
{
}

proof fn lemma_row_downs(s: AppView, n: nat)
    requires
        s.focus == Focus::Agents,
        s.agents_sel + n < s.rows().len() <= usize::MAX,
    ensures
        ({
            let t = after_keys(s, times(KeyCode::Down, n));
            t.focus == Focus::Agents && t.agents_sel == s.agents_sel + n && t.rows() == s.rows()
        }),
    decreases n,
{
    if n > 0 {
        let m = (n - 1) as nat;
        lemma_row_downs(s, m);
        assert(times(KeyCode::Down, n).drop_last() =~= times(KeyCode::Down, m));
        let t = after_keys(s, times(KeyCode::Down, m));
        law_arrows_move_between_rows(t, press(KeyCode::Down), press(KeyCode::Up));
        laws::law_keys_keep_data(t, press(KeyCode::Down));
        let u = state::after_key(t, press(KeyCode::Down));
        assert(u.collapsed == t.collapsed);
    }
}

/// Every visible agent of the selected step can be opened by keys: drill in, go
/// down to its row, and open it.
pub proof fn law_every_visible_agent_can_be_opened(s: AppView, row: int, idx: usize)
    requires
        s.wf(),
        s.focus == Focus::Steps,
        0 <= row < s.rows().len() <= usize::MAX,
        s.rows()[row] == (Row::Agent { idx }),
    ensures
        ({
            let inside = state::after_key(s, press(KeyCode::Enter));
            let there = after_keys(inside, times(KeyCode::Down, row as nat));
            let t = state::after_key(there, press(KeyCode::Enter));
            t.focus == Focus::Detail && t.detail_agent == Some(idx)
        }),
{
    if s.selected_agents().len() == 0 {
        assert(s.rows().len() == 0);
    }
    let inside = state::after_key(s, press(KeyCode::Enter));
    assert(inside.rows() == s.rows());
    lemma_row_downs(inside, row as nat);
    let there = after_keys(inside, times(KeyCode::Down, row as nat));
    law_an_agent_is_opened(there, press(KeyCode::Enter), idx);
}

// ── Detail ──

/// In the Detail pane the arrows scroll by one line and the page keys by ten, not
/// past the top; Home goes to the top and End as far down as can be asked. Nothing
/// else changes.
pub proof fn law_detail_scrolls(s: AppView, k: KeyEvent)
    requires
        s.focus == Focus::Detail,
        s.detail_scroll < usize::MAX - 10,
    ensures
        k.code == KeyCode::Down ==> state::after_key(s, k).detail_scroll == s.detail_scroll + 1,
        k.code == KeyCode::PageDown ==> state::after_key(s, k).detail_scroll == s.detail_scroll
            + 10,
        k.code == KeyCode::Up && s.detail_scroll >= 1 ==> state::after_key(s, k).detail_scroll
            == s.detail_scroll - 1,
        k.code == KeyCode::PageUp && s.detail_scroll >= 10 ==> state::after_key(s, k).detail_scroll
            == s.detail_scroll - 10,
        k.code == KeyCode::Up && s.detail_scroll == 0 ==> state::after_key(s, k).detail_scroll == 0,
        k.code == KeyCode::PageUp && s.detail_scroll < 10 ==> state::after_key(s, k).detail_scroll
            == 0,
        k.code == KeyCode::Home ==> state::after_key(s, k).detail_scroll == 0,
        k.code == KeyCode::End ==> state::after_key(s, k).detail_scroll == usize::MAX,
{
}

/// Near the largest offset, scrolling down stops there instead of going round.
pub proof fn law_detail_scroll_saturates(s: AppView, k: KeyEvent)
    requires
        s.focus == Focus::Detail,
        k.code == KeyCode::Down || k.code == KeyCode::PageDown,
    ensures
        state::after_key(s, k).detail_scroll >= s.detail_scroll,
        s.detail_scroll == usize::MAX ==> state::after_key(s, k).detail_scroll == usize::MAX,
{
}

// ── Everything else ──

/// `q` and control-`c` quit from every pane, and no other key does.
pub proof fn law_only_two_keys_quit(s: AppView, k: KeyEvent)
    requires
        !s.should_quit,
    ensures
        state::after_key(s, k).should_quit <==> k.code == KeyCode::Char('q') || (k.code
            == KeyCode::Char('c') && k.control),
        state::after_key(s, k).should_quit ==> state::after_key(s, k) == (AppView {
            should_quit: true,
            ..s
        }),
{
}

/// A key without a meaning in the pane that has the focus changes nothing.
pub proof fn law_other_keys_do_nothing(s: AppView, k: KeyEvent)
    requires
        k.code is Other || (k.code matches KeyCode::Char(c) && c != 'q' && !(c == 'c' && k.control))
            || (s.focus != Focus::Detail && (k.code is PageUp || k.code is PageDown || k.code
            is Home || k.code is End)) || (s.focus == Focus::Detail && (k.code is Right || k.code
            is Enter)),
    ensures
        state::after_key(s, k) == s,
{
}

/// Both cached panes are rebuilt exactly after a key that moves the focus or a
/// selection, or folds or unfolds a group.
pub proof fn law_moves_rebuild_the_panes(s: AppView, k: KeyEvent)
    ensures
        ({
            let t = state::after_key(s, k);
            let moved = t.focus != s.focus || t.steps_sel != s.steps_sel || t.agents_sel
                != s.agents_sel || t.collapse_gen != s.collapse_gen;
            &&& moved ==> t.steps_ver != s.steps_ver && t.detail_ver != s.detail_ver
            &&& !moved ==> t.steps_ver == s.steps_ver && t.detail_ver == s.detail_ver
            &&& t.collapsed != s.collapsed ==> moved
        }),
{
}

proof fn lemma_same_before(
    agents: Seq<rows::AgentView>,
    idxs: Seq<usize>,
    a: Set<Seq<char>>,
    b: Set<Seq<char>>,
    g: Seq<char>,
    n: nat,
)
    requires
        n <= idxs.len(),
        forall|q: int| 0 <= q < n ==> (#[trigger] agents[idxs[q] as int]).group != Some(g),
        forall|x: Seq<char>| x != g ==> (#[trigger] a.contains(x) <==> b.contains(x)),
    ensures
        rows::rows_upto(agents, idxs, a, n) == rows::rows_upto(agents, idxs, b, n),
    decreases n,
{
    if n > 0 {
        lemma_same_before(agents, idxs, a, b, g, (n - 1) as nat);
        assert(agents[idxs[n - 1] as int].group != Some(g));
    }
}

proof fn lemma_rows_prefix(
    agents: Seq<rows::AgentView>,
    idxs: Seq<usize>,
    folded: Set<Seq<char>>,
    m: nat,
    n: nat,
    i: int,
)
    requires
        m <= n <= idxs.len(),
        0 <= i < rows::rows_upto(agents, idxs, folded, m).len(),
    ensures
        i < rows::rows_upto(agents, idxs, folded, n).len(),
        rows::rows_upto(agents, idxs, folded, n)[i] == rows::rows_upto(agents, idxs, folded, m)[i],
    decreases n - m,
{
    if m < n {
        lemma_rows_prefix(agents, idxs, folded, m, (n - 1) as nat, i);
    }
}

proof fn lemma_header_place(
    agents: Seq<rows::AgentView>,
    idxs: Seq<usize>,
    folded: Set<Seq<char>>,
    p: int,
    g: Seq<char>,
)
    requires
        0 <= p < idxs.len(),
        agents[idxs[p] as int].group == Some(g),
        rows::first_seen(agents, idxs, p),
    ensures
        ({
            let at = rows::rows_upto(agents, idxs, folded, p as nat).len() as int;
            let all = rows::visible_rows(agents, idxs, folded);
            at < all.len() && all[at] == (Row::Header { first: idxs[p] })
        }),
{
    let at = rows::rows_upto(agents, idxs, folded, p as nat).len() as int;
    let block = rows::row_block(agents, idxs, folded, p);
    assert(block[0] == (Row::Header { first: idxs[p] }));
    lemma_rows_prefix(agents, idxs, folded, (p + 1) as nat, idxs.len(), at);
}

/// Folding or unfolding a group keeps its header selected.
pub proof fn law_folding_keeps_the_header_selected(s: AppView, k: KeyEvent, first: usize)
    requires
        s.wf(),
        s.focus == Focus::Agents,
        k.code == KeyCode::Right || k.code == KeyCode::Enter,
        s.selected_row() == Some(Row::Header { first }),
    ensures
        state::after_key(s, k).selected_row() == Some(Row::Header { first }),
        state::after_key(s, k).agents_sel == s.agents_sel,
{
    let r = Row::Header { first };
    let t = state::after_key(s, k);
    let idxs = s.selected_agents();
    let f0 = rows::folded_in(s.collapsed, s.steps_sel);
    let f1 = rows::folded_in(t.collapsed, t.steps_sel);
    assert(s.rows().contains(r));
    laws::law_visible_rows(s, r);
    let p = choose|p: int|
        0 <= p < idxs.len() && idxs[p] == first && (#[trigger] s.agents[idxs[p] as int]).group
            is Some && rows::first_seen(s.agents, idxs, p);
    let g = s.agents[first as int].group->0;
    assert(state::group_name(s, first) == g);
    assert forall|q: int| 0 <= q < p implies (#[trigger] s.agents[idxs[q] as int]).group != Some(
        g,
    ) by {}
    assert forall|x: Seq<char>| x != g implies (#[trigger] f0.contains(x) <==> f1.contains(x)) by {
        assert(s.collapsed.contains((s.steps_sel, x)) == t.collapsed.contains((s.steps_sel, x)));
    }
    lemma_same_before(s.agents, idxs, f0, f1, g, p as nat);
    lemma_header_place(s.agents, idxs, f0, p, g);
    lemma_header_place(s.agents, idxs, f1, p, g);
    laws::law_rows_distinct(s);
    let at = rows::rows_upto(s.agents, idxs, f0, p as nat).len() as int;
    assert(s.rows()[at] == r);
    assert(s.rows()[s.agents_sel as int] == r);
    assert(at == s.agents_sel);
    assert(t.selected_agents() == idxs);
    assert(t.rows()[at] == r);
}

} // verus!
