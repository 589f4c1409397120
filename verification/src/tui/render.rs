//! Drawing with caches: the Steps pane is repainted only when what it shows has
//! changed, and the Detail pane's lines are wrapped only when its log or width
//! has.

use ratatui::buffer::Buffer;
use vstd::prelude::*;

use crate::event;
use crate::event::KeyEvent;
use crate::render_opt;
use crate::render_opt::{PaneCache, Rect, WrapCache};
use crate::text;
use crate::tui::laws;
use crate::tui::panes;
use crate::tui::panes::ListPane;
use crate::tui::state;
use crate::tui::{App, Focus};

verus! {

/// The render-side caches, kept apart from [`App`].
pub struct RenderState {
    pub steps_pane: PaneCache,
    /// The Steps version last drawn.
    pub last_steps_ver: u64,
    pub detail_wrap: WrapCache,
}

impl RenderState {
    pub fn new() -> (r: Self)
        ensures
            r.steps_pane.wf(),
            r.steps_pane.cached is None,
            r.last_steps_ver == u64::MAX,
            r.detail_wrap.key is None,
    {
        RenderState {
            steps_pane: PaneCache::new(),
            last_steps_ver: u64::MAX,
            detail_wrap: WrapCache::new(),
        }
    }

    /// Draw the Steps pane into `target` at `area`. `paint` is handed the pane
    /// only when the version has changed since it was last painted, or the area
    /// has. Returns whether it was.
    pub fn draw_steps<F: FnOnce(ListPane, Rect, &mut Buffer)>(
        &mut self,
        app: &App,
        target: &mut Buffer,
        area: Rect,
        paint: F,
    ) -> (painted: bool)
        requires
            old(self).steps_pane.wf(),
            render_opt::sound(*old(target)),
            render_opt::mergeable(render_opt::buffer_area(*old(target)), area),
            !old(self).steps_pane.hits(area, app@.steps_ver != old(self).last_steps_ver)
                ==> forall|p: ListPane, b: &mut Buffer|
                p@ == panes::steps_shown(app@) ==> #[trigger] paint.requires((p, area, b)),
            forall|p: ListPane, b: &mut Buffer| #[trigger]
                paint.ensures((p, area, b), ()) && p@ == panes::steps_shown(app@)
                    && render_opt::is_blank(*b, area) ==> render_opt::buffer_area(*final(b))
                    == area && render_opt::sound(*final(b)),
        ensures
            final(self).steps_pane.wf(),
            final(self).last_steps_ver == app@.steps_ver,
            final(self).detail_wrap == old(self).detail_wrap,
            painted == !old(self).steps_pane.hits(
                area,
                app@.steps_ver != old(self).last_steps_ver,
            ),
            !painted ==> final(self).steps_pane == old(self).steps_pane,
            painted ==> exists|p: ListPane, b: &mut Buffer|
                p@ == panes::steps_shown(app@) && render_opt::is_blank(*b, area)
                    && #[trigger] paint.ensures((p, area, b), ()) && final(self).steps_pane.cached
                    == Some((area, *final(b))),
            final(self).steps_pane.cached matches Some((a, b)) && a == area && render_opt::merged(
                *old(target),
                b,
                *final(target),
            ),
    {
        let force = app.steps_ver != self.last_steps_ver;
        let render = |a: Rect, buf: &mut Buffer|
            requires
                a == area,
                forall|p: ListPane, b: &mut Buffer|
                    p@ == panes::steps_shown(app@) ==> #[trigger] paint.requires((p, area, b)),
            ensures
                exists|p: ListPane, b: &mut Buffer|
                    p@ == panes::steps_shown(app@) && *b == *old(buf) && *final(b) == *final(buf)
                        && #[trigger] paint.ensures((p, area, b), ()),
        {
            let pane = panes::steps_pane(app);
            paint(pane, a, buf);
        };
        let painted = self.steps_pane.render_into(target, area, force, render);
        self.last_steps_ver = app.steps_ver;
        painted
    }
}

// ── Detail ──

/// A log, each line wrapped, one after the other.
pub open spec fn wrapped_log(log: Seq<Seq<char>>, cols: nat) -> Seq<Seq<char>>
    decreases log.len(),
{
    if log.len() == 0 {
        Seq::empty()
    } else {
        wrapped_log(log.drop_last(), cols) + render_opt::wrapped(log.last(), cols)
    }
}

/// The columns inside a pane's border: at least one.
pub open spec fn inner_width(area: Rect) -> u16 {
    if area.width <= 3 {
        1
    } else {
        (area.width - 2) as u16
    }
}

/// The lines inside a pane's border.
pub open spec fn view_height(area: Rect) -> nat {
    if area.height <= 2 {
        0
    } else {
        (area.height - 2) as nat
    }
}

/// The furthest a log of `total` lines can be scrolled.
pub open spec fn max_scroll(total: nat, area: Rect) -> nat {
    if total <= view_height(area) {
        0
    } else {
        (total - view_height(area)) as nat
    }
}

/// A scroll offset held to what can be scrolled.
pub open spec fn clamped(scroll: usize, total: nat, area: Rect) -> nat {
    if scroll <= max_scroll(total, area) {
        scroll as nat
    } else {
        max_scroll(total, area)
    }
}

/// The Detail pane: a window onto an agent's wrapped log.
#[derive(Debug)]
pub struct DetailPane {
    pub title: String,
    /// The visible lines.
    pub lines: Vec<String>,
    /// How many lines there are in all.
    pub total: usize,
    /// The first visible one.
    pub position: usize,
}

/// What a [`DetailPane`] says.
#[verifier::ext_equal]
pub struct DetailView {
    pub title: Seq<char>,
    pub lines: Seq<Seq<char>>,
    pub total: nat,
    pub position: nat,
}

impl View for DetailPane {
    type V = DetailView;

    open spec fn view(&self) -> DetailView {
        DetailView {
            title: self.title@,
            lines: text::texts(self.lines@),
            total: self.total as nat,
            position: self.position as nat,
        }
    }
}

/// The Detail pane over `all` lines.
pub open spec fn detail_shown(
    s: state::AppView,
    agent: usize,
    all: Seq<Seq<char>>,
    area: Rect,
) -> DetailView {
    let a = s.agents[agent as int];
    let from = clamped(s.detail_scroll, all.len(), area);
    let to = if from + view_height(area) <= all.len() {
        from + view_height(area)
    } else {
        all.len()
    };
    DetailView {
        title: " Agent: "@ + a.label + " ["@ + panes::status_word(a.status) + "] "@,
        lines: all.subrange(from as int, to as int),
        total: all.len(),
        position: from,
    }
}

/// The cache holds no lines of a later version than the state, and those of the
/// state's own version are the pinned agent's log as it stands.
pub open spec fn coherent(w: WrapCache, s: state::AppView) -> bool {
    w.key matches Some((v, width)) ==> v <= s.detail_ver && (v == s.detail_ver
        && s.detail_agent is Some ==> text::texts(w.lines@) == wrapped_log(
        s.agents[s.detail_agent->0 as int].detail,
        render_opt::wrap_columns(width),
    ))
}

/// Drawing the Detail pane over `area` gave `r`, and led from `rs0` and `app0` to
/// `rs1` and `app1`.
pub open spec fn detail_drawn(
    rs0: RenderState,
    app0: App,
    area: Rect,
    r: Option<DetailPane>,
    rs1: RenderState,
    app1: App,
) -> bool {
    let s = app0@;
    &&& rs1.steps_pane == rs0.steps_pane
    &&& rs1.last_steps_ver == rs0.last_steps_ver
    &&& (s.detail_agent is None || area.width == 0 || area.height == 0 <==> r is None)
    &&& match r {
        None => app1 == app0 && rs1 == rs0,
        Some(p) => {
            let agent = s.detail_agent->0;
            let width = inner_width(area);
            let all = text::texts(rs1.detail_wrap.lines@);
            &&& rs1.detail_wrap.key == Some((s.detail_ver, width))
            &&& if rs0.detail_wrap.hits(s.detail_ver, width) {
                rs1.detail_wrap.lines == rs0.detail_wrap.lines
            } else {
                all == wrapped_log(s.agents[agent as int].detail, render_opt::wrap_columns(width))
            }
            &&& p@ == detail_shown(s, agent, all, area)
            &&& app1@ == (state::AppView {
                detail_scroll: clamped(s.detail_scroll, all.len(), area) as usize,
                ..s
            })
        },
    }
}

/// Wrap every line of a log.
fn wrap_log(log: &Vec<String>, width: u16) -> (r: Vec<String>)
    ensures
        text::texts(r@) == wrapped_log(text::texts(log@), render_opt::wrap_columns(width)),
{
    let ghost all = text::texts(log@);
    let ghost cols = render_opt::wrap_columns(width);
    let mut r: Vec<String> = Vec::new();
    let mut i: usize = 0;
    proof {
        assert(all.take(0) =~= Seq::empty());
        assert(text::texts(r@) =~= Seq::empty());
    }
    while i < log.len()
        invariant
            i <= log@.len(),
            all == text::texts(log@),
            cols == render_opt::wrap_columns(width),
            text::texts(r@) == wrapped_log(all.take(i as int), cols),
        decreases log@.len() - i,
    {
        let mut pieces = render_opt::wrap_width(log[i].as_str(), width);
        let ghost before = text::texts(r@);
        let ghost more = text::texts(pieces@);
        r.append(&mut pieces);
        proof {
            assert(all.take(i as int + 1).drop_last() =~= all.take(i as int));
            assert(text::texts(r@) =~= before + more);
        }
        i += 1;
    }
    proof {
        assert(all.take(all.len() as int) =~= all);
    }
    r
}

/// Copies of the lines from `from` to `to`.
fn window(all: &[String], from: usize, to: usize) -> (r: Vec<String>)
    requires
        from <= to <= all@.len(),
    ensures
        text::texts(r@) == text::texts(all@).subrange(from as int, to as int),
{
    let mut r: Vec<String> = Vec::new();
    let mut i: usize = from;
    proof {
        assert(text::texts(r@) =~= text::texts(all@).subrange(from as int, from as int));
    }
    while i < to
        invariant
            from <= i <= to <= all@.len(),
            text::texts(r@) == text::texts(all@).subrange(from as int, i as int),
        decreases to - i,
    {
        text::push_copy(&mut r, all[i].as_str());
        assert(text::texts(r@) =~= text::texts(all@).subrange(from as int, i + 1));
        i += 1;
    }
    r
}

impl RenderState {
    /// The Detail pane for the agent it is drilled into. Nothing is shown without
    /// one, or in an area without cells. The scroll offset is written back as
    /// clamped, so that scrolling past the end never piles up; only the visible
    /// window is copied out.
    pub fn draw_detail(&mut self, app: &mut App, area: Rect) -> (r: Option<DetailPane>)
        requires
            old(app).wf(),
        ensures
            final(app).wf(),
            detail_drawn(*old(self), *old(app), area, r, *final(self), *final(app)),
            coherent(old(self).detail_wrap, old(app)@) ==> coherent(
                final(self).detail_wrap,
                final(app)@,
            ),
    {
        let agent: usize = match app.detail_agent {
            Some(i) => i,
            None => {
                return None;
            },
        };
        if area.width == 0 || area.height == 0 {
            return None;
        }
        let ghost s = app@;
        let width: u16 = if area.width <= 3 { 1 } else { area.width - 2 };
        let height: usize = if area.height <= 2 { 0 } else { area.height as usize - 2 };
        assert(s.agents[agent as int] == app.agents@[agent as int]@);
        let a = &app.agents[agent];
        let mut title = text::copied(" Agent: ");
        title.push_str(a.label.as_str());
        title.push_str(" [");
        title.push_str(panes::status_text(a.status));
        title.push_str("] ");
        let log = &a.detail;
        let build = || -> (r: Vec<String>)
            ensures
                text::texts(r@) == wrapped_log(
                    text::texts(log@),
                    render_opt::wrap_columns(width),
                ),
        {
            wrap_log(log, width)
        };
        let all = self.detail_wrap.get(app.detail_ver, width, build);
        let total: usize = all.len();
        let furthest: usize = if total <= height { 0 } else { total - height };
        let from: usize = if app.detail_scroll <= furthest { app.detail_scroll } else { furthest };
        let to: usize = if total - from <= height { total } else { from + height };
        let lines = window(all, from, to);
        let pane = DetailPane { title, lines, total, position: from };
        app.detail_scroll = from;
        proof {
            let shown = text::texts(self.detail_wrap.lines@);
            assert(pane@ =~= detail_shown(s, agent, shown, area));
            assert(app@ =~= (state::AppView { detail_scroll: from, ..s }));
            laws::lemma_scrolled_wf(s, from);
        }
        Some(pane)
    }
}

/// What stands to the right of the steps.
#[derive(Debug)]
pub enum RightPane {
    /// The agent drilled into; nothing where there is nothing to show.
    Detail(Option<DetailPane>),
    /// The agents of the selected step.
    Agents(ListPane),
}

impl RenderState {
    /// The pane to the right of the steps: the Detail pane while it has the focus,
    /// the Agents pane otherwise.
    pub fn draw_right(&mut self, app: &mut App, area: Rect) -> (r: RightPane)
        requires
            old(app).wf(),
        ensures
            final(app).wf(),
            match r {
                RightPane::Detail(d) => old(app)@.focus == Focus::Detail && detail_drawn(
                    *old(self),
                    *old(app),
                    area,
                    d,
                    *final(self),
                    *final(app),
                ),
                RightPane::Agents(p) => old(app)@.focus != Focus::Detail && p@
                    == panes::agents_shown(old(app)@) && *final(self) == *old(self) && *final(app)
                    == *old(app),
            },
            coherent(old(self).detail_wrap, old(app)@) ==> coherent(
                final(self).detail_wrap,
                final(app)@,
            ),
    {
        if app.focus == Focus::Detail {
            RightPane::Detail(self.draw_detail(app, area))
        } else {
            RightPane::Agents(panes::agents_pane(app))
        }
    }
}

// ── Laws ──

/// The wrapped lines in the cache never go stale under events: while the version
/// they were wrapped for is the current one, they are the log as it stands.
pub proof fn law_wrap_cache_survives_events(w: WrapCache, s: state::AppView, ev: event::EventView)
    requires
        s.wf(),
        s.detail_ver < u64::MAX,
        coherent(w, s),
    ensures
        coherent(w, state::after_event(s, ev)),
{
    laws::law_detail_pin_survives_events(s, ev);
    let t = state::after_event(s, ev);
    if s.detail_agent is Some && t.detail_ver == s.detail_ver {
        laws::law_detail_cache_fresh(s, ev);
    }
}

/// Nor under keys.
pub proof fn law_wrap_cache_survives_keys(w: WrapCache, s: state::AppView, k: KeyEvent)
    requires
        s.wf(),
        s.detail_ver < u64::MAX,
        coherent(w, s),
    ensures
        coherent(w, state::after_key(s, k)),
{
}

/// A cache that has never been filled is coherent with any state.
pub proof fn law_empty_cache_is_coherent(w: WrapCache, s: state::AppView)
    requires
        w.key is None,
    ensures
        coherent(w, s),
{
}

proof fn lemma_same_counts(
    a: Seq<crate::tui::rows::AgentView>,
    b: Seq<crate::tui::rows::AgentView>,
    step: int,
)
    requires
        a.len() == b.len(),
        forall|i: int| 0 <= i < a.len() ==> (#[trigger] a[i]).step == b[i].step,
    ensures
        panes::agents_in(a, step) == panes::agents_in(b, step),
    decreases a.len(),
{
    if a.len() > 0 {
        let a0 = a.drop_last();
        let b0 = b.drop_last();
        assert(a[a.len() - 1].step == b[b.len() - 1].step);
        assert forall|i: int| 0 <= i < a0.len() implies (#[trigger] a0[i]).step == b0[i].step by {
            assert(a[i].step == b[i].step);
        }
        lemma_same_counts(a0, b0, step);
    }
}

/// A painted Steps pane never goes stale: while the version stands still, so does
/// everything the pane shows.
pub proof fn law_steps_pane_stays_fresh(s: state::AppView, ev: event::EventView)
    requires
        s.wf(),
        s.steps_ver < u64::MAX,
        state::after_event(s, ev).steps_ver == s.steps_ver,
    ensures
        panes::steps_shown(state::after_event(s, ev)) == panes::steps_shown(s),
{
    laws::law_steps_cache_fresh(s, ev);
    let t = state::after_event(s, ev);
    assert(t.agents.len() == s.agents.len());
    assert forall|i: int| 0 <= i < s.agents.len() implies (#[trigger] t.agents[i]).step
        == s.agents[i].step by {}
    assert forall|i: int| 0 <= i < s.steps.len() implies panes::step_line(t, i)
        == panes::step_line(s, i) by {
        lemma_same_counts(t.agents, s.agents, i);
    }
    assert(panes::steps_shown(t).lines =~= panes::steps_shown(s).lines);
    assert(panes::steps_shown(t) =~= panes::steps_shown(s));
}

/// Nor does it under keys.
pub proof fn law_steps_pane_stays_fresh_under_keys(s: state::AppView, k: KeyEvent)
    requires
        state::after_key(s, k).steps_ver == s.steps_ver,
    ensures
        panes::steps_shown(state::after_key(s, k)) == panes::steps_shown(s),
{
    let t = state::after_key(s, k);
    assert forall|i: int| 0 <= i < s.steps.len() implies panes::step_line(t, i)
        == panes::step_line(s, i) by {}
    assert(panes::steps_shown(t).lines =~= panes::steps_shown(s).lines);
    assert(panes::steps_shown(t) =~= panes::steps_shown(s));
}

/// The state after a draw of `total` lines.
pub open spec fn drawn(s: state::AppView, total: nat, area: Rect) -> state::AppView {
    state::AppView { detail_scroll: clamped(s.detail_scroll, total, area) as usize, ..s }
}

/// Scrolling past the end never piles up: at the bottom, Down changes nothing
/// that a draw does not undo.
pub proof fn law_no_overshoot_at_the_bottom(
    s: state::AppView,
    total: nat,
    area: Rect,
    k: KeyEvent,
)
    requires
        s.focus == Focus::Detail,
        total <= usize::MAX,
        s.detail_scroll == max_scroll(total, area),
        k.code is Down || k.code is PageDown || k.code is End,
    ensures
        drawn(state::after_key(s, k), total, area) == s,
{
}

/// One Up at the bottom moves the view at once, however often Down was pressed
/// before.
pub proof fn law_up_moves_at_once(s: state::AppView, total: nat, area: Rect, k: KeyEvent)
    requires
        s.focus == Focus::Detail,
        total <= usize::MAX,
        s.detail_scroll == max_scroll(total, area),
        s.detail_scroll > 0,
        k.code is Up,
    ensures
        drawn(state::after_key(s, k), total, area).detail_scroll == s.detail_scroll - 1,
{
}

/// End lands on the last page.
pub proof fn law_end_lands_on_the_last_page(
    s: state::AppView,
    total: nat,
    area: Rect,
    k: KeyEvent,
)
    requires
        s.focus == Focus::Detail,
        total <= usize::MAX,
        k.code is End,
    ensures
        drawn(state::after_key(s, k), total, area).detail_scroll == max_scroll(total, area),
{
}

/// The window is full whenever there are lines enough, and what it shows stands
/// in the log at its position.
pub proof fn law_window_is_full(
    s: state::AppView,
    agent: usize,
    all: Seq<Seq<char>>,
    area: Rect,
    i: int,
)
    ensures
        ({
            let d = detail_shown(s, agent, all, area);
            &&& d.lines.len() == if all.len() < view_height(area) {
                all.len()
            } else {
                view_height(area)
            }
            &&& 0 <= i < d.lines.len() ==> d.lines[i] == all[d.position + i]
        }),
{
}

/// A draw shows the agent the pane is pinned to, its whole log wrapped to the
/// pane's width, from a cache or afresh; nothing is shown only where there is no
/// such agent or no room. All that changes of the state is the scroll offset.
pub proof fn law_draw_shows_the_pinned_agent(
    rs0: RenderState,
    app0: App,
    area: Rect,
    r: Option<DetailPane>,
    rs1: RenderState,
    app1: App,
)
    requires
        detail_drawn(rs0, app0, area, r, rs1, app1),
        coherent(rs0.detail_wrap, app0@),
    ensures
        r is None <==> app0@.detail_agent is None || area.width == 0 || area.height == 0,
        r matches Some(p) ==> p@ == detail_shown(
            app0@,
            app0@.detail_agent->0,
            wrapped_log(
                app0@.agents[app0@.detail_agent->0 as int].detail,
                if area.width >= 3 {
                    (area.width - 2) as nat
                } else {
                    1
                },
            ),
            area,
        ),
        app1@ == (state::AppView { detail_scroll: app1@.detail_scroll, ..app0@ }),
        r matches Some(p) ==> app1@.detail_scroll == p@.position,
{
}

/// The Detail pane says everything it is made of.
pub proof fn law_detail_pane_says_everything(p: DetailPane, i: int)
    ensures
        p@.title == p.title@,
        p@.total == p.total,
        p@.position == p.position,
        p@.lines.len() == p.lines@.len(),
        0 <= i < p.lines@.len() ==> p@.lines[i] == p.lines@[i]@,
{
}

} // verus!
