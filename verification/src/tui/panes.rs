//! What each pane shows, as plain text with tones; painting it is left to the
//! terminal.

use vstd::prelude::*;

use crate::cli;
use crate::event::{AgentStatus, StepStatus};
use crate::text;
use crate::tui;
use crate::tui::rows;
use crate::tui::state;
use crate::tui::{App, Focus, Row};

verus! {

broadcast use vstd::std_specs::hash::group_hash_axioms;

// ── Pieces ──

/// How a piece of text is set off.
#[derive(Debug, Clone, Copy, PartialEq, Eq, Structural)]
pub enum Tone {
    Plain,
    /// Dark grey.
    Faint,
    Yellow,
    Green,
    Red,
    /// Bold.
    Strong,
    /// Bold cyan.
    Accent,
    /// Black on green.
    OnGreen,
    /// White on red.
    OnRed,
    /// Black on yellow.
    OnYellow,
}

/// A piece of text in one tone.
#[derive(Debug)]
pub struct Piece {
    pub text: String,
    pub tone: Tone,
}

/// What a [`Piece`] says.
#[verifier::ext_equal]
pub struct PieceView {
    pub text: Seq<char>,
    pub tone: Tone,
}

impl View for Piece {
    type V = PieceView;

    open spec fn view(&self) -> PieceView {
        PieceView { text: self.text@, tone: self.tone }
    }
}

/// What a line of pieces says.
pub open spec fn pieces_view(v: Seq<Piece>) -> Seq<PieceView> {
    Seq::new(v.len(), |i: int| v[i]@)
}

/// What lines of pieces say.
pub open spec fn lines_view(v: Seq<Vec<Piece>>) -> Seq<Seq<PieceView>> {
    Seq::new(v.len(), |i: int| pieces_view(v[i]@))
}

pub open spec fn piece(text: Seq<char>, tone: Tone) -> PieceView {
    PieceView { text, tone }
}

fn add_piece(v: &mut Vec<Piece>, s: String, tone: Tone)
    ensures
        pieces_view(final(v)@) == pieces_view(old(v)@).push(piece(s@, tone)),
{
    v.push(Piece { text: s, tone });
    assert(pieces_view(v@) =~= pieces_view(old(v)@).push(piece(s@, tone)));
}

fn add_line(v: &mut Vec<Vec<Piece>>, l: Vec<Piece>)
    ensures
        lines_view(final(v)@) == lines_view(old(v)@).push(pieces_view(l@)),
{
    v.push(l);
    assert(lines_view(v@) =~= lines_view(old(v)@).push(pieces_view(l@)));
}

/// A pane that lists lines, one of them selected.
#[derive(Debug)]
pub struct ListPane {
    pub title: String,
    pub lines: Vec<Vec<Piece>>,
    pub selected: Option<usize>,
    /// The pane has the focus.
    pub active: bool,
}

/// What a [`ListPane`] says.
#[verifier::ext_equal]
pub struct ListView {
    pub title: Seq<char>,
    pub lines: Seq<Seq<PieceView>>,
    pub selected: Option<nat>,
    pub active: bool,
}

impl View for ListPane {
    type V = ListView;

    open spec fn view(&self) -> ListView {
        ListView {
            title: self.title@,
            lines: lines_view(self.lines@),
            selected: match self.selected {
                Some(i) => Some(i as nat),
                None => None,
            },
            active: self.active,
        }
    }
}

/// The line selected among `n`: the wanted one, or the last.
pub open spec fn selection(wanted: nat, n: nat) -> Option<nat> {
    if n == 0 {
        None
    } else if wanted < n {
        Some(wanted)
    } else {
        Some((n - 1) as nat)
    }
}

fn select(wanted: usize, n: usize) -> (r: Option<usize>)
    ensures
        match r {
            Some(i) => selection(wanted as nat, n as nat) == Some(i as nat),
            None => selection(wanted as nat, n as nat) is None,
        },
{
    if n == 0 {
        None
    } else if wanted < n {
        Some(wanted)
    } else {
        Some(n - 1)
    }
}

// ── Words ──

/// At most `n` characters: a longer text is cut, with a mark for the rest.
pub open spec fn truncated(s: Seq<char>, n: nat) -> Seq<char> {
    if s.len() <= n {
        s
    } else {
        s.take(if n == 0 {
            0
        } else {
            n - 1
        }) + "~"@
    }
}

/// At most `n` characters of `s`.
pub fn truncate(s: &str, n: usize) -> (r: String)
    ensures
        r@ == truncated(s@, n as nat),
{
    let v = text::chars_of(s);
    if v.len() <= n {
        text::copied(s)
    } else {
        let k: usize = if n == 0 { 0 } else { n - 1 };
        let mut r = text::string_of(&v, 0, k);
        assert(r@ =~= s@.take(k as int));
        r.push_str("~");
        r
    }
}

pub open spec fn status_word(s: AgentStatus) -> Seq<char> {
    match s {
        AgentStatus::Pending => "pending"@,
        AgentStatus::Running => "running"@,
        AgentStatus::Done => "done"@,
        AgentStatus::Failed => "failed"@,
    }
}

/// An agent's status in words.
pub fn status_text(s: AgentStatus) -> (r: &'static str)
    ensures
        r@ == status_word(s),
{
    match s {
        AgentStatus::Pending => "pending",
        AgentStatus::Running => "running",
        AgentStatus::Done => "done",
        AgentStatus::Failed => "failed",
    }
}

/// A step's mark.
pub open spec fn step_mark(s: StepStatus) -> PieceView {
    match s {
        StepStatus::Pending => piece("."@, Tone::Faint),
        StepStatus::Running => piece("*"@, Tone::Yellow),
        StepStatus::Done => piece("v"@, Tone::Green),
        StepStatus::Failed => piece("x"@, Tone::Red),
    }
}

fn step_glyph(s: StepStatus) -> (r: Piece)
    ensures
        r@ == step_mark(s),
{
    match s {
        StepStatus::Pending => Piece { text: text::copied("."), tone: Tone::Faint },
        StepStatus::Running => Piece { text: text::copied("*"), tone: Tone::Yellow },
        StepStatus::Done => Piece { text: text::copied("v"), tone: Tone::Green },
        StepStatus::Failed => Piece { text: text::copied("x"), tone: Tone::Red },
    }
}

/// An agent's mark.
pub open spec fn agent_mark(s: AgentStatus) -> PieceView {
    piece(
        "*"@,
        match s {
            AgentStatus::Pending => Tone::Faint,
            AgentStatus::Running => Tone::Yellow,
            AgentStatus::Done => Tone::Green,
            AgentStatus::Failed => Tone::Red,
        },
    )
}

fn agent_glyph(s: AgentStatus) -> (r: Piece)
    ensures
        r@ == agent_mark(s),
{
    let tone = match s {
        AgentStatus::Pending => Tone::Faint,
        AgentStatus::Running => Tone::Yellow,
        AgentStatus::Done => Tone::Green,
        AgentStatus::Failed => Tone::Red,
    };
    Piece { text: text::copied("*"), tone }
}

/// The tone of a pane's border.
pub fn pane_border(active: bool) -> (r: Tone)
    ensures
        r == if active {
            Tone::Accent
        } else {
            Tone::Faint
        },
{
    if active {
        Tone::Accent
    } else {
        Tone::Faint
    }
}

// ── Steps ──

/// How many of the agents belong to `step`.
pub open spec fn agents_in(agents: Seq<rows::AgentView>, step: int) -> nat
    decreases agents.len(),
{
    if agents.len() == 0 {
        0
    } else {
        agents_in(agents.drop_last(), step) + if agents.last().step == step {
            1nat
        } else {
            0
        }
    }
}

/// The line of step `i`.
pub open spec fn step_line(s: state::AppView, i: int) -> Seq<PieceView> {
    seq![
        step_mark(s.steps[i].status),
        piece(" "@, Tone::Plain),
        piece(
            if s.steps[i].title.len() == 0 {
                "step "@ + text::decimal(i as nat)
            } else {
                s.steps[i].title
            },
            Tone::Plain,
        ),
        piece("  ("@ + text::decimal(agents_in(s.agents, i)) + ")"@, Tone::Faint),
    ]
}

/// The Steps pane.
pub open spec fn steps_shown(s: state::AppView) -> ListView {
    ListView {
        title: " Steps "@,
        lines: Seq::new(s.steps.len(), |i: int| step_line(s, i)),
        selected: selection(s.steps_sel as nat, s.steps.len()),
        active: s.focus == Focus::Steps,
    }
}

fn count_agents(app: &App, step: usize) -> (r: usize)
    ensures
        r == agents_in(app@.agents, step as int),
{
    let ghost all = app@.agents;
    let mut n: usize = 0;
    let mut i: usize = 0;
    proof {
        assert(all.take(0) =~= Seq::empty());
    }
    while i < app.agents.len()
        invariant
            i <= app.agents@.len(),
            all == app@.agents,
            n <= i,
            n == agents_in(all.take(i as int), step as int),
        decreases app.agents@.len() - i,
    {
        proof {
            assert(all.take(i as int + 1).drop_last() =~= all.take(i as int));
            assert(all.take(i as int + 1).last() == app.agents@[i as int]@);
        }
        if app.agents[i].step == step {
            n += 1;
        }
        i += 1;
    }
    proof {
        assert(all.take(all.len() as int) =~= all);
    }
    n
}

/// The Steps pane: each step with its mark, title and number of agents.
pub fn steps_pane(app: &App) -> (r: ListPane)
    ensures
        r@ == steps_shown(app@),
{
    let ghost s = app@;
    let mut lines: Vec<Vec<Piece>> = Vec::new();
    let mut i: usize = 0;
    proof {
        assert(lines_view(lines@) =~= Seq::empty());
    }
    while i < app.steps.len()
        invariant
            i <= app.steps@.len(),
            s == app@,
            lines_view(lines@) == Seq::new(i as nat, |j: int| step_line(s, j)),
        decreases app.steps@.len() - i,
    {
        let mut l: Vec<Piece> = Vec::new();
        l.push(step_glyph(app.steps[i].status));
        assert(pieces_view(l@) =~= seq![step_mark(s.steps[i as int].status)]);
        add_piece(&mut l, text::copied(" "), Tone::Plain);
        let title = if app.steps[i].title.as_str().is_empty() {
            text::concat2("step ", text::decimal_text(i as u128).as_str())
        } else {
            app.steps[i].title.clone()
        };
        add_piece(&mut l, title, Tone::Plain);
        let n: usize = count_agents(app, i);
        let mut c = text::copied("  (");
        c.push_str(text::decimal_text(n as u128).as_str());
        c.push_str(")");
        add_piece(&mut l, c, Tone::Faint);
        assert(pieces_view(l@) =~= step_line(s, i as int));
        add_line(&mut lines, l);
        assert(lines_view(lines@) =~= Seq::new((i + 1) as nat, |j: int| step_line(s, j)));
        i += 1;
    }
    let r = ListPane {
        title: text::copied(" Steps "),
        lines,
        selected: select(app.steps_sel, app.steps.len()),
        active: app.focus == Focus::Steps,
    };
    assert(r@ =~= steps_shown(s));
    r
}

// ── Agents ──

/// The statuses of some agents, in order.
pub open spec fn statuses(agents: Seq<rows::AgentView>, m: Seq<usize>) -> Seq<AgentStatus> {
    Seq::new(m.len(), |i: int| agents[m[i] as int].status)
}

/// How many of the statuses are done.
pub open spec fn done_count(s: Seq<AgentStatus>) -> nat
    decreases s.len(),
{
    if s.len() == 0 {
        0
    } else {
        done_count(s.drop_last()) + if s.last() == AgentStatus::Done {
            1nat
        } else {
            0
        }
    }
}

/// The input tokens of some agents together.
pub open spec fn tokens_in(agents: Seq<rows::AgentView>, m: Seq<usize>) -> nat
    decreases m.len(),
{
    if m.len() == 0 {
        0
    } else {
        tokens_in(agents, m.drop_last()) + agents[m.last() as int].tokens_in as nat
    }
}

/// The output tokens of some agents together.
pub open spec fn tokens_out(agents: Seq<rows::AgentView>, m: Seq<usize>) -> nat
    decreases m.len(),
{
    if m.len() == 0 {
        0
    } else {
        tokens_out(agents, m.drop_last()) + agents[m.last() as int].tokens_out as nat
    }
}

/// Columns of the label field.
pub const LABEL: usize = 28;

/// The line of a group's header: rolled-up mark, name, how many are done, and the
/// tokens of all members.
pub open spec fn header_line(s: state::AppView, first: usize) -> Seq<PieceView> {
    let name = state::group_name(s, first);
    let m = rows::members(s.agents, s.selected_agents(), name);
    let open = !s.collapsed.contains((s.steps_sel, name));
    seq![
        agent_mark(tui::rolled_up(statuses(s.agents, m))),
        piece(" "@, Tone::Plain),
        piece(
            text::padded(
                truncated(
                    if open {
                        "v "@ + name
                    } else {
                        "> "@ + name
                    },
                    LABEL as nat,
                ),
                LABEL as nat,
            ),
            Tone::Strong,
        ),
        piece(
            "["@ + text::decimal(done_count(statuses(s.agents, m))) + "/"@ + text::decimal(m.len())
                + "]  "@ + text::decimal(tokens_in(s.agents, m)) + "/"@ + text::decimal(
                tokens_out(s.agents, m),
            ),
            Tone::Faint,
        ),
    ]
}

/// The line of an agent: mark, label and tokens. A group's member is indented
/// within the label field, so that the tokens stay in one column.
pub open spec fn agent_line(s: state::AppView, idx: usize) -> Seq<PieceView> {
    let a = s.agents[idx as int];
    seq![
        agent_mark(a.status),
        piece(" "@, Tone::Plain),
        piece(
            text::padded(
                if a.group is Some {
                    "  "@ + truncated(a.label, (LABEL - 2) as nat)
                } else {
                    truncated(a.label, LABEL as nat)
                },
                LABEL as nat,
            ),
            Tone::Plain,
        ),
        piece(
            text::decimal(a.tokens_in as nat) + "/"@ + text::decimal(a.tokens_out as nat),
            Tone::Faint,
        ),
    ]
}

/// The line of a visible row.
pub open spec fn row_line(s: state::AppView, r: Row) -> Seq<PieceView> {
    match r {
        Row::Header { first } => header_line(s, first),
        Row::Agent { idx } => agent_line(s, idx),
    }
}

/// The title of the Agents pane: it names the selected step, if there is one.
pub open spec fn agents_title(s: state::AppView) -> Seq<char> {
    if s.steps_sel < s.steps.len() {
        " Agents · "@ + s.steps[s.steps_sel as int].title + " "@
    } else {
        " Agents "@
    }
}

/// The Agents pane.
pub open spec fn agents_shown(s: state::AppView) -> ListView {
    ListView {
        title: agents_title(s),
        lines: Seq::new(s.rows().len(), |i: int| row_line(s, s.rows()[i])),
        selected: selection(s.agents_sel as nat, s.rows().len()),
        active: s.focus == Focus::Agents,
    }
}

/// The members of a group, taken together.
struct Totals {
    statuses: Vec<AgentStatus>,
    tokens_in: u128,
    tokens_out: u128,
}

fn in_group(group: &Option<String>, name: &str) -> (r: bool)
    ensures
        r == (text::opt_text(*group) == Some(name@)),
{
    match group {
        Some(g) => text::same_text(g.as_str(), name),
        None => false,
    }
}

/// Take the members of group `name` among `idxs` together.
fn totals(app: &App, idxs: &[usize], name: &str) -> (r: Totals)
    requires
        forall|k: int| 0 <= k < idxs@.len() ==> (#[trigger] idxs@[k]) < app.agents@.len(),
    ensures
        ({
            let m = rows::members(app@.agents, idxs@, name@);
            &&& r.statuses@ == statuses(app@.agents, m)
            &&& r.tokens_in == tokens_in(app@.agents, m)
            &&& r.tokens_out == tokens_out(app@.agents, m)
        }),
{
    let ghost all = app@.agents;
    let mut t = Totals { statuses: Vec::new(), tokens_in: 0, tokens_out: 0 };
    let mut i: usize = 0;
    proof {
        assert(idxs@.take(0) =~= Seq::<usize>::empty());
        assert(t.statuses@ =~= statuses(all, Seq::empty()));
    }
    while i < idxs.len()
        invariant
            i <= idxs@.len(),
            all == app@.agents,
            forall|k: int| 0 <= k < idxs@.len() ==> (#[trigger] idxs@[k]) < app.agents@.len(),
            t.statuses@ == statuses(all, rows::members(all, idxs@.take(i as int), name@)),
            t.tokens_in == tokens_in(all, rows::members(all, idxs@.take(i as int), name@)),
            t.tokens_out == tokens_out(all, rows::members(all, idxs@.take(i as int), name@)),
            t.tokens_in <= i * 0xffff_ffff_ffff_ffff,
            t.tokens_out <= i * 0xffff_ffff_ffff_ffff,
        decreases idxs@.len() - i,
    {
        let a = &app.agents[idxs[i]];
        let ghost before = rows::members(all, idxs@.take(i as int), name@);
        proof {
            assert(idxs@.take(i as int + 1).drop_last() =~= idxs@.take(i as int));
            assert(all[idxs@[i as int] as int] == a@);
        }
        if in_group(&a.group, name) {
            proof {
                assert(before.push(idxs@[i as int]).drop_last() =~= before);
            }
            t.statuses.push(a.status);
            t.tokens_in = t.tokens_in + a.tokens_in as u128;
            t.tokens_out = t.tokens_out + a.tokens_out as u128;
            assert(t.statuses@ =~= statuses(all, before.push(idxs@[i as int])));
        }
        i += 1;
    }
    proof {
        assert(idxs@.take(idxs@.len() as int) =~= idxs@);
    }
    t
}

fn count_done(s: &Vec<AgentStatus>) -> (r: usize)
    ensures
        r == done_count(s@),
{
    let mut n: usize = 0;
    let mut i: usize = 0;
    proof {
        assert(s@.take(0) =~= Seq::<AgentStatus>::empty());
    }
    while i < s.len()
        invariant
            i <= s@.len(),
            n <= i,
            n == done_count(s@.take(i as int)),
        decreases s@.len() - i,
    {
        proof {
            assert(s@.take(i as int + 1).drop_last() =~= s@.take(i as int));
        }
        if s[i] == AgentStatus::Done {
            n += 1;
        }
        i += 1;
    }
    proof {
        assert(s@.take(s@.len() as int) =~= s@);
    }
    n
}

fn header_pieces(app: &App, first: usize) -> (r: Vec<Piece>)
    requires
        app.wf(),
        first < app.agents@.len(),
    ensures
        pieces_view(r@) == header_line(app@, first),
{
    let ghost s = app@;
    let empty = String::new();
    let name = match &app.agents[first].group {
        Some(g) => g.as_str(),
        None => empty.as_str(),
    };
    assert(name@ =~= state::group_name(s, first));
    let idxs = app.agents_of_selected_step();
    proof {
        assert forall|k: int| 0 <= k < idxs@.len() implies (#[trigger] idxs@[k])
            < app.agents@.len() by {
            assert(s.step_agents[s.steps_sel as int][k] < s.agents.len());
        }
    }
    let t = totals(app, idxs, name);
    let ghost m = rows::members(s.agents, s.selected_agents(), name@);
    let folded = rows::is_collapsed(&app.collapsed, app.steps_sel, name);
    let mut head = text::copied(
        if folded {
            "> "
        } else {
            "v "
        },
    );
    head.push_str(name);
    let label = text::pad_right(truncate(head.as_str(), LABEL), LABEL);
    let mut sums = text::copied("[");
    sums.push_str(text::decimal_text(count_done(&t.statuses) as u128).as_str());
    sums.push_str("/");
    sums.push_str(text::decimal_text(t.statuses.len() as u128).as_str());
    sums.push_str("]  ");
    sums.push_str(text::decimal_text(t.tokens_in).as_str());
    sums.push_str("/");
    sums.push_str(text::decimal_text(t.tokens_out).as_str());
    let mut l: Vec<Piece> = Vec::new();
    l.push(agent_glyph(tui::rollup(t.statuses.as_slice())));
    assert(pieces_view(l@) =~= seq![agent_mark(tui::rolled_up(statuses(s.agents, m)))]);
    add_piece(&mut l, text::copied(" "), Tone::Plain);
    add_piece(&mut l, label, Tone::Strong);
    add_piece(&mut l, sums, Tone::Faint);
    assert(pieces_view(l@) =~= header_line(s, first));
    l
}

fn agent_pieces(app: &App, idx: usize) -> (r: Vec<Piece>)
    requires
        idx < app.agents@.len(),
    ensures
        pieces_view(r@) == agent_line(app@, idx),
{
    let a = &app.agents[idx];
    let label = if a.group.is_some() {
        text::concat2("  ", truncate(a.label.as_str(), LABEL - 2).as_str())
    } else {
        truncate(a.label.as_str(), LABEL)
    };
    let mut sums = text::decimal_text(a.tokens_in as u128);
    sums.push_str("/");
    sums.push_str(text::decimal_text(a.tokens_out as u128).as_str());
    let mut l: Vec<Piece> = Vec::new();
    l.push(agent_glyph(a.status));
    assert(pieces_view(l@) =~= seq![agent_mark(a.status)]);
    add_piece(&mut l, text::copied(" "), Tone::Plain);
    add_piece(&mut l, text::pad_right(label, LABEL), Tone::Plain);
    add_piece(&mut l, sums, Tone::Faint);
    assert(pieces_view(l@) =~= agent_line(app@, idx));
    l
}

/// The Agents pane: the visible rows of the selected step.
pub fn agents_pane(app: &App) -> (r: ListPane)
    requires
        app.wf(),
    ensures
        r@ == agents_shown(app@),
{
    let ghost s = app@;
    let rows = app.rows_for_selected_step();
    let mut title = text::copied(" Agents ");
    if app.steps_sel < app.steps.len() {
        title = text::copied(" Agents · ");
        title.push_str(app.steps[app.steps_sel].title.as_str());
        title.push_str(" ");
    }
    let mut lines: Vec<Vec<Piece>> = Vec::new();
    let mut i: usize = 0;
    proof {
        assert(lines_view(lines@) =~= Seq::empty());
    }
    while i < rows.len()
        invariant
            i <= rows@.len(),
            app.wf(),
            s == app@,
            rows@ == s.rows(),
            lines_view(lines@) == Seq::new(i as nat, |j: int| row_line(s, s.rows()[j])),
        decreases rows@.len() - i,
    {
        proof {
            tui::laws::law_rows_point_at_agents(s, i as int);
        }
        let l = match rows[i] {
            Row::Header { first } => header_pieces(app, first),
            Row::Agent { idx } => agent_pieces(app, idx),
        };
        add_line(&mut lines, l);
        assert(lines_view(lines@) =~= Seq::new((i + 1) as nat, |j: int| row_line(s, s.rows()[j])));
        i += 1;
    }
    let n: usize = rows.len();
    let r = ListPane {
        title,
        lines,
        selected: select(app.agents_sel, n),
        active: app.focus == Focus::Agents,
    };
    assert(r@ =~= agents_shown(s));
    r
}

// ── Status ──

/// The key hints of a pane.
pub open spec fn hint(f: Focus) -> Seq<char> {
    match f {
        Focus::Steps => " Up/Dn steps | -> agents | q quit "@,
        Focus::Agents => " Up/Dn agents | -> detail | <- steps | q quit "@,
        Focus::Detail => " Up/Dn/PgUp/PgDn scroll | <- back | q quit "@,
    }
}

/// How the run stands.
pub open spec fn standing(done: Option<Result<Seq<char>, Seq<char>>>) -> PieceView {
    match done {
        Some(Ok(_)) => piece(" DONE "@, Tone::OnGreen),
        Some(Err(_)) => piece(" ERROR "@, Tone::OnRed),
        None => piece(" running "@, Tone::OnYellow),
    }
}

/// The status line: the workflow's name if it has one, the key hints, and how the
/// run stands.
pub open spec fn status_shown(s: state::AppView) -> Seq<PieceView> {
    let name = match s.meta_name {
        Some(n) => seq![piece(" "@ + n + " "@, Tone::Accent), piece(" "@, Tone::Plain)],
        None => Seq::empty(),
    };
    name + seq![
        piece(hint(s.focus), Tone::Faint),
        piece("  "@, Tone::Plain),
        standing(s.done),
    ]
}

/// The status line.
pub fn status_line(app: &App) -> (r: Vec<Piece>)
    ensures
        pieces_view(r@) == status_shown(app@),
{
    let mut l: Vec<Piece> = Vec::new();
    assert(pieces_view(l@) =~= Seq::empty());
    match &app.meta_name {
        Some(n) => {
            let mut t = text::copied(" ");
            t.push_str(n.as_str());
            t.push_str(" ");
            add_piece(&mut l, t, Tone::Accent);
            add_piece(&mut l, text::copied(" "), Tone::Plain);
        },
        None => {},
    }
    let h = match app.focus {
        Focus::Steps => " Up/Dn steps | -> agents | q quit ",
        Focus::Agents => " Up/Dn agents | -> detail | <- steps | q quit ",
        Focus::Detail => " Up/Dn/PgUp/PgDn scroll | <- back | q quit ",
    };
    add_piece(&mut l, text::copied(h), Tone::Faint);
    add_piece(&mut l, text::copied("  "), Tone::Plain);
    match &app.done {
        Some(Ok(_)) => {
            add_piece(&mut l, text::copied(" DONE "), Tone::OnGreen);
        },
        Some(Err(_)) => {
            add_piece(&mut l, text::copied(" ERROR "), Tone::OnRed);
        },
        None => {
            add_piece(&mut l, text::copied(" running "), Tone::OnYellow);
        },
    }
    assert(pieces_view(l@) =~= status_shown(app@));
    l
}

// ── Exit summary ──

/// Name and last note of each agent that stands as failed, in spawn order.
pub open spec fn failed_agents(agents: Seq<rows::AgentView>) -> Seq<
    (Seq<char>, Option<Seq<char>>),
>
    decreases agents.len(),
{
    if agents.len() == 0 {
        Seq::empty()
    } else {
        let before = failed_agents(agents.drop_last());
        let a = agents.last();
        if a.status == AgentStatus::Failed {
            before.push((cli::display_name(a.group, a.label), a.last_note))
        } else {
            before
        }
    }
}

/// The failure summary printed after the screen is left. A run that was quit
/// before it finished has none: a partial list would mislead.
pub fn exit_summary(app: &App) -> (r: Option<String>)
    ensures
        text::opt_text(r) == if app@.done is Some {
            cli::summary(failed_agents(app@.agents))
        } else {
            None
        },
{
    if app.done.is_none() {
        return None;
    }
    let ghost all = app@.agents;
    let mut items: Vec<(String, Option<String>)> = Vec::new();
    let mut i: usize = 0;
    proof {
        assert(all.take(0) =~= Seq::empty());
        assert(cli::failures_view(items@) =~= Seq::empty());
    }
    while i < app.agents.len()
        invariant
            i <= app.agents@.len(),
            all == app@.agents,
            cli::failures_view(items@) == failed_agents(all.take(i as int)),
        decreases app.agents@.len() - i,
    {
        let a = &app.agents[i];
        let ghost before = cli::failures_view(items@);
        proof {
            assert(all.take(i as int + 1).drop_last() =~= all.take(i as int));
            assert(all.take(i as int + 1).last() == a@);
        }
        if a.status == AgentStatus::Failed {
            let name = cli::display_text(&a.group, a.label.as_str());
            let note = text::copied_opt(&a.last_note);
            items.push((name, note));
            assert(cli::failures_view(items@) =~= before.push(
                (cli::display_name(a@.group, a@.label), a@.last_note),
            ));
        }
        i += 1;
    }
    proof {
        assert(all.take(all.len() as int) =~= all);
    }
    cli::format_failures(items.as_slice())
}

} // verus!
