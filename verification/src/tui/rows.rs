//! The visible rows of the Agents pane: a group shows a header where it was
//! first seen, with its members folded under it, while ungrouped agents keep
//! their spawn position.

use vstd::prelude::*;

use crate::event::{AgentStatus, StepId};
use crate::text;

verus! {

/// One agent as the terminal front-end knows it.
pub struct AgentRow {
    pub step: StepId,
    pub label: String,
    /// One-level nesting group (the child workflow this agent belongs to).
    pub group: Option<String>,
    pub status: AgentStatus,
    pub tokens_in: u64,
    pub tokens_out: u64,
    pub detail: Vec<String>,
    /// Most recent note (best-effort failure reason for the exit summary).
    pub last_note: Option<String>,
}

/// What an [`AgentRow`] holds.
#[verifier::ext_equal]
pub struct AgentView {
    pub step: StepId,
    pub label: Seq<char>,
    pub group: Option<Seq<char>>,
    pub status: AgentStatus,
    pub tokens_in: u64,
    pub tokens_out: u64,
    pub detail: Seq<Seq<char>>,
    pub last_note: Option<Seq<char>>,
}

impl View for AgentRow {
    type V = AgentView;

    open spec fn view(&self) -> AgentView {
        AgentView {
            step: self.step,
            label: self.label@,
            group: text::opt_text(self.group),
            status: self.status,
            tokens_in: self.tokens_in,
            tokens_out: self.tokens_out,
            detail: text::texts(self.detail@),
            last_note: text::opt_text(self.last_note),
        }
    }
}

/// What a list of agent rows holds.
pub open spec fn agents_view(v: Seq<AgentRow>) -> Seq<AgentView> {
    Seq::new(v.len(), |i: int| v[i]@)
}

/// One visible row. Rows are indices into the append-only agent list, so a row
/// keeps naming the same agent or group as the list grows.
#[derive(Debug, PartialEq, Eq, Clone, Copy, Structural)]
pub enum Row {
    /// Group header; `first` is the index of the group's first agent, which
    /// carries the group name.
    Header { first: usize },
    /// A plain agent row (ungrouped, or a member of an expanded group).
    Agent { idx: usize },
}

/// The agents among `idxs` that belong to group `g`, in order.
pub open spec fn members(agents: Seq<AgentView>, idxs: Seq<usize>, g: Seq<char>) -> Seq<usize>
    decreases idxs.len(),
{
    if idxs.len() == 0 {
        Seq::empty()
    } else {
        let before = members(agents, idxs.drop_last(), g);
        if agents[idxs.last() as int].group == Some(g) {
            before.push(idxs.last())
        } else {
            before
        }
    }
}

/// A plain row for each agent.
pub open spec fn agent_rows(idxs: Seq<usize>) -> Seq<Row> {
    Seq::new(idxs.len(), |i: int| Row::Agent { idx: idxs[i] })
}

/// No agent before position `p` shares the group of the agent at `p`.
pub open spec fn first_seen(agents: Seq<AgentView>, idxs: Seq<usize>, p: int) -> bool {
    forall|q: int|
        0 <= q < p ==> (#[trigger] agents[idxs[q] as int]).group != agents[idxs[p] as int].group
}

/// The rows that the agent at position `p` of `idxs` brings into view.
pub open spec fn row_block(
    agents: Seq<AgentView>,
    idxs: Seq<usize>,
    folded: Set<Seq<char>>,
    p: int,
) -> Seq<Row> {
    match agents[idxs[p] as int].group {
        None => seq![Row::Agent { idx: idxs[p] }],
        Some(g) => if !first_seen(agents, idxs, p) {
            Seq::empty()
        } else if folded.contains(g) {
            seq![Row::Header { first: idxs[p] }]
        } else {
            seq![Row::Header { first: idxs[p] }] + agent_rows(members(agents, idxs, g))
        },
    }
}

/// The rows that the first `n` agents of `idxs` bring into view.
pub open spec fn rows_upto(
    agents: Seq<AgentView>,
    idxs: Seq<usize>,
    folded: Set<Seq<char>>,
    n: nat,
) -> Seq<Row>
    decreases n,
{
    if n == 0 {
        Seq::empty()
    } else {
        rows_upto(agents, idxs, folded, (n - 1) as nat) + row_block(agents, idxs, folded, n - 1)
    }
}

/// The visible rows for the agents `idxs`, with the groups in `folded` collapsed.
pub open spec fn visible_rows(
    agents: Seq<AgentView>,
    idxs: Seq<usize>,
    folded: Set<Seq<char>>,
) -> Seq<Row> {
    rows_upto(agents, idxs, folded, idxs.len())
}

/// The groups of step `step` that are collapsed.
pub open spec fn folded_in(collapsed: Set<(StepId, Seq<char>)>, step: StepId) -> Set<Seq<char>> {
    Set::new(|g: Seq<char>| collapsed.contains((step, g)))
}

/// The collapsed groups a list stands for.
pub open spec fn collapsed_view(v: Seq<(StepId, String)>) -> Set<(StepId, Seq<char>)> {
    Set::new(|p: (StepId, Seq<char>)| exists|i: int| 0 <= i < v.len() && (#[trigger] v[i]).0 == p.0 && v[i].1@ == p.1)
}

/// Whether group `g` of `step` is collapsed.
pub fn is_collapsed(v: &Vec<(StepId, String)>, step: StepId, g: &str) -> (r: bool)
    ensures
        r == collapsed_view(v@).contains((step, g@)),
{
    let mut i: usize = 0;
    while i < v.len()
        invariant
            i <= v@.len(),
            forall|j: int| 0 <= j < i ==> !((#[trigger] v@[j]).0 == step && v@[j].1@ == g@),
        decreases v@.len() - i,
    {
        if v[i].0 == step && text::same_text(v[i].1.as_str(), g) {
            assert(v@[i as int].0 == step);
            return true;
        }
        i += 1;
    }
    false
}

/// Whether the agents `a` and `b` belong to the same group.
fn same_group(a: &AgentRow, b: &AgentRow) -> (r: bool)
    ensures
        r == (a@.group == b@.group),
{
    match (&a.group, &b.group) {
        (Some(x), Some(y)) => text::same_text(x.as_str(), y.as_str()),
        (None, None) => true,
        _ => false,
    }
}

/// Some position in `heads` holds an agent of the same group as agent `idx`.
spec fn known_group(agents: Seq<AgentView>, idxs: Seq<usize>, heads: Seq<usize>, idx: int) -> bool {
    exists|k: int|
        0 <= k < heads.len() && agents[idxs[(#[trigger] heads[k]) as int] as int].group
            == agents[idx].group
}

fn is_known_group(
    agents: &Vec<AgentRow>,
    idxs: &Vec<usize>,
    heads: &Vec<usize>,
    idx: usize,
) -> (r: bool)
    requires
        idx < agents@.len(),
        forall|k: int| 0 <= k < idxs@.len() ==> (#[trigger] idxs@[k]) < agents@.len(),
        forall|k: int| 0 <= k < heads@.len() ==> (#[trigger] heads@[k]) < idxs@.len(),
    ensures
        r == known_group(agents_view(agents@), idxs@, heads@, idx as int),
{
    let ghost av = agents_view(agents@);
    let mut h: usize = 0;
    while h < heads.len()
        invariant
            h <= heads@.len(),
            idx < agents@.len(),
            av == agents_view(agents@),
            forall|k: int| 0 <= k < idxs@.len() ==> (#[trigger] idxs@[k]) < agents@.len(),
            forall|k: int| 0 <= k < heads@.len() ==> (#[trigger] heads@[k]) < idxs@.len(),
            forall|k: int|
                0 <= k < h ==> av[idxs@[(#[trigger] heads@[k]) as int] as int].group
                    != av[idx as int].group,
        decreases heads@.len() - h,
    {
        if same_group(&agents[idxs[heads[h]]], &agents[idx]) {
            assert(av[idxs@[heads@[h as int] as int] as int].group == av[idx as int].group);
            return true;
        }
        h += 1;
    }
    false
}

/// Append a row for each member of the group of agent `idx`.
fn push_members(rows: &mut Vec<Row>, agents: &Vec<AgentRow>, idxs: &Vec<usize>, idx: usize, g: &str)
    requires
        idx < agents@.len(),
        agents_view(agents@)[idx as int].group == Some(g@),
        forall|k: int| 0 <= k < idxs@.len() ==> (#[trigger] idxs@[k]) < agents@.len(),
    ensures
        final(rows)@ == old(rows)@ + agent_rows(members(agents_view(agents@), idxs@, g@)),
{
    let ghost av = agents_view(agents@);
    let ghost start = rows@;
    let n: usize = idxs.len();
    let mut k: usize = 0;
    assert(rows@ =~= start + agent_rows(members(av, idxs@.take(0), g@)));
    while k < n
        invariant
            k <= n == idxs@.len(),
            av == agents_view(agents@),
            idx < agents@.len(),
            av[idx as int].group == Some(g@),
            forall|j: int| 0 <= j < idxs@.len() ==> (#[trigger] idxs@[j]) < agents@.len(),
            rows@ == start + agent_rows(members(av, idxs@.take(k as int), g@)),
        decreases n - k,
    {
        let ghost m = members(av, idxs@.take(k as int), g@);
        assert(idxs@.take(k as int + 1).drop_last() =~= idxs@.take(k as int));
        if same_group(&agents[idxs[k]], &agents[idx]) {
            rows.push(Row::Agent { idx: idxs[k] });
            assert(rows@ =~= start + agent_rows(m.push(idxs@[k as int])));
        }
        k += 1;
    }
    assert(idxs@.take(n as int) =~= idxs@);
}

/// Derive the visible rows for the agents `idxs` of step `step`.
pub fn derive_rows(
    agents: &Vec<AgentRow>,
    idxs: &Vec<usize>,
    collapsed: &Vec<(StepId, String)>,
    step: StepId,
) -> (rows: Vec<Row>)
    requires
        forall|k: int| 0 <= k < idxs@.len() ==> (#[trigger] idxs@[k]) < agents@.len(),
    ensures
        rows@ == visible_rows(
            agents_view(agents@),
            idxs@,
            folded_in(collapsed_view(collapsed@), step),
        ),
{
    let ghost av = agents_view(agents@);
    let ghost folded = folded_in(collapsed_view(collapsed@), step);
    let n: usize = idxs.len();
    // Positions in `idxs` at which a group was first seen.
    let mut heads: Vec<usize> = Vec::new();
    let mut rows: Vec<Row> = Vec::new();
    let mut p: usize = 0;
    while p < n
        invariant
            p <= n == idxs@.len(),
            av == agents_view(agents@),
            folded == folded_in(collapsed_view(collapsed@), step),
            forall|k: int| 0 <= k < idxs@.len() ==> (#[trigger] idxs@[k]) < agents@.len(),
            forall|h: int| 0 <= h < heads@.len() ==> (#[trigger] heads@[h]) < p,
            forall|q: int|
                0 <= q < p && (#[trigger] av[idxs@[q] as int]).group is Some ==> known_group(
                    av,
                    idxs@,
                    heads@,
                    idxs@[q] as int,
                ),
            rows@ == rows_upto(av, idxs@, folded, p as nat),
        decreases n - p,
    {
        let idx: usize = idxs[p];
        let ghost before = rows@;
        let ghost block = row_block(av, idxs@, folded, p as int);
        match &agents[idx].group {
            None => {
                rows.push(Row::Agent { idx });
                assert(rows@ =~= before + block);
            },
            Some(g) => {
                assert(av[idx as int].group == Some(g@));
                if is_known_group(agents, idxs, &heads, idx) {
                    proof {
                        let k = choose|k: int|
                            0 <= k < heads@.len() && av[idxs@[(#[trigger] heads@[k]) as int] as int].group
                                == av[idx as int].group;
                        let q = heads@[k] as int;
                        assert(av[idxs@[q] as int].group == av[idxs@[p as int] as int].group);
                        assert(!first_seen(av, idxs@, p as int));
                        assert(rows@ =~= before + block);
                    }
                } else {
                    proof {
                        lemma_first_seen(av, idxs@, heads@, p as int);
                        lemma_heads_grow(av, idxs@, heads@, p as int);
                    }
                    heads.push(p);
                    rows.push(Row::Header { first: idx });
                    if !is_collapsed(collapsed, step, g.as_str()) {
                        push_members(&mut rows, agents, idxs, idx, g.as_str());
                    }
                    assert(rows@ =~= before + block);
                }
            },
        }
        p += 1;
    }
    rows
}

/// The first position at which `row` stands.
pub fn position_of(rows: &Vec<Row>, row: Row) -> (r: Option<usize>)
    ensures
        match r {
            Some(i) => rows@.contains(row) && rows@.index_of_first(row) == Some(i as int),
            None => !rows@.contains(row),
        },
{
    proof {
        rows@.index_of_first_ensures(row);
    }
    let mut i: usize = 0;
    while i < rows.len()
        invariant
            i <= rows@.len(),
            forall|j: int| 0 <= j < i ==> rows@[j] != row,
            match rows@.index_of_first(row) {
                Some(k) => 0 <= k < rows@.len() && rows@[k] == row && forall|j: int|
                    0 <= j < k ==> rows@[j] != row,
                None => !rows@.contains(row),
            },
        decreases rows@.len() - i,
    {
        if rows[i] == row {
            assert(rows@.contains(rows@[i as int]));
            return Some(i);
        }
        i += 1;
    }
    None
}

proof fn lemma_first_seen(agents: Seq<AgentView>, idxs: Seq<usize>, heads: Seq<usize>, p: int)
    requires
        0 <= p < idxs.len(),
        agents[idxs[p] as int].group is Some,
        !known_group(agents, idxs, heads, idxs[p] as int),
        forall|q: int|
            0 <= q < p && (#[trigger] agents[idxs[q] as int]).group is Some ==> known_group(
                agents,
                idxs,
                heads,
                idxs[q] as int,
            ),
    ensures
        first_seen(agents, idxs, p),
{
    assert forall|q: int| 0 <= q < p implies (#[trigger] agents[idxs[q] as int]).group
        != agents[idxs[p] as int].group by {
        if agents[idxs[q] as int].group == agents[idxs[p] as int].group {
            assert(known_group(agents, idxs, heads, idxs[q] as int));
        }
    }
}

proof fn lemma_heads_grow(agents: Seq<AgentView>, idxs: Seq<usize>, heads: Seq<usize>, p: int)
    requires
        0 <= p < idxs.len(),
        p <= usize::MAX,
        forall|q: int|
            0 <= q < p && (#[trigger] agents[idxs[q] as int]).group is Some ==> known_group(
                agents,
                idxs,
                heads,
                idxs[q] as int,
            ),
    ensures
        forall|q: int|
            0 <= q < p + 1 && (#[trigger] agents[idxs[q] as int]).group is Some ==> known_group(
                agents,
                idxs,
                heads.push(p as usize),
                idxs[q] as int,
            ),
{
    let grown = heads.push(p as usize);
    assert forall|q: int|
        0 <= q < p + 1 && (#[trigger] agents[idxs[q] as int]).group is Some implies known_group(
        agents,
        idxs,
        grown,
        idxs[q] as int,
    ) by {
        if q < p {
            let k = choose|k: int|
                0 <= k < heads.len() && agents[idxs[(#[trigger] heads[k]) as int] as int].group
                    == agents[idxs[q] as int].group;
            assert(grown[k] == heads[k]);
        } else {
            assert(grown[heads.len() as int] == p as usize);
        }
    }
}

} // verus!
