//! The synthetic load of the rendering benchmark, and when each strategy draws.

use vstd::prelude::*;

use crate::event;
use crate::event::{AgentId, AgentUpdate, AppEvent, EventView, StepStatus, UpdateView};
use crate::text;

verus! {

/// The spawns of the first `n` agents.
pub open spec fn spawns(n: nat) -> Seq<EventView> {
    Seq::new(
        n,
        |a: int|
            EventView::AgentSpawned {
                id: (a + 1) as AgentId,
                step: 0,
                label: "stress-"@ + text::decimal(a as nat),
                prompt: "prompt for agent "@ + text::decimal(a as nat),
                group: None,
            },
    )
}

/// One streamed line of each of the first `n` agents, in round `i`.
pub open spec fn round(n: nat, i: nat) -> Seq<EventView> {
    Seq::new(
        n,
        |a: int|
            EventView::Agent {
                id: (a + 1) as AgentId,
                update: UpdateView::Command {
                    command: "step "@ + text::decimal(i) + " of agent "@ + text::decimal(a as nat),
                    output: Some(
                        "line "@ + text::decimal(i) + ": some streamed output text here"@,
                    ),
                },
            },
    )
}

/// The first `n` rounds.
pub open spec fn rounds(agents: nat, n: nat) -> Seq<EventView>
    decreases n,
{
    if n == 0 {
        Seq::empty()
    } else {
        rounds(agents, (n - 1) as nat) + round(agents, (n - 1) as nat)
    }
}

/// One step, `agents` agents, and `per` streamed events of each, round by round
/// as concurrent agents would send them.
pub open spec fn load(agents: nat, per: nat) -> Seq<EventView> {
    seq![
        EventView::StepDeclared { step: 0, title: "Stress"@ },
        EventView::StepStatus { step: 0, status: StepStatus::Running },
    ] + spawns(agents) + rounds(agents, per)
}

fn push_event(v: &mut Vec<AppEvent>, ev: AppEvent)
    ensures
        event::events_view(final(v)@) == event::events_view(old(v)@).push(ev@),
{
    v.push(ev);
    assert(event::events_view(v@) =~= event::events_view(old(v)@).push(ev@));
}

fn push_round(evs: &mut Vec<AppEvent>, agents: usize, i: usize)
    ensures
        event::events_view(final(evs)@) == event::events_view(old(evs)@) + round(
            agents as nat,
            i as nat,
        ),
{
    let ghost before = event::events_view(evs@);
    let mut a: usize = 0;
    proof {
        assert(before + round(0, i as nat) =~= before);
    }
    while a < agents
        invariant
            a <= agents,
            event::events_view(evs@) == before + round(a as nat, i as nat),
        decreases agents - a,
    {
        let mut command = text::copied("step ");
        command.push_str(text::decimal_text(i as u128).as_str());
        command.push_str(" of agent ");
        command.push_str(text::decimal_text(a as u128).as_str());
        let mut output = text::copied("line ");
        output.push_str(text::decimal_text(i as u128).as_str());
        output.push_str(": some streamed output text here");
        push_event(
            evs,
            AppEvent::Agent {
                id: (a + 1) as AgentId,
                update: AgentUpdate::Command { command, output: Some(output) },
            },
        );
        assert(event::events_view(evs@) =~= before + round((a + 1) as nat, i as nat));
        a += 1;
    }
}

/// Build the deterministic load.
pub fn make_load(agents: usize, per: usize) -> (r: Vec<AppEvent>)
    ensures
        event::events_view(r@) == load(agents as nat, per as nat),
{
    let mut evs: Vec<AppEvent> = Vec::new();
    assert(event::events_view(evs@) =~= Seq::empty());
    push_event(&mut evs, AppEvent::StepDeclared { step: 0, title: text::copied("Stress") });
    push_event(&mut evs, AppEvent::StepStatus { step: 0, status: StepStatus::Running });
    let ghost head = seq![
        EventView::StepDeclared { step: 0, title: "Stress"@ },
        EventView::StepStatus { step: 0, status: StepStatus::Running },
    ];
    let mut a: usize = 0;
    proof {
        assert(event::events_view(evs@) =~= head);
        assert(head + spawns(0) =~= head);
    }
    while a < agents
        invariant
            a <= agents,
            event::events_view(evs@) == head + spawns(a as nat),
        decreases agents - a,
    {
        push_event(
            &mut evs,
            AppEvent::AgentSpawned {
                id: (a + 1) as AgentId,
                step: 0,
                label: text::concat2("stress-", text::decimal_text(a as u128).as_str()),
                prompt: text::concat2(
                    "prompt for agent ",
                    text::decimal_text(a as u128).as_str(),
                ),
                group: None,
            },
        );
        assert(event::events_view(evs@) =~= head + spawns((a + 1) as nat));
        a += 1;
    }
    let ghost spawned = head + spawns(agents as nat);
    let mut i: usize = 0;
    proof {
        assert(spawned + rounds(agents as nat, 0) =~= spawned);
    }
    while i < per
        invariant
            i <= per,
            event::events_view(evs@) == spawned + rounds(agents as nat, i as nat),
        decreases per - i,
    {
        push_round(&mut evs, agents, i);
        assert(event::events_view(evs@) =~= spawned + rounds(agents as nat, (i + 1) as nat));
        i += 1;
    }
    evs
}

/// One more event fills a burst of `size` of which `waiting` are there.
pub open spec fn fills(size: nat, waiting: nat) -> bool {
    waiting + 1 == size
}

/// Draws once per `size` events.
pub struct Coalescer {
    pub size: usize,
    pub waiting: usize,
}

impl Coalescer {
    /// Fewer events wait than a burst holds.
    pub open spec fn wf(self) -> bool {
        self.size >= 1 && self.waiting < self.size
    }

    /// A burst of one event per agent, and at least one.
    pub fn new(agents: usize) -> (r: Self)
        ensures
            r.wf(),
            r.waiting == 0,
            r.size == if agents >= 1 {
                agents
            } else {
                1
            },
    {
        let size: usize = if agents >= 1 { agents } else { 1 };
        Coalescer { size, waiting: 0 }
    }

    /// One more event was applied. Returns whether to draw now.
    pub fn on_event(&mut self) -> (draw: bool)
        requires
            old(self).wf(),
        ensures
            final(self).wf(),
            final(self).size == old(self).size,
            draw == fills(old(self).size as nat, old(self).waiting as nat),
            final(self).waiting == if draw {
                0
            } else {
                (old(self).waiting + 1) as usize
            },
    {
        self.waiting = self.waiting + 1;
        if self.waiting >= self.size {
            self.waiting = 0;
            true
        } else {
            false
        }
    }

    /// Whether events are still to be drawn at the end.
    pub fn pending(&self) -> (r: bool)
        ensures
            r == (self.waiting > 0),
    {
        self.waiting > 0
    }
}

// ── Laws ──

proof fn lemma_rounds_len(agents: nat, n: nat)
    ensures
        rounds(agents, n).len() == agents * n,
    decreases n,
{
    if n == 0 {
        assert(agents * 0 == 0);
    } else {
        lemma_rounds_len(agents, (n - 1) as nat);
        assert(agents * n == agents * (n - 1) + agents) by (nonlinear_arith)
            requires
                n >= 1,
        ;
    }
}

/// The load holds two events for its step, and one spawn and `per` streamed
/// events for each agent.
pub proof fn law_load_size(agents: nat, per: nat)
    ensures
        load(agents, per).len() == 2 + agents + agents * per,
{
    lemma_rounds_len(agents, per);
}

/// The draws that `n` events cost in bursts of `size`, with `waiting` not drawn
/// yet, the last partial burst included.
pub open spec fn draws(size: nat, waiting: nat, n: nat) -> nat
    decreases n,
{
    if n == 0 {
        if waiting > 0 {
            1
        } else {
            0
        }
    } else if fills(size, waiting) {
        1 + draws(size, 0, (n - 1) as nat)
    } else {
        draws(size, waiting + 1, (n - 1) as nat)
    }
}

/// Coalescing costs exactly one draw per full or partial burst.
pub proof fn law_draws_per_burst(size: nat, waiting: nat, n: nat)
    requires
        size >= 1,
        waiting < size,
    ensures
        draws(size, waiting, n) * size >= waiting + n,
        draws(size, waiting, n) * size < waiting + n + size,
    decreases n,
{
    if n > 0 {
        if fills(size, waiting) {
            law_draws_per_burst(size, 0, (n - 1) as nat);
            let d = draws(size, 0, (n - 1) as nat);
            assert((1 + d) * size == size + d * size) by (nonlinear_arith);
        } else {
            law_draws_per_burst(size, waiting + 1, (n - 1) as nat);
        }
    } else {
        assert(0 * size == 0);
        assert(1 * size == size);
    }
}

/// The load declares one step and runs it, then spawns every agent there, each
/// under a number of its own.
pub proof fn law_load_spawns_every_agent(agents: nat, per: nat, a: int)
    requires
        0 <= a < agents <= usize::MAX,
        agents < u64::MAX,
    ensures
        load(agents, per)[0] matches EventView::StepDeclared { step, .. } && step == 0,
        load(agents, per)[1] matches EventView::StepStatus { step, status } && step == 0 && status
            == StepStatus::Running,
        load(agents, per)[2 + a] matches EventView::AgentSpawned { id, step, label, prompt, group }
            && id == a + 1 && step == 0 && group is None && text::ends_with(
            label,
            text::decimal(a as nat),
        ) && text::ends_with(prompt, text::decimal(a as nat)),
{
    let d = text::decimal(a as nat);
    text::laws::law_part_is_contained("stress-"@, d, d);
    text::laws::law_part_is_contained("prompt for agent "@, d, d);
    let head = seq![
        EventView::StepDeclared { step: 0, title: "Stress"@ },
        EventView::StepStatus { step: 0, status: StepStatus::Running },
    ];
    assert(head.len() == 2);
    assert(load(agents, per)[2 + a] == spawns(agents)[a]);
}

/// Each round holds one command with output of every agent, in the same order.
pub proof fn law_rounds_hear_every_agent(agents: nat, i: nat, a: int)
    requires
        0 <= a < agents < u64::MAX,
    ensures
        round(agents, i).len() == agents,
        round(agents, i)[a] matches EventView::Agent { id, update } && id == a + 1 && (
        update matches UpdateView::Command { output, .. } && output is Some),
        rounds(agents, i + 1) == rounds(agents, i) + round(agents, i),
        rounds(agents, 0).len() == 0,
{
}

} // verus!
