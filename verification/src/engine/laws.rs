//! What holds of the engine across calls: replays are free and faithful, cosmetic
//! options never miss the journal, and every step entered is closed.

use vstd::prelude::*;

use vstd::utf8::*;

use crate::codex;
use crate::codex::RunView;
use crate::engine;
use crate::engine::{CallView, Engine, EngineView, JsAgentSpec, Plan, PlanView};
use crate::event::{AgentStatus, EventView, StepStatus, UpdateView};
use crate::journal;
use crate::journal::EntryView;
use crate::text;

verus! {

/// Counting a call keeps the engine sound.
pub proof fn law_calls_keep_wf(
    v: EngineView,
    c: CallView,
    spent: u64,
    framing: Option<Result<Seq<char>, Seq<char>>>,
)
    requires
        v.wf(),
        engine::countable(v, c, framing),
    ensures
        engine::agent_plan(v, c, spent, framing).0.wf(),
{
    let w = engine::agent_plan(v, c, spent, framing).0;
    assert forall|k: Seq<char>| #[trigger] w.journal.count(k) <= w.calls by {
        assert(v.journal.count(k) <= v.calls);
    }
}

/// Two calls that differ only in id, label, step, group or timeout are the same
/// call to the journal.
pub proof fn law_cosmetic_options_keep_the_key(a: CallView, b: CallView, prompt: Seq<char>)
    requires
        a.model == b.model,
        a.sandbox == b.sandbox,
        a.schema == b.schema,
        a.cwd == b.cwd,
        a.isolate == b.isolate,
    ensures
        engine::call_key(a, prompt) == engine::call_key(b, prompt),
{
}

/// A call whose result is known is answered from the journal even with the budget
/// used up: nothing is started and nothing is spent.
pub proof fn law_replay_is_free(v: EngineView, c: CallView, spent: u64, framing: Option<Seq<char>>)
    requires
        ({
            let key = engine::call_key(c, engine::framed(framing, c.prompt));
            v.journal.result(key, v.journal.count(key)) is Some
        }),
    ensures
        engine::framed_plan(v, c, spent, framing).1 is Replay,
        engine::framed_plan(v, c, 0, framing).1 == engine::framed_plan(v, c, spent, framing).1,
{
}

/// Without a known result and with the budget used up, a call is refused.
pub proof fn law_exhausted_budget_refuses(
    v: EngineView,
    c: CallView,
    spent: u64,
    framing: Option<Seq<char>>,
)
    requires
        codex::exceeded(v.budget_total, spent),
        ({
            let key = engine::call_key(c, engine::framed(framing, c.prompt));
            v.journal.result(key, v.journal.count(key)) is None
        }),
    ensures
        engine::framed_plan(v, c, spent, framing).1 == PlanView::Refuse(
            codex::refusal(v.budget_total, spent),
        ),
{
}

/// Asking for a worktree and a directory at once is refused, and counts as no
/// call.
pub proof fn law_isolate_excludes_cwd(
    v: EngineView,
    c: CallView,
    spent: u64,
    framing: Option<Result<Seq<char>, Seq<char>>>,
)
    requires
        c.isolate,
        c.cwd is Some,
    ensures
        engine::agent_plan(v, c, spent, framing) == (
            v,
            PlanView::Refuse(engine::ISOLATE_CONFLICT@),
        ),
{
}

/// Resume replays a run: when a call started and its result was filed, the same
/// call at the same point of another run that loaded that result is answered
/// with it.
pub proof fn law_resume_replays_a_filed_result(
    first: EngineView,
    later: EngineView,
    c: CallView,
    again: CallView,
    spent: u64,
    spent_later: u64,
    framing: Option<Seq<char>>,
    result: Seq<char>,
)
    requires
        engine::framed_plan(first, c, spent, framing).1 is Start,
        again.prompt == c.prompt,
        again.model == c.model,
        again.sandbox == c.sandbox,
        again.schema == c.schema,
        again.cwd == c.cwd,
        again.isolate == c.isolate,
        ({
            let plan = engine::framed_plan(first, c, spent, framing).1;
            let e = EntryView { key: plan->key, occ: plan->occ, result };
            &&& later.journal.cache == engine::framed_plan(
                first,
                c,
                spent,
                framing,
            ).0.journal.added(e).cache
            &&& later.journal.count(plan->key) == plan->occ
        }),
    ensures
        engine::framed_plan(later, again, spent_later, framing).1 matches PlanView::Replay {
            result: r,
            ..
        } && r == result,
{
}

/// Identical calls in one run are independent samples: the second is never
/// answered with what the first one filed.
pub proof fn law_identical_calls_stay_independent(
    v: EngineView,
    c: CallView,
    spent: u64,
    framing: Option<Seq<char>>,
    result: Seq<char>,
)
    requires
        engine::framed_plan(v, c, spent, framing).1 is Start,
        ({
            let key = engine::call_key(c, engine::framed(framing, c.prompt));
            v.journal.count(key) < u32::MAX && v.journal.result(key, (v.journal.count(key) + 1) as u32) is None
        }),
    ensures
        ({
            let (after, plan) = engine::framed_plan(v, c, spent, framing);
            let e = EntryView { key: plan->key, occ: plan->occ, result };
            let filed = EngineView { journal: after.journal.added(e), ..after };
            engine::framed_plan(filed, c, spent, framing).1 == PlanView::Start {
                key: plan->key,
                occ: (plan->occ + 1) as u32,
                prompt: plan->prompt,
            }
        }),
{
}

/// Editing a type's file makes its calls different calls: what the journal hashes
/// differs as soon as the framing does.
pub proof fn law_edited_type_is_another_call(c: CallView, f: Seq<char>, g: Seq<char>)
    requires
        f != g,
    ensures
        journal::key_text(engine::call_identity(c, engine::framed(Some(f), c.prompt)))
            != journal::key_text(engine::call_identity(c, engine::framed(Some(g), c.prompt))),
{
    let a = journal::key_text(engine::call_identity(c, engine::framed(Some(f), c.prompt)));
    let b = journal::key_text(engine::call_identity(c, engine::framed(Some(g), c.prompt)));
    if a == b {
        let n = "prompt="@.len() as int;
        let p = engine::framed(Some(f), c.prompt);
        let q = engine::framed(Some(g), c.prompt);
        assert(a.len() - p.len() == b.len() - q.len());
        assert(f.len() == g.len());
        assert(p =~= a.subrange(n, n + p.len()));
        assert(q =~= b.subrange(n, n + q.len()));
        assert(f =~= p.take(f.len() as int));
        assert(g =~= q.take(g.len() as int));
    }
}

/// The key of a call whose type's framing, if it has a type, is known.
pub open spec fn framed_key(call: (CallView, Option<Seq<char>>)) -> Seq<char> {
    engine::call_key(call.0, engine::framed(call.1, call.0.prompt))
}

/// The engine after a run of calls, each with its framing.
pub open spec fn after_calls(
    v: EngineView,
    calls: Seq<(CallView, Option<Seq<char>>)>,
    spent: u64,
) -> EngineView
    decreases calls.len(),
{
    if calls.len() == 0 {
        v
    } else {
        engine::framed_plan(
            after_calls(v, calls.drop_last(), spent),
            calls.last().0,
            spent,
            calls.last().1,
        ).0
    }
}

/// Runs that make the same calls count them alike, and calls alone never change
/// what the journal holds.
proof fn lemma_same_counts(
    first: EngineView,
    later: EngineView,
    a: Seq<(CallView, Option<Seq<char>>)>,
    b: Seq<(CallView, Option<Seq<char>>)>,
    spent: u64,
    spent_later: u64,
)
    requires
        forall|k: Seq<char>| #[trigger] first.journal.count(k) == later.journal.count(k),
        a.len() == b.len(),
        forall|i: int| 0 <= i < a.len() ==> framed_key(#[trigger] a[i]) == framed_key(b[i]),
    ensures
        forall|k: Seq<char>| #[trigger]
            after_calls(first, a, spent).journal.count(k) == after_calls(
                later,
                b,
                spent_later,
            ).journal.count(k),
        after_calls(later, b, spent_later).journal.cache == later.journal.cache,
    decreases a.len(),
{
    if a.len() > 0 {
        let a0 = a.drop_last();
        let b0 = b.drop_last();
        assert forall|i: int| 0 <= i < a0.len() implies framed_key(#[trigger] a0[i]) == framed_key(
            b0[i],
        ) by {
            assert(a0[i] == a[i]);
        }
        lemma_same_counts(first, later, a0, b0, spent, spent_later);
        let v = after_calls(first, a0, spent);
        let w = after_calls(later, b0, spent_later);
        let last = a.len() - 1;
        assert(framed_key(a[last]) == framed_key(b[last]));
        assert forall|k: Seq<char>| #[trigger]
            after_calls(first, a, spent).journal.count(k) == after_calls(
                later,
                b,
                spent_later,
            ).journal.count(k) by {
            assert(v.journal.count(k) == w.journal.count(k));
            assert(v.journal.count(framed_key(a[last])) == w.journal.count(framed_key(a[last])));
        }
    }
}

/// Resuming a run replays it: where a later run makes the calls of an earlier one
/// in the same order, each call asks the journal for what the earlier run filed
/// for that very call, and gets it. Labels, steps, groups and timeouts may differ.
pub proof fn law_resumed_run_replays_call_by_call(
    first: EngineView,
    later: EngineView,
    a: Seq<(CallView, Option<Seq<char>>)>,
    b: Seq<(CallView, Option<Seq<char>>)>,
    i: int,
    spent: u64,
    spent_later: u64,
    result: Seq<char>,
)
    requires
        forall|k: Seq<char>| #[trigger] first.journal.count(k) == later.journal.count(k),
        a.len() == b.len(),
        forall|j: int| 0 <= j < a.len() ==> framed_key(#[trigger] a[j]) == framed_key(b[j]),
        0 <= i < a.len(),
        engine::framed_plan(after_calls(first, a.take(i), spent), a[i].0, spent, a[i].1).1
            matches PlanView::Start { key, occ, .. } && later.journal.result(key, occ) == Some(
            result,
        ),
    ensures
        engine::framed_plan(after_calls(later, b.take(i), spent_later), b[i].0, spent_later, b[i].1).1
            matches PlanView::Replay { result: r, .. } && r == result,
{
    let a0 = a.take(i);
    let b0 = b.take(i);
    assert forall|j: int| 0 <= j < a0.len() implies framed_key(#[trigger] a0[j]) == framed_key(
        b0[j],
    ) by {
        assert(a0[j] == a[j]);
    }
    lemma_same_counts(first, later, a0, b0, spent, spent_later);
    let v = after_calls(first, a0, spent);
    let w = after_calls(later, b0, spent_later);
    assert(framed_key(a[i]) == framed_key(b[i]));
    assert(v.journal.count(framed_key(a[i])) == w.journal.count(framed_key(a[i])));
}

/// The events of a run that enters the titled steps in turn and then ends.
pub open spec fn step_events(titles: Seq<Seq<char>>) -> Seq<EventView>
    decreases titles.len(),
{
    if titles.len() == 0 {
        Seq::empty()
    } else {
        step_events(titles.drop_last()) + engine::phase_events(
            (titles.len() - 1) as usize,
            titles.last(),
        )
    }
}

/// The last status given to a step, if any.
pub open spec fn last_status(events: Seq<EventView>, step: int) -> Option<StepStatus>
    decreases events.len(),
{
    if events.len() == 0 {
        None
    } else {
        match events.last() {
            EventView::StepStatus { step: s, status } => if s == step {
                Some(status)
            } else {
                last_status(events.drop_last(), step)
            },
            _ => last_status(events.drop_last(), step),
        }
    }
}

proof fn lemma_last_status_push(events: Seq<EventView>, ev: EventView, step: int)
    ensures
        last_status(events.push(ev), step) == match ev {
            EventView::StepStatus { step: s, status } => if s == step {
                Some(status)
            } else {
                last_status(events, step)
            },
            _ => last_status(events, step),
        },
{
    assert(events.push(ev).drop_last() =~= events);
}

/// While steps are entered, each one left is done and the one entered last runs;
/// no other has a status.
pub proof fn law_entering_a_step_closes_the_one_before(titles: Seq<Seq<char>>, step: int)
    requires
        titles.len() <= usize::MAX,
    ensures
        0 <= step < titles.len() - 1 ==> last_status(step_events(titles), step) == Some(
            StepStatus::Done,
        ),
        step == titles.len() - 1 && step >= 0 ==> last_status(step_events(titles), step) == Some(
            StepStatus::Running,
        ),
        step < 0 || step >= titles.len() ==> last_status(step_events(titles), step) is None,
    decreases titles.len(),
{
    if titles.len() > 0 {
        let front = titles.drop_last();
        let n = (titles.len() - 1) as usize;
        law_entering_a_step_closes_the_one_before(front, step);
        let before = step_events(front);
        let declared = EventView::StepDeclared { step: n, title: titles.last() };
        let runs = EventView::StepStatus { step: n, status: StepStatus::Running };
        if n == 0 {
            let e1 = before.push(declared);
            lemma_last_status_push(before, declared, step);
            lemma_last_status_push(e1, runs, step);
            assert(step_events(titles) =~= e1.push(runs));
        } else {
            let done = EventView::StepStatus { step: (n - 1) as usize, status: StepStatus::Done };
            let e0 = before.push(done);
            let e1 = e0.push(declared);
            lemma_last_status_push(before, done, step);
            lemma_last_status_push(e0, declared, step);
            lemma_last_status_push(e1, runs, step);
            assert(step_events(titles) =~= e1.push(runs));
        }
    }
}

/// When the run ends every step entered has its terminal status: done, or for the
/// last one failed if the run failed.
pub proof fn law_every_step_is_closed(titles: Seq<Seq<char>>, success: bool, step: int)
    requires
        0 < titles.len() <= usize::MAX,
        0 <= step < titles.len(),
    ensures
        ({
            let all = step_events(titles).push(
                engine::closing_event((titles.len() - 1) as usize, success),
            );
            last_status(all, step) == Some(
                if step < titles.len() - 1 || success {
                    StepStatus::Done
                } else {
                    StepStatus::Failed
                },
            )
        }),
{
    law_entering_a_step_closes_the_one_before(titles, step);
    lemma_last_status_push(
        step_events(titles),
        engine::closing_event((titles.len() - 1) as usize, success),
        step,
    );
}

// ── What a call is to the journal ──

/// The text that a call is filed by, before it is hashed.
pub open spec fn identity_text(c: CallView, prompt: Seq<char>) -> Seq<char> {
    journal::key_text(engine::call_identity(c, prompt))
}

/// No option that the journal looks at holds a NUL.
pub open spec fn options_nul_free(c: CallView) -> bool {
    &&& journal::laws::opt_nul_free(c.model)
    &&& journal::laws::opt_nul_free(c.sandbox)
    &&& journal::laws::opt_nul_free(c.schema)
    &&& journal::laws::opt_nul_free(c.cwd)
}

/// What the journal hashes tells calls apart: calls with the same text were sent
/// the same prompt and agree in every option that changes what an agent does.
pub proof fn law_identity_tells_calls_apart(
    a: CallView,
    p: Seq<char>,
    b: CallView,
    q: Seq<char>,
)
    requires
        options_nul_free(a),
        options_nul_free(b),
        identity_text(a, p) == identity_text(b, q),
    ensures
        p == q,
        a.model == b.model,
        a.sandbox == b.sandbox,
        a.schema == b.schema,
        a.cwd == b.cwd,
        a.isolate == b.isolate,
{
    let x = engine::call_identity(a, p);
    let y = engine::call_identity(b, q);
    journal::laws::law_encoding_tells_inputs_apart(x, y);
    assert(x.prompt == p && y.prompt == q);
    assert(x.model == a.model && y.model == b.model);
    assert(x.sandbox == a.sandbox && y.sandbox == b.sandbox);
    assert(x.schema == a.schema && y.schema == b.schema);
    assert(x.cwd == a.cwd && y.cwd == b.cwd);
    assert(x.isolate == a.isolate && y.isolate == b.isolate);
}

/// The key of a call is the hash of that text and of nothing less: sixteen
/// hexadecimal digits that two calls share only when their texts hash alike.
pub proof fn law_key_hashes_the_whole_identity(
    a: CallView,
    p: Seq<char>,
    b: CallView,
    q: Seq<char>,
)
    ensures
        engine::call_key(a, p) == engine::call_key(b, q) <==> journal::fnv1a(
            encode_utf8(identity_text(a, p)),
        ) == journal::fnv1a(encode_utf8(identity_text(b, q))),
        engine::call_key(a, p).len() == 16,
{
    journal::laws::law_key_is_the_hash(
        engine::call_identity(a, p),
        engine::call_identity(b, q),
    );
    journal::laws::law_key_has_fixed_length(engine::call_identity(a, p));
}

/// Isolation always changes a call's key: no hash can hide it.
pub proof fn law_isolation_changes_the_key(a: CallView, b: CallView, prompt: Seq<char>)
    requires
        a.model == b.model,
        a.sandbox == b.sandbox,
        a.schema == b.schema,
        a.cwd == b.cwd,
        a.isolate != b.isolate,
    ensures
        engine::call_key(a, prompt) != engine::call_key(b, prompt),
{
    let x = engine::call_identity(a, prompt);
    let y = engine::call_identity(b, prompt);
    journal::laws::law_isolation_is_hashed(x, y);
}

/// The prompt sent is the call's own, whole and last; a type's framing comes
/// before it, set off by an empty line, and nothing else does.
pub proof fn law_framing_comes_before_the_prompt(f: Seq<char>, prompt: Seq<char>)
    ensures
        text::starts_with(engine::framed(Some(f), prompt), f),
        text::ends_with(engine::framed(Some(f), prompt), prompt),
        engine::framed(Some(f), prompt).len() == f.len() + 2 + prompt.len(),
        engine::framed(Some(f), prompt)[f.len() as int] == '\n',
        engine::framed(Some(f), prompt)[f.len() as int + 1] == '\n',
        engine::framed(None, prompt) == prompt,
{
    reveal_strlit("\n\n");
    assert(f + "\n\n"@ + prompt =~= f + ("\n\n"@ + prompt));
    text::laws::law_part_is_contained(f, f, "\n\n"@ + prompt);
    text::laws::law_part_is_contained(f + "\n\n"@, prompt, prompt);
}

/// A script's call says everything it was made with.
pub proof fn law_call_says_everything(s: JsAgentSpec)
    ensures
        s@.id == s.id,
        s@.label == s.label@,
        s@.step == s.step,
        s@.prompt == s.prompt@,
        s@.model == text::opt_text(s.model),
        s@.sandbox == text::opt_text(s.sandbox),
        s@.schema == text::opt_text(s.schema),
        s@.cwd == text::opt_text(s.cwd),
        s@.isolate == s.isolate,
        s@.timeout_ms == s.timeout_ms,
        s@.agent_type == text::opt_text(s.agent_type),
        s@.group == text::opt_text(s.group),
{
}

/// An engine and its plans say everything they are made of.
pub proof fn law_engine_says_everything(e: Engine, p: Plan)
    ensures
        e@.budget_total == e.budget_total,
        e@.journal == e.journal@,
        e@.steps == e.steps,
        e@.calls == e.calls,
        p matches Plan::Refuse(m) ==> p@ == PlanView::Refuse(m@),
        p is Replay ==> p@ is Replay && p@->result == p->result@ && p@->events.len()
            == p->events@.len() && (forall|i: int|
            0 <= i < p->events@.len() ==> #[trigger] p@->events[i] == p->events@[i]@),
        p is Start ==> p@ is Start && p@->key == p->key@ && p@->occ == p->occ && p@->prompt
            == p->prompt@,
{
}

// ── What becomes of a call ──

/// A call is answered from the journal exactly when a result is known for its key
/// at its occurrence, and with that result; otherwise it is refused exactly when
/// as much was spent as there was, and started in all other cases, under that key
/// and occurrence and with the framed prompt.
pub proof fn law_a_call_is_replayed_refused_or_started(
    v: EngineView,
    c: CallView,
    spent: u64,
    framing: Option<Seq<char>>,
)
    ensures
        ({
            let sent = engine::framed(framing, c.prompt);
            let key = engine::call_key(c, sent);
            let known = v.journal.result(key, v.journal.count(key));
            let broke = v.budget_total is Some && spent >= v.budget_total->0;
            let plan = engine::framed_plan(v, c, spent, framing).1;
            &&& plan is Replay <==> known is Some
            &&& plan is Replay ==> plan->result == known->0
            &&& plan is Refuse <==> known is None && broke
            &&& plan is Start <==> known is None && !broke
            &&& plan is Start ==> plan->key == key && plan->occ == v.journal.count(key)
                && plan->prompt == sent
        }),
{
}

/// Planning a call counts it under its own key, once, and does nothing else: no
/// other key's count, no known result, no step and no budget changes.
pub proof fn law_a_call_is_counted_once(
    v: EngineView,
    c: CallView,
    spent: u64,
    framing: Option<Seq<char>>,
    other: Seq<char>,
)
    requires
        ({
            let key = engine::call_key(c, engine::framed(framing, c.prompt));
            v.journal.count(key) < u32::MAX
        }),
    ensures
        ({
            let key = engine::call_key(c, engine::framed(framing, c.prompt));
            let w = engine::framed_plan(v, c, spent, framing).0;
            &&& w.journal.count(key) == v.journal.count(key) + 1
            &&& other != key ==> w.journal.count(other) == v.journal.count(other)
            &&& w.journal.cache == v.journal.cache
            &&& w.budget_total == v.budget_total
            &&& w.steps == v.steps
            &&& v.calls < u64::MAX ==> w.calls == v.calls + 1
        }),
{
}

/// A call whose type cannot be looked up fails with that reason and counts as no
/// call; a type that can be is used, and a call without one is sent as it is.
pub proof fn law_type_is_looked_up_first(
    v: EngineView,
    c: CallView,
    spent: u64,
    e: Seq<char>,
    f: Seq<char>,
)
    requires
        !(c.isolate && c.cwd is Some),
    ensures
        engine::agent_plan(v, c, spent, Some(Err(e))) == (v, PlanView::Refuse(e)),
        engine::agent_plan(v, c, spent, Some(Ok(f))).1 is Start ==> text::starts_with(
            engine::agent_plan(v, c, spent, Some(Ok(f))).1->prompt,
            f,
        ) && text::ends_with(
            engine::agent_plan(v, c, spent, Some(Ok(f))).1->prompt,
            c.prompt,
        ),
        engine::agent_plan(v, c, spent, None).1 is Start ==> engine::agent_plan(
            v,
            c,
            spent,
            None,
        ).1->prompt == c.prompt,
{
    law_framing_comes_before_the_prompt(f, c.prompt);
}

/// A call counts under the key it is planned under, and can be planned while that
/// key's calls can be numbered.
pub proof fn law_countable_calls_are_the_numbered_ones(
    v: EngineView,
    c: CallView,
    spent: u64,
    framing: Option<Result<Seq<char>, Seq<char>>>,
)
    ensures
        engine::agent_plan(v, c, spent, framing).1 matches PlanView::Start { key, occ, .. } ==> (
        engine::countable(v, c, framing) <==> occ < u32::MAX),
        engine::counted_key(c, framing) is None ==> engine::agent_plan(v, c, spent, framing).0 == v
            && engine::agent_plan(v, c, spent, framing).1 is Refuse,
{
}

/// A replayed call looks like one that ran: it is announced with the prompt, told
/// to be a replay, given its result, and done, all under its own id and in that
/// order.
pub proof fn law_replay_is_announced(
    v: EngineView,
    c: CallView,
    spent: u64,
    framing: Option<Seq<char>>,
)
    requires
        engine::framed_plan(v, c, spent, framing).1 is Replay,
    ensures
        ({
            let plan = engine::framed_plan(v, c, spent, framing).1;
            let evs = plan->events;
            &&& evs.len() == 4
            &&& evs[0] matches EventView::AgentSpawned { id, step, label, prompt, group } && id
                == c.id && step == c.step && label == c.label && group == c.group && prompt
                == engine::framed(framing, c.prompt)
            &&& evs[1] matches EventView::Agent { id, update } && id == c.id && update is Note
            &&& evs[2] matches EventView::Agent { id, update } && id == c.id && update
                == UpdateView::Final(plan->result)
            &&& evs[3] matches EventView::Agent { id, update } && id == c.id && update
                == UpdateView::Status(AgentStatus::Done)
        }),
{
}

/// An announcement names the agent, its step, its label and its group, and gives
/// the prompt that is sent.
pub proof fn law_announcement_names_the_agent(c: CallView, sent: Seq<char>)
    ensures
        engine::spawned(c, sent) matches EventView::AgentSpawned { id, step, label, prompt, group }
            && id == c.id && step == c.step && label == c.label && group == c.group && prompt
            == sent,
{
}

/// Entering a step declares it under its number with its title, then runs it;
/// before that, the step just left is done.
pub proof fn law_entering_a_step_declares_it(step: usize, title: Seq<char>)
    ensures
        ({
            let evs = engine::phase_events(step, title);
            let n = evs.len();
            &&& n == if step == 0 {
                2nat
            } else {
                3
            }
            &&& evs[n - 2] matches EventView::StepDeclared { step: s, title: t } && s == step && t
                == title
            &&& evs[n - 1] matches EventView::StepStatus { step: s, status } && s == step && status
                == StepStatus::Running
            &&& step > 0 ==> (evs[0] matches EventView::StepStatus { step: s, status } && s == step
                - 1 && status == StepStatus::Done)
        }),
{
}

/// The run's end gives the last step the run's own outcome.
pub proof fn law_end_closes_the_last_step(step: usize)
    ensures
        engine::closing_event(step, true) matches EventView::StepStatus { step: s, status } && s
            == step && status == StepStatus::Done,
        engine::closing_event(step, false) matches EventView::StepStatus { step: s, status } && s
            == step && status == StepStatus::Failed,
{
}

/// A journal that cannot be read is named, with the reason, under no agent's id.
pub proof fn law_unreadable_journal_is_named(path: Seq<char>, error: Seq<char>)
    ensures
        engine::unreadable_note(path, error) matches EventView::Agent { id, update } && id == 0 && (
        update matches UpdateView::Note(n) && text::contains_text(n, path) && text::contains_text(
            n,
            error,
        )),
{
    let a = "journal "@;
    let b = " unreadable ("@;
    let z = "); starting fresh"@;
    let n = a + path + b + error + z;
    text::laws::law_part_is_contained(a, path, b + error + z);
    assert(n =~= a + path + (b + error + z));
    text::laws::law_part_is_contained(a + path + b, error, z);
}

// ── From a call to the command line ──

/// Every option of a call reaches the command line of its agent, under its own
/// flag and with its own value, and no option reaches it that the call does not
/// have. The working directory is the call's own where it is not isolated.
pub proof fn law_options_reach_the_command_line(
    c: CallView,
    prompt: Seq<char>,
    schema_path: Option<Seq<char>>,
    workflow_dir: Seq<char>,
    temp_dir: Seq<char>,
    value: Seq<char>,
)
    ensures
        ({
            let spec = engine::launched(c, prompt, schema_path, workflow_dir, temp_dir);
            let args = codex::argv(spec);
            &&& codex::laws::passes(args, "-m"@, value) <==> c.model == Some(value)
            &&& codex::laws::passes(args, "-s"@, value) <==> c.sandbox == Some(value)
            &&& codex::laws::passes(args, "-C"@, value) <==> c.cwd == Some(value)
            &&& codex::laws::passes(args, "--output-schema"@, value) <==> schema_path == Some(value)
            &&& args.last() == prompt
            &&& args.len() == 4 + 2 * codex::laws::settings(c.model, c.sandbox) + 2
                * codex::laws::settings(c.cwd, schema_path)
            &&& spec.timeout_ms == c.timeout_ms
            &&& spec.id == c.id
            &&& spec.step == c.step
            &&& spec.label == c.label
        }),
{
    codex::laws::law_settings_reach_the_command_line(
        engine::launched(c, prompt, schema_path, workflow_dir, temp_dir),
        value,
    );
}

/// An agent gets a worktree exactly when its call asks for isolation: forked from
/// the workflow's directory, under the temporary one. Once it is there the agent's
/// working directory is the worktree and no other.
pub proof fn law_isolated_call_runs_in_a_worktree(
    c: CallView,
    prompt: Seq<char>,
    schema_path: Option<Seq<char>>,
    workflow_dir: Seq<char>,
    temp_dir: Seq<char>,
    budget: Option<u64>,
    max: u32,
    path: Seq<char>,
    value: Seq<char>,
)
    ensures
        ({
            let spec = engine::launched(c, prompt, schema_path, workflow_dir, temp_dir);
            let run = codex::worktree_turn(RunView::initial(spec, budget, max), Ok(path)).0;
            &&& spec.worktree is Some <==> c.isolate
            &&& c.isolate ==> spec.worktree->0.repo == workflow_dir && spec.worktree->0.base
                == temp_dir
            &&& codex::laws::passes(codex::argv(run.spec), "-C"@, value) <==> value == path
            &&& codex::laws::passes(codex::argv(run.spec), "-m"@, value) <==> c.model == Some(value)
            &&& codex::laws::passes(codex::argv(run.spec), "-s"@, value) <==> c.sandbox == Some(
                value,
            )
        }),
{
    let spec = engine::launched(c, prompt, schema_path, workflow_dir, temp_dir);
    let run = codex::worktree_turn(RunView::initial(spec, budget, max), Ok(path)).0;
    codex::laws::law_settings_reach_the_command_line(run.spec, value);
}

/// What looking up a type gave is kept as it is.
pub proof fn law_lookup_says_everything(t: String)
    ensures
        engine::framing_view(None) is None,
        engine::framing_view(Some(Ok(t))) == Some(Ok::<Seq<char>, Seq<char>>(t@)),
        engine::framing_view(Some(Err(t))) == Some(Err::<Seq<char>, Seq<char>>(t@)),
{
}

} // verus!
