//! What the runner does with one agent, told over what goes in and what comes out.

use vstd::prelude::*;

use crate::codex;
use crate::codex::{
    Action, ActionView, AgentRun, AgentSpec, Attempt, AttemptView, Ended, RunView, SpecView, Turn,
    Usable, UsableView,
};
use crate::event;
use crate::event::{AgentStatus, CodexEvent, UpdateView};
use crate::text;

verus! {

// ── The command line ──

/// The command line passes the option `name` with this value: after the three
/// leading words come pairs of a name and a value, and this is one of them.
pub open spec fn passes(args: Seq<Seq<char>>, name: Seq<char>, value: Seq<char>) -> bool {
    exists|i: int|
        3 <= i < args.len() - 2 && (i - 3) % 2 == 0 && #[trigger] args[i] == name && args[i + 1]
            == value
}

/// The number of settings that are there.
pub open spec fn settings(a: Option<Seq<char>>, b: Option<Seq<char>>) -> int {
    (if a is Some {
        1int
    } else {
        0
    }) + (if b is Some {
        1int
    } else {
        0
    })
}

/// The names of the options are told apart.
pub proof fn lemma_names_differ()
    ensures
        "-m"@ != "-s"@,
        "-m"@ != "-C"@,
        "-m"@ != "--output-schema"@,
        "-s"@ != "-C"@,
        "-s"@ != "--output-schema"@,
        "-C"@ != "--output-schema"@,
{
    reveal_strlit("-m");
    reveal_strlit("-s");
    reveal_strlit("-C");
    reveal_strlit("--output-schema");
    assert("-m"@[1] != "-s"@[1]);
    assert("-m"@[1] != "-C"@[1]);
    assert("-s"@[1] != "-C"@[1]);
}

/// Each setting of an agent reaches its command line under its own name and with
/// its own value, and nothing reaches it that was not set; the prompt stands last
/// and the length leaves room for nothing else.
pub proof fn law_settings_reach_the_command_line(s: SpecView, value: Seq<char>)
    ensures
        passes(codex::argv(s), "-m"@, value) <==> s.model == Some(value),
        passes(codex::argv(s), "-s"@, value) <==> s.sandbox == Some(value),
        passes(codex::argv(s), "-C"@, value) <==> s.cwd == Some(value),
        passes(codex::argv(s), "--output-schema"@, value) <==> s.output_schema == Some(value),
        codex::argv(s).len() == 4 + 2 * settings(s.model, s.sandbox) + 2 * settings(
            s.cwd,
            s.output_schema,
        ),
        codex::argv(s).last() == s.prompt,
        codex::argv(s)[0] == "exec"@,
        codex::argv(s)[1] == "--json"@,
        codex::argv(s)[2] == "--skip-git-repo-check"@,
{
    lemma_names_differ();
    let a = codex::argv(s);
    let m = 3int;
    let p = m + codex::flag("-m"@, s.model).len();
    let c = p + codex::flag("-s"@, s.sandbox).len();
    let o = c + codex::flag("-C"@, s.cwd).len();
    if s.model is Some {
        assert(a[m] == "-m"@ && a[m + 1] == s.model->0);
    }
    if s.sandbox is Some {
        assert(a[p] == "-s"@ && a[p + 1] == s.sandbox->0);
    }
    if s.cwd is Some {
        assert(a[c] == "-C"@ && a[c + 1] == s.cwd->0);
    }
    if s.output_schema is Some {
        assert(a[o] == "--output-schema"@ && a[o + 1] == s.output_schema->0);
    }
    assert forall|i: int| 3 <= i < a.len() - 2 && (i - 3) % 2 == 0 implies {
        ||| s.model is Some && i == m && #[trigger] a[i] == "-m"@
        ||| s.sandbox is Some && i == p && a[i] == "-s"@
        ||| s.cwd is Some && i == c && a[i] == "-C"@
        ||| s.output_schema is Some && i == o && a[i] == "--output-schema"@
    } by {}
}

/// An agent's record says everything it was made with.
pub proof fn law_spec_says_everything(s: AgentSpec)
    ensures
        s@.id == s.id,
        s@.step == s.step,
        s@.label == s.label@,
        s@.prompt == s.prompt@,
        s@.cwd == text::opt_text(s.cwd),
        s@.model == text::opt_text(s.model),
        s@.sandbox == text::opt_text(s.sandbox),
        s@.output_schema == text::opt_text(s.output_schema),
        s@.timeout_ms == s.timeout_ms,
        s@.worktree is Some <==> s.worktree is Some,
        s.worktree is Some ==> s@.worktree->0.repo == s.worktree->0.repo@ && s@.worktree->0.base
            == s.worktree->0.base@,
{
}

/// A run and its turns say everything they are made of.
pub proof fn law_run_says_everything(r: AgentRun, t: Turn)
    ensures
        r@.spec == r.spec@,
        r@.budget_total == r.budget_total,
        r@.max_attempts == r.max_attempts,
        r@.attempt == r.attempt,
        r@.prompt == r.prompt@,
        r@.last_err == r.last_err@,
        t@.updates.len() == t.updates@.len(),
        forall|i: int|
            0 <= i < t.updates@.len() ==> #[trigger] t@.updates[i] == t.updates@[i]@,
        t.action matches Action::Finish(Ok(x)) ==> t@.action == ActionView::Finish(
            Ok::<Seq<char>, Seq<char>>(x@),
        ),
        t.action matches Action::Finish(Err(x)) ==> t@.action == ActionView::Finish(
            Err::<Seq<char>, Seq<char>>(x@),
        ),
        t.action matches Action::Wait(ms) ==> t@.action == ActionView::Wait(ms),
        t.action is RunOnce <==> t@.action is RunOnce,
        t.action matches Action::AddWorktree(w) ==> t@.action == ActionView::AddWorktree(w@),
{
}

/// An attempt says what it came to.
pub proof fn law_attempt_says_everything(a: Attempt)
    ensures
        a matches Attempt::Good(t) ==> a@ == AttemptView::Good(t@),
        a is Bad ==> a@ is Bad && a@->error == a->error@ && a@->steer == a->steer,
{
}

// ── Limits ──

/// A readable number of attempts, one or more, is taken as it is; anything else
/// gives the default.
pub proof fn law_attempts_follow_the_setting(n: nat, s: Seq<char>)
    ensures
        1 <= n <= u32::MAX ==> codex::attempts_setting(Some(text::decimal(n))) == n,
        text::unsigned_value(s, u32::MAX as nat) is None ==> codex::attempts_setting(Some(s)) == 3,
        codex::attempts_setting(Some(text::decimal(0))) == 3,
        codex::attempts_setting(None) == 3,
        codex::attempts_setting(Some(s)) >= 1,
{
    text::laws::law_decimal_is_read_back(n, u32::MAX as nat);
    text::laws::law_decimal_is_read_back(0, u32::MAX as nat);
}

/// The first wait is 800 milliseconds, and each further one is twice the one
/// before until that would pass 8000.
pub proof fn law_waits_double(attempt: nat)
    requires
        attempt >= 1,
    ensures
        codex::backoff(1) == 800,
        2 * codex::backoff(attempt) <= 8000 ==> codex::backoff(attempt + 1) == 2 * codex::backoff(
            attempt,
        ),
        2 * codex::backoff(attempt) > 8000 ==> codex::backoff(attempt + 1) == 8000,
{
}

/// The budget is used up exactly when as much was spent as there was.
pub proof fn law_budget_is_used_up_at_its_total(total: u64, spent: u64)
    ensures
        codex::exceeded(Some(total), spent) <==> total <= spent,
        !codex::exceeded(None, spent),
{
}

/// Only output tokens are charged, in full; no other update costs anything.
pub proof fn law_only_output_is_charged(u: UpdateView, input: u64, output: u64)
    ensures
        codex::spent(seq![UpdateView::Tokens { input, output }]) == output,
        u !is Tokens ==> codex::spent(seq![u]) == 0,
        codex::spent(Seq::<UpdateView>::empty()) == 0,
{
    reveal_with_fuel(codex::spent, 2);
    assert(seq![UpdateView::Tokens { input, output }].drop_last().len() == 0);
    assert(seq![u].drop_last().len() == 0);
}

/// A refusal names both what was spent and what there was.
pub proof fn law_refusal_names_both_numbers(total: u64, spent: u64)
    ensures
        text::contains_text(codex::refusal(Some(total), spent), text::decimal(spent as nat)),
        text::ends_with(codex::refusal(Some(total), spent), text::decimal(total as nat)),
{
    let r = codex::refusal(Some(total), spent);
    let d = text::decimal(spent as nat);
    let mid = " output tokens spent >= total "@;
    let t = text::decimal(total as nat);
    text::laws::law_part_is_contained("budget exceeded: "@, d, mid + t);
    assert(r =~= "budget exceeded: "@ + d + (mid + t));
    text::laws::law_part_is_contained("budget exceeded: "@ + d + mid, t, Seq::<char>::empty());
}

// ── Answers ──

/// Blank text is empty whatever else holds; other text is usable unless a schema
/// asks for JSON and it is none, and then the parser's words are kept.
pub proof fn law_text_is_judged(
    t: Seq<char>,
    has_schema: bool,
    parsed: Result<Seq<char>, Seq<char>>,
)
    ensures
        codex::classified(t, has_schema, parsed) is Empty <==> forall|i: int|
            0 <= i < t.len() ==> text::white_space(#[trigger] t[i]),
        codex::classified(t, has_schema, parsed) matches UsableView::BadJson(e) ==> has_schema
            && parsed == Err::<Seq<char>, Seq<char>>(e),
        codex::classified(t, has_schema, parsed) is Yes ==> has_schema ==> parsed is Ok,
        codex::classified(t, false, parsed) !is BadJson,
{
    text::laws::law_trim_cuts_exactly_the_white_space(t);
}

/// A usable answer is handed on unchanged. An empty one is tried again without a
/// word to the agent; one that is no JSON is, with the parser's words.
pub proof fn law_answers_are_weighed(t: Seq<char>, e: Seq<char>)
    ensures
        codex::weighed(t, UsableView::Yes) == AttemptView::Good(t),
        codex::weighed(t, UsableView::Empty) is Bad,
        !codex::weighed(t, UsableView::Empty)->steer,
        codex::weighed(t, UsableView::BadJson(e)) is Bad,
        codex::weighed(t, UsableView::BadJson(e))->steer,
        text::ends_with(codex::weighed(t, UsableView::BadJson(e))->error, e),
{
    text::laws::law_part_is_contained(
        "output was not valid JSON for the requested schema: "@,
        e,
        Seq::<char>::empty(),
    );
}

/// A steered prompt still asks what the agent was asked, first, and names the
/// reason of the rejection.
pub proof fn law_steering_keeps_the_prompt(base: Seq<char>, reason: Seq<char>)
    ensures
        text::starts_with(codex::augmented(base, reason), base),
        text::contains_text(codex::augmented(base, reason).skip(base.len() as int), reason),
{
    let lead = "\n\nYour previous output was REJECTED: "@;
    let tail =
        ". Output ONLY a single valid JSON value matching the requested schema — no prose, no explanation, no markdown code fences."@;
    let r = codex::augmented(base, reason);
    assert(r =~= base + (lead + reason + tail));
    text::laws::law_part_is_contained(Seq::<char>::empty(), base, lead + reason + tail);
    assert(r.skip(base.len() as int) =~= lead + reason + tail);
    text::laws::law_part_is_contained(lead, reason, tail);
}

/// Two reasons give two prompts.
pub proof fn law_steering_tells_reasons_apart(base: Seq<char>, a: Seq<char>, b: Seq<char>)
    requires
        codex::augmented(base, a) == codex::augmented(base, b),
    ensures
        a == b,
{
    let lead = "\n\nYour previous output was REJECTED: "@;
    let tail =
        ". Output ONLY a single valid JSON value matching the requested schema — no prose, no explanation, no markdown code fences."@;
    let n = (base.len() + lead.len()) as int;
    let x = base + lead + a + tail;
    let y = base + lead + b + tail;
    assert(x == y);
    assert(x.len() == n + a.len() + tail.len());
    assert(y.len() == n + b.len() + tail.len());
    assert(a =~= x.subrange(n, n + a.len()));
    assert(b =~= y.subrange(n, n + b.len()));
}

// ── A run ──

/// A run starts at its first attempt, with the agent's own prompt, and keeps what
/// it was given.
pub proof fn law_run_starts_afresh(spec: SpecView, budget: Option<u64>, max: u32)
    ensures
        RunView::initial(spec, budget, max).spec == spec,
        RunView::initial(spec, budget, max).budget_total == budget,
        RunView::initial(spec, budget, max).max_attempts == max,
        RunView::initial(spec, budget, max).attempt == 1,
        RunView::initial(spec, budget, max).prompt == spec.prompt,
        max >= 1 <==> RunView::initial(spec, budget, max).wf(),
{
}

/// With budget left, an agent that is not isolated runs at once and is shown
/// running; an isolated one first gets the worktree that it asked for, and nothing
/// is shown until then.
pub proof fn law_permitted_agent_starts(v: RunView, spent: u64)
    requires
        v.budget_total is None || spent < v.budget_total->0,
    ensures
        v.spec.worktree is None ==> codex::permit_turn(v, spent).action is RunOnce
            && codex::permit_turn(v, spent).updates.len() == 1 && codex::permit_turn(
            v,
            spent,
        ).updates[0] == UpdateView::Status(AgentStatus::Running),
        v.spec.worktree matches Some(w) ==> codex::permit_turn(v, spent).action
            == ActionView::AddWorktree(w) && codex::permit_turn(v, spent).updates.len() == 0,
{
}

/// With no budget left, the agent fails at once and is told why: it is never run
/// and never isolated.
pub proof fn law_refused_agent_fails_with_the_reason(v: RunView, spent: u64)
    requires
        v.budget_total is Some,
        spent >= v.budget_total->0,
    ensures
        ({
            let t = codex::permit_turn(v, spent);
            &&& t.action matches ActionView::Finish(Err(e)) && text::contains_text(
                e,
                text::decimal(spent as nat),
            )
            &&& t.updates.len() == 2
            &&& t.updates[0] matches UpdateView::Note(n) && text::ends_with(
                n,
                text::decimal(v.budget_total->0 as nat),
            )
            &&& t.updates[1] == UpdateView::Status(AgentStatus::Failed)
        }),
{
    let r = codex::refusal(v.budget_total, spent);
    law_refusal_names_both_numbers(v.budget_total->0, spent);
    let t = text::decimal(v.budget_total->0 as nat);
    text::laws::law_ends_are_ends(r, t);
    let n = "refused at spawn: "@ + r;
    assert(n =~= "refused at spawn: "@ + r.take(r.len() - t.len()) + t);
    text::laws::law_part_is_contained(
        "refused at spawn: "@ + r.take(r.len() - t.len()),
        t,
        Seq::<char>::empty(),
    );
}

/// Once its worktree is made, an agent runs there and is otherwise what it was;
/// if it could not be made, the agent fails with the reason, in its log and in its
/// result.
pub proof fn law_isolated_agent_runs_in_its_worktree(v: RunView, path: Seq<char>, e: Seq<char>)
    ensures
        ({
            let (w, t) = codex::worktree_turn(v, Ok(path));
            &&& w.spec.cwd == Some(path)
            &&& w.spec.id == v.spec.id
            &&& w.spec.step == v.spec.step
            &&& w.spec.label == v.spec.label
            &&& w.spec.prompt == v.spec.prompt
            &&& w.spec.model == v.spec.model
            &&& w.spec.sandbox == v.spec.sandbox
            &&& w.spec.output_schema == v.spec.output_schema
            &&& w.spec.timeout_ms == v.spec.timeout_ms
            &&& w.prompt == v.prompt
            &&& w.attempt == v.attempt
            &&& w.max_attempts == v.max_attempts
            &&& w.budget_total == v.budget_total
            &&& t.action is RunOnce
            &&& t.updates.len() == 1
            &&& t.updates[0] == UpdateView::Status(AgentStatus::Running)
        }),
        ({
            let (w, t) = codex::worktree_turn(v, Err(e));
            &&& w == v
            &&& t.action == ActionView::Finish(Err::<Seq<char>, Seq<char>>(e))
            &&& t.updates.len() == 2
            &&& t.updates[0] == UpdateView::Note(e)
            &&& t.updates[1] == UpdateView::Status(AgentStatus::Failed)
        }),
{
}

/// After a wait the agent runs again, and is shown running.
pub proof fn law_waited_agent_runs()
    ensures
        codex::running().action is RunOnce,
        codex::running().updates.len() == 1,
        codex::running().updates[0] == UpdateView::Status(AgentStatus::Running),
{
}

/// A good answer ends the run with that answer, which is published as it is before
/// the agent is shown done; nothing else is published.
pub proof fn law_good_answer_is_published(v: RunView, t: Seq<char>)
    ensures
        ({
            let (w, turn) = codex::attempt_turn(v, AttemptView::Good(t));
            &&& w == v
            &&& turn.action == ActionView::Finish(Ok::<Seq<char>, Seq<char>>(t))
            &&& turn.updates.len() == 2
            &&& turn.updates[0] == UpdateView::Final(t)
            &&& turn.updates[1] == UpdateView::Status(AgentStatus::Done)
        }),
{
}

/// A failed attempt that is not the last one is followed by the next after a wait:
/// the attempt is counted, one note gives the reason and the wait, the agent and
/// its limits stay, and the prompt changes only where the reason is to be fed back.
pub proof fn law_failed_attempt_is_retried(v: RunView, a: AttemptView)
    requires
        v.attempt < v.max_attempts,
        a is Bad,
    ensures
        ({
            let (w, turn) = codex::attempt_turn(v, a);
            &&& w.attempt == v.attempt + 1
            &&& w.spec == v.spec
            &&& w.max_attempts == v.max_attempts
            &&& w.budget_total == v.budget_total
            &&& w.last_err == a->error
            &&& !a->steer ==> w.prompt == v.prompt
            &&& a->steer ==> text::starts_with(w.prompt, v.spec.prompt) && text::contains_text(
                w.prompt.skip(v.spec.prompt.len() as int),
                a->error,
            )
            &&& turn.action matches ActionView::Wait(ms) && ms == codex::backoff(v.attempt as nat)
            &&& turn.updates.len() == 1
            &&& turn.updates[0] matches UpdateView::Note(n) && text::contains_text(n, a->error)
        }),
{
    law_steering_keeps_the_prompt(v.spec.prompt, a->error);
    codex::law_backoff_grows_to_a_cap(v.attempt as nat);
    let e = a->error;
    let n = codex::retry_note(v.attempt as nat, v.max_attempts as nat, e);
    let lead = "attempt "@ + text::decimal(v.attempt as nat) + "/"@ + text::decimal(
        v.max_attempts as nat,
    ) + " failed: "@;
    let tail = " — retrying in "@ + text::decimal(codex::backoff(v.attempt as nat)) + "ms"@;
    assert(n =~= lead + e + tail);
    text::laws::law_part_is_contained(lead, e, tail);
}

/// When the last attempt fails, the run fails with that reason, which the note
/// before the failed status gives too.
pub proof fn law_last_failure_ends_the_run(v: RunView, a: AttemptView)
    requires
        v.attempt >= v.max_attempts,
        a is Bad,
    ensures
        ({
            let (w, turn) = codex::attempt_turn(v, a);
            &&& w.attempt == v.attempt
            &&& w.spec == v.spec
            &&& turn.action matches ActionView::Finish(Err(e)) && text::ends_with(e, a->error)
            &&& turn.updates.len() == 2
            &&& turn.updates[0] matches UpdateView::Note(n) && text::ends_with(n, a->error)
            &&& turn.updates[1] == UpdateView::Status(AgentStatus::Failed)
        }),
{
    let d = text::decimal(v.max_attempts as nat) + " attempts: "@;
    let e = Seq::<char>::empty();
    assert("failed after "@ + text::decimal(v.max_attempts as nat) + " attempts: "@
        =~= "failed after "@ + d);
    text::laws::law_part_is_contained("failed after "@ + d, a->error, e);
    assert("codex agent failed after "@ + text::decimal(v.max_attempts as nat) + " attempts: "@
        =~= "codex agent failed after "@ + d);
    text::laws::law_part_is_contained("codex agent failed after "@ + d, a->error, e);
}

// ── One child process ──

/// The final text is the last message there is, however long or short; without a
/// message it stays what it was.
pub proof fn law_last_message_is_the_answer(
    ups: Seq<UpdateView>,
    i: int,
    t: Seq<char>,
    before: Seq<char>,
)
    ensures
        0 <= i < ups.len() && ups[i] == UpdateView::Message(t) && (forall|j: int|
            i < j < ups.len() ==> #[trigger] ups[j] !is Message) ==> codex::last_message(ups, before)
            == t,
        (forall|j: int| 0 <= j < ups.len() ==> #[trigger] ups[j] !is Message)
            ==> codex::last_message(ups, before) == before,
    decreases ups.len(),
{
    if ups.len() > 0 {
        let front = ups.drop_last();
        law_last_message_is_the_answer(front, i, t, before);
        assert(forall|j: int| 0 <= j < front.len() ==> #[trigger] front[j] == ups[j]);
        assert(ups.last() == ups[ups.len() - 1]);
    }
}

/// A blank line amounts to nothing. One that cannot be read is told whole, with
/// the reason, and loses no answer. Any other counts as the event it holds.
pub proof fn law_lines_are_taken_in(line: Seq<char>, e: String, ev: CodexEvent, before: Seq<char>)
    ensures
        codex::line_updates(line, None).len() == 0,
        ({
            let ups = codex::line_updates(line, Some(Err(e)));
            &&& ups.len() == 1
            &&& ups[0] matches UpdateView::Note(n) && text::contains_text(n, e@) && text::ends_with(
                n,
                line,
            )
            &&& codex::last_message(ups, before) == before
        }),
        codex::line_updates(line, Some(Ok(ev))) == event::event_updates(ev),
{
    let ups = codex::line_updates(line, Some(Err::<CodexEvent, String>(e)));
    let n = "unparsed line ("@ + e@ + "): "@ + line;
    assert(ups[0] == UpdateView::Note(n));
    text::laws::law_part_is_contained("unparsed line ("@, e@, "): "@ + line);
    assert(n =~= "unparsed line ("@ + e@ + ("): "@ + line));
    text::laws::law_part_is_contained("unparsed line ("@ + e@ + "): "@, line, Seq::<char>::empty());
    law_last_message_is_the_answer(ups, 0, before, before);
}

/// A process comes to an answer exactly when it exited successfully, and then to
/// the final text; a failure names what went wrong.
pub proof fn law_only_a_clean_exit_answers(e: Ended, final_text: Seq<char>)
    ensures
        codex::process_outcome(e, final_text) is Ok <==> e is Exited && e->success,
        e is Exited && e->success ==> codex::process_outcome(e, final_text)->Ok_0 == final_text,
        e is Exited && !e->success ==> text::ends_with(
            codex::process_outcome(e, final_text)->Err_0,
            e->status@,
        ),
        e is NotSpawned ==> text::contains_text(
            codex::process_outcome(e, final_text)->Err_0,
            e->bin@,
        ),
        e is TimedOut ==> text::contains_text(
            codex::process_outcome(e, final_text)->Err_0,
            text::decimal(e->ms as nat),
        ),
        e is Lost ==> codex::process_outcome(e, final_text)->Err_0 == e->error@,
{
    match e {
        Ended::Exited { success, status } => {
            text::laws::law_part_is_contained(
                "codex exited with status "@,
                status@,
                Seq::<char>::empty(),
            );
        },
        Ended::NotSpawned { bin } => {
            text::laws::law_part_is_contained("failed to spawn `"@, bin@, "`"@);
        },
        Ended::TimedOut { ms } => {
            text::laws::law_part_is_contained(
                "codex timed out after "@,
                text::decimal(ms as nat),
                "ms"@,
            );
        },
        Ended::Lost { error } => {},
    }
}

/// A verdict on a text says what it was made with.
pub proof fn law_verdict_says_everything(u: Usable)
    ensures
        u is Yes <==> u@ is Yes,
        u is Empty <==> u@ is Empty,
        u matches Usable::BadJson(e) ==> u@ == UsableView::BadJson(e@),
{
}

} // verus!
