//! The sub-agent runner's decisions: the command line of one agent, what counts
//! as a usable answer, when to retry and how long to wait, the token budget, and
//! what a finished child process amounts to.
//!
//! Nothing here starts a process. [`AgentRun`] is told what happened and answers
//! with the updates to publish and the next thing to do.

use vstd::prelude::*;

use crate::event;
use crate::event::{AgentId, AgentStatus, AgentUpdate, CodexEvent, StepId, UpdateView};
use crate::json;
use crate::text;
use crate::worktree::{WorktreeSpec, WorktreeView};

pub mod laws;

verus! {

// ── One agent invocation ──

/// Everything one agent invocation needs.
#[derive(Debug)]
pub struct AgentSpec {
    pub id: AgentId,
    pub step: StepId,
    pub label: String,
    pub prompt: String,
    /// Working directory (the agent's worktree, if isolated).
    pub cwd: Option<String>,
    /// Model override; `None` leaves the agent's own default.
    pub model: Option<String>,
    /// Sandbox policy; `None` leaves the agent's own default.
    pub sandbox: Option<String>,
    /// Path to a JSON Schema file for structured output.
    pub output_schema: Option<String>,
    /// Wall-clock timeout in milliseconds.
    pub timeout_ms: Option<u64>,
    /// Isolation request: the worktree is made once the agent may start.
    pub worktree: Option<WorktreeSpec>,
}

impl Clone for AgentSpec {
    fn clone(&self) -> (r: Self)
        ensures
            r@ == self@,
    {
        AgentSpec {
            id: self.id,
            step: self.step,
            label: self.label.clone(),
            prompt: self.prompt.clone(),
            cwd: text::copied_opt(&self.cwd),
            model: text::copied_opt(&self.model),
            sandbox: text::copied_opt(&self.sandbox),
            output_schema: text::copied_opt(&self.output_schema),
            timeout_ms: self.timeout_ms,
            worktree: match &self.worktree {
                Some(w) => Some(w.clone()),
                None => None,
            },
        }
    }
}

/// What an [`AgentSpec`] says.
#[verifier::ext_equal]
pub struct SpecView {
    pub id: AgentId,
    pub step: StepId,
    pub label: Seq<char>,
    pub prompt: Seq<char>,
    pub cwd: Option<Seq<char>>,
    pub model: Option<Seq<char>>,
    pub sandbox: Option<Seq<char>>,
    pub output_schema: Option<Seq<char>>,
    pub timeout_ms: Option<u64>,
    pub worktree: Option<WorktreeView>,
}

impl View for AgentSpec {
    type V = SpecView;

    open spec fn view(&self) -> SpecView {
        SpecView {
            id: self.id,
            step: self.step,
            label: self.label@,
            prompt: self.prompt@,
            cwd: text::opt_text(self.cwd),
            model: text::opt_text(self.model),
            sandbox: text::opt_text(self.sandbox),
            output_schema: text::opt_text(self.output_schema),
            timeout_ms: self.timeout_ms,
            worktree: match self.worktree {
                Some(w) => Some(w@),
                None => None,
            },
        }
    }
}

/// A flag with its value, or nothing when the value is unset.
pub open spec fn flag(name: Seq<char>, value: Option<Seq<char>>) -> Seq<Seq<char>> {
    match value {
        Some(v) => seq![name, v],
        None => Seq::empty(),
    }
}

/// The command line of one agent: fixed head, the flags that are set, and the
/// prompt as the trailing positional.
pub open spec fn argv(s: SpecView) -> Seq<Seq<char>> {
    seq!["exec"@, "--json"@, "--skip-git-repo-check"@] + flag("-m"@, s.model) + flag(
        "-s"@,
        s.sandbox,
    ) + flag("-C"@, s.cwd) + flag("--output-schema"@, s.output_schema) + seq![s.prompt]
}

fn push_flag(v: &mut Vec<String>, name: &str, value: &Option<String>)
    ensures
        text::texts(final(v)@) == text::texts(old(v)@) + flag(name@, text::opt_text(*value)),
{
    match value {
        Some(s) => {
            text::push_copy(v, name);
            text::push_copy(v, s.as_str());
        },
        None => {},
    }
    assert(text::texts(v@) =~= text::texts(old(v)@) + flag(name@, text::opt_text(*value)));
}

/// The command line for `spec`, with `prompt` in place of its own.
fn args_with_prompt(spec: &AgentSpec, prompt: &str) -> (r: Vec<String>)
    ensures
        text::texts(r@) == argv((SpecView { prompt: prompt@, ..spec@ })),
{
    let mut a: Vec<String> = Vec::new();
    text::push_copy(&mut a, "exec");
    text::push_copy(&mut a, "--json");
    text::push_copy(&mut a, "--skip-git-repo-check");
    assert(text::texts(a@) =~= seq!["exec"@, "--json"@, "--skip-git-repo-check"@]);
    push_flag(&mut a, "-m", &spec.model);
    push_flag(&mut a, "-s", &spec.sandbox);
    push_flag(&mut a, "-C", &spec.cwd);
    push_flag(&mut a, "--output-schema", &spec.output_schema);
    let ghost before = text::texts(a@);
    text::push_copy(&mut a, prompt);
    assert(before.push(prompt@) =~= before + seq![prompt@]);
    a
}

/// Build the command line for one agent.
pub fn build_args(spec: &AgentSpec) -> (r: Vec<String>)
    ensures
        text::texts(r@) == argv(spec@),
{
    args_with_prompt(spec, spec.prompt.as_str())
}

// ── Usable answers ──

/// Classification of one attempt's final text.
#[derive(Debug, PartialEq, Eq)]
pub enum Usable {
    /// Usable as it is.
    Yes,
    /// Clean exit but no output: retry.
    Empty,
    /// A schema was requested but the text is not valid JSON: retry, and feed the
    /// parse error back into the next attempt's prompt.
    BadJson(String),
}

/// What a [`Usable`] says.
pub enum UsableView {
    Yes,
    Empty,
    BadJson(Seq<char>),
}

impl View for Usable {
    type V = UsableView;

    open spec fn view(&self) -> UsableView {
        match *self {
            Usable::Yes => UsableView::Yes,
            Usable::Empty => UsableView::Empty,
            Usable::BadJson(e) => UsableView::BadJson(e@),
        }
    }
}

/// Blank text is never usable; under a schema neither is text that is no JSON
/// document. `parsed` is what reading the text as JSON gives.
pub open spec fn classified(
    t: Seq<char>,
    has_schema: bool,
    parsed: Result<Seq<char>, Seq<char>>,
) -> UsableView {
    if text::trimmed(t).len() == 0 {
        UsableView::Empty
    } else if has_schema {
        match parsed {
            Ok(_) => UsableView::Yes,
            Err(e) => UsableView::BadJson(e),
        }
    } else {
        UsableView::Yes
    }
}

/// Decide whether an attempt's final text is usable, given what reading it as
/// JSON gave.
pub fn classify_parsed(t: &str, has_schema: bool, parsed: Result<(), String>) -> (r: Usable)
    ensures
        r@ == classified(
            t@,
            has_schema,
            match parsed {
                Ok(_) => Ok(t@),
                Err(e) => Err(e@),
            },
        ),
{
    if text::trim(t).is_empty() {
        return Usable::Empty;
    }
    if has_schema {
        match parsed {
            Ok(_) => {},
            Err(e) => {
                return Usable::BadJson(e);
            },
        }
    }
    Usable::Yes
}

/// Decide whether an attempt's final text is usable or a retryable failure.
pub fn classify_text(t: &str, has_schema: bool) -> (r: Usable)
    ensures
        r@ == classified(t@, has_schema, json::json_document(t@)),
{
    if !has_schema {
        return classify_parsed(t, false, Ok(()));
    }
    match json::read_json(t) {
        Ok(_) => classify_parsed(t, true, Ok(())),
        Err(e) => classify_parsed(t, true, Err(e)),
    }
}

/// A prompt with a note on why the last output was rejected.
pub open spec fn augmented(base: Seq<char>, reason: Seq<char>) -> Seq<char> {
    base + "\n\nYour previous output was REJECTED: "@ + reason
        + ". Output ONLY a single valid JSON value matching the requested schema — no prose, no explanation, no markdown code fences."@
}

/// Append a steering note so the next attempt knows why its last output was
/// rejected.
pub fn augment_prompt(base: &str, reason: &str) -> (r: String)
    ensures
        r@ == augmented(base@, reason@),
{
    let mut r = text::copied(base);
    r.push_str("\n\nYour previous output was REJECTED: ");
    r.push_str(reason);
    r.push_str(
        ". Output ONLY a single valid JSON value matching the requested schema — no prose, no explanation, no markdown code fences.",
    );
    r
}

// ── Limits ──

/// The timeout in milliseconds: the agent's own wins over the global one, and
/// zero means none.
pub fn resolve_timeout(spec_ms: Option<u64>, env_ms: Option<u64>) -> (r: Option<u64>)
    ensures
        r == match (spec_ms, env_ms) {
            (Some(0), _) => None,
            (Some(n), _) => Some(n),
            (None, Some(0)) => None,
            (None, Some(n)) => Some(n),
            (None, None) => None::<u64>,
        },
{
    let ms = match spec_ms {
        Some(n) => Some(n),
        None => env_ms,
    };
    match ms {
        Some(n) => if n > 0 {
            Some(n)
        } else {
            None
        },
        None => None,
    }
}

/// The global timeout setting: a number of milliseconds, or nothing when it is
/// unset or unreadable.
pub fn env_timeout_ms(env: Option<&str>) -> (r: Option<u64>)
    ensures
        match env {
            Some(s) => match r {
                Some(n) => text::unsigned_value(s@, u64::MAX as nat) == Some(n as nat),
                None => text::unsigned_value(s@, u64::MAX as nat) is None,
            },
            None => r is None,
        },
{
    match env {
        Some(s) => text::parse_unsigned(s, u64::MAX),
        None => None,
    }
}

/// The attempts an agent gets when nothing is configured.
pub const DEFAULT_ATTEMPTS: u32 = 3;

/// The attempts the setting asks for: a readable number of at least one, else
/// the default.
pub open spec fn attempts_setting(env: Option<Seq<char>>) -> nat {
    match env {
        Some(s) => match text::unsigned_value(s, u32::MAX as nat) {
            Some(n) => if n >= 1 {
                n
            } else {
                DEFAULT_ATTEMPTS as nat
            },
            None => DEFAULT_ATTEMPTS as nat,
        },
        None => DEFAULT_ATTEMPTS as nat,
    }
}

/// How many attempts an agent gets.
pub fn resolve_max_attempts(env: Option<&str>) -> (r: u32)
    ensures
        r == attempts_setting(text::opt_str(env)),
        r >= 1,
{
    match env {
        Some(s) => match text::parse_unsigned(s, u32::MAX as u64) {
            Some(n) => if n >= 1 {
                n as u32
            } else {
                DEFAULT_ATTEMPTS
            },
            None => DEFAULT_ATTEMPTS,
        },
        None => DEFAULT_ATTEMPTS,
    }
}

/// The wait after failed attempt number `attempt`, in milliseconds: 800 after the
/// first, doubling, never more than 8000.
pub open spec fn backoff(attempt: nat) -> nat
    decreases attempt,
{
    if attempt <= 1 {
        800
    } else {
        let doubled = 2 * backoff((attempt - 1) as nat);
        if doubled <= 8000 {
            doubled
        } else {
            8000
        }
    }
}

proof fn lemma_backoff_capped(attempt: nat)
    requires
        attempt >= 5,
    ensures
        backoff(attempt) == 8000,
    decreases attempt,
{
    if attempt == 5 {
        reveal_with_fuel(backoff, 5);
    } else {
        lemma_backoff_capped((attempt - 1) as nat);
    }
}

/// The wait after failed attempt number `attempt`, in milliseconds.
pub fn backoff_ms(attempt: u32) -> (r: u64)
    requires
        attempt >= 1,
    ensures
        r == backoff(attempt as nat),
{
    let shift: u32 = if attempt - 1 <= 13 { attempt - 1 } else { 13 };
    let raw: u64 = 800u64 << shift;
    proof {
        reveal_with_fuel(backoff, 5);
        assert(800u64 << 0u32 == 800) by (bit_vector);
        assert(800u64 << 1u32 == 1600) by (bit_vector);
        assert(800u64 << 2u32 == 3200) by (bit_vector);
        assert(800u64 << 3u32 == 6400) by (bit_vector);
        assert(4 <= shift <= 13 ==> 800u64 << shift >= 8000) by (bit_vector);
        if attempt >= 5 {
            lemma_backoff_capped(attempt as nat);
        }
    }
    if raw <= 8000 {
        raw
    } else {
        8000
    }
}

// ── Budget ──

/// The output tokens one update adds to the budget.
pub open spec fn delta(u: UpdateView) -> u64 {
    match u {
        UpdateView::Tokens { output, .. } => output,
        _ => 0,
    }
}

/// The output tokens one update contributes to the budget counter.
pub fn budget_delta(update: &AgentUpdate) -> (r: u64)
    ensures
        r == delta(update@),
{
    match update {
        AgentUpdate::Tokens { output, .. } => *output,
        _ => 0,
    }
}

/// The output tokens a stream of updates adds to the budget.
pub open spec fn spent(ups: Seq<UpdateView>) -> nat
    decreases ups.len(),
{
    if ups.len() == 0 {
        0
    } else {
        spent(ups.drop_last()) + delta(ups.last()) as nat
    }
}

proof fn lemma_spent_prefix(ups: Seq<UpdateView>, k: int)
    requires
        0 <= k <= ups.len(),
    ensures
        spent(ups.take(k)) <= spent(ups),
    decreases ups.len() - k,
{
    if k == ups.len() {
        assert(ups.take(k) =~= ups);
    } else {
        lemma_spent_prefix(ups, k + 1);
        assert(ups.take(k + 1).drop_last() =~= ups.take(k));
    }
}

/// The output tokens some updates add to the budget counter together.
pub fn spent_by(updates: &Vec<AgentUpdate>) -> (r: u64)
    requires
        spent(event::updates_view(updates@)) <= u64::MAX,
    ensures
        r == spent(event::updates_view(updates@)),
{
    let ghost all = event::updates_view(updates@);
    let mut r: u64 = 0;
    let mut i: usize = 0;
    proof {
        assert(all.take(0) =~= Seq::empty());
    }
    while i < updates.len()
        invariant
            i <= updates@.len(),
            all == event::updates_view(updates@),
            spent(all) <= u64::MAX,
            r == spent(all.take(i as int)),
        decreases updates@.len() - i,
    {
        proof {
            lemma_spent_prefix(all, i as int + 1);
            assert(all.take(i as int + 1).drop_last() =~= all.take(i as int));
            assert(all.take(i as int + 1).last() == updates@[i as int]@);
        }
        r = r + budget_delta(&updates[i]);
        i += 1;
    }
    proof {
        assert(all.take(all.len() as int) =~= all);
    }
    r
}

/// A finite target is met or exceeded.
pub open spec fn exceeded(total: Option<u64>, spent: u64) -> bool {
    total matches Some(t) && spent >= t
}

/// Budget gate: true once a finite target is set and already met or exceeded.
pub fn over_budget(total: Option<u64>, spent: u64) -> (r: bool)
    ensures
        r == exceeded(total, spent),
{
    match total {
        Some(t) => spent >= t,
        None => false,
    }
}

/// What a refusal for want of budget says.
pub open spec fn refusal(total: Option<u64>, spent: u64) -> Seq<char> {
    "budget exceeded: "@ + text::decimal(spent as nat) + " output tokens spent >= total "@
        + text::decimal(
        match total {
            Some(t) => t as nat,
            None => 0,
        },
    )
}

/// What a refusal for want of budget says.
pub fn budget_refusal(total: Option<u64>, spent: u64) -> (r: String)
    ensures
        r@ == refusal(total, spent),
{
    let t: u64 = match total {
        Some(t) => t,
        None => 0,
    };
    let mut r = text::copied("budget exceeded: ");
    r.push_str(text::decimal_text(spent as u128).as_str());
    r.push_str(" output tokens spent >= total ");
    r.push_str(text::decimal_text(t as u128).as_str());
    r
}

/// The run's budget: a readable number above zero, else none.
pub fn resolve_budget(env: Option<&str>) -> (r: Option<u64>)
    ensures
        match env {
            Some(s) => match text::unsigned_value(s@, u64::MAX as nat) {
                Some(n) => if n > 0 {
                    r == Some(n as u64)
                } else {
                    r is None
                },
                None => r is None,
            },
            None => r is None,
        },
{
    match env {
        Some(s) => match text::parse_unsigned(s, u64::MAX) {
            Some(n) => if n > 0 {
                Some(n)
            } else {
                None
            },
            None => None,
        },
        None => None,
    }
}

/// The concurrency permits of a run: at least one.
pub fn permits(concurrency: usize) -> (r: usize)
    ensures
        r == if concurrency >= 1 {
            concurrency
        } else {
            1
        },
{
    if concurrency >= 1 {
        concurrency
    } else {
        1
    }
}

/// The agent binary: the configured one, or `codex`.
pub fn codex_bin(env: Option<String>) -> (r: String)
    ensures
        r@ == match env {
            Some(s) => s@,
            None => "codex"@,
        },
{
    match env {
        Some(s) => s,
        None => text::copied("codex"),
    }
}

// ── One attempt ──

/// What one attempt came to: the agent's answer, or why there is none. `steer`
/// asks for the reason to be fed back into the next prompt.
pub enum Attempt {
    Good(String),
    Bad { error: String, steer: bool },
}

/// What an [`Attempt`] says.
pub enum AttemptView {
    Good(Seq<char>),
    Bad { error: Seq<char>, steer: bool },
}

impl View for Attempt {
    type V = AttemptView;

    open spec fn view(&self) -> AttemptView {
        match *self {
            Attempt::Good(t) => AttemptView::Good(t@),
            Attempt::Bad { error, steer } => AttemptView::Bad { error: error@, steer },
        }
    }
}

/// What a cleanly ended attempt comes to.
pub open spec fn weighed(t: Seq<char>, u: UsableView) -> AttemptView {
    match u {
        UsableView::Yes => AttemptView::Good(t),
        UsableView::Empty => AttemptView::Bad {
            error:
                "agent exited cleanly but produced no output (likely upstream stream disconnect)"@,
            steer: false,
        },
        UsableView::BadJson(e) => AttemptView::Bad {
            error: "output was not valid JSON for the requested schema: "@ + e,
            steer: true,
        },
    }
}

/// What a cleanly ended attempt comes to, its text being classified already.
pub fn weigh_text(t: String, u: Usable) -> (r: Attempt)
    ensures
        r@ == weighed(t@, u@),
{
    match u {
        Usable::Yes => Attempt::Good(t),
        Usable::Empty => Attempt::Bad {
            error: text::copied(
                "agent exited cleanly but produced no output (likely upstream stream disconnect)",
            ),
            steer: false,
        },
        Usable::BadJson(e) => Attempt::Bad {
            error: text::concat2(
                "output was not valid JSON for the requested schema: ",
                e.as_str(),
            ),
            steer: true,
        },
    }
}

/// What one attempt comes to: its text if usable, else the reason it failed.
pub fn weigh(outcome: Result<String, String>, has_schema: bool) -> (r: Attempt)
    ensures
        r@ == match outcome {
            Ok(t) => weighed(t@, classified(t@, has_schema, json::json_document(t@))),
            Err(e) => AttemptView::Bad { error: e@, steer: false },
        },
{
    match outcome {
        Ok(t) => {
            let u = classify_text(t.as_str(), has_schema);
            weigh_text(t, u)
        },
        Err(e) => Attempt::Bad { error: e, steer: false },
    }
}

// ── A run from permit to result ──

/// What the host does next.
pub enum Action {
    /// Make the agent's worktree and report its path.
    AddWorktree(WorktreeSpec),
    /// Run the agent once with the current arguments.
    RunOnce,
    /// Wait this many milliseconds.
    Wait(u64),
    /// The run is over.
    Finish(Result<String, String>),
}

/// What an [`Action`] says.
pub enum ActionView {
    AddWorktree(WorktreeView),
    RunOnce,
    Wait(u64),
    Finish(Result<Seq<char>, Seq<char>>),
}

impl View for Action {
    type V = ActionView;

    open spec fn view(&self) -> ActionView {
        match *self {
            Action::AddWorktree(w) => ActionView::AddWorktree(w@),
            Action::RunOnce => ActionView::RunOnce,
            Action::Wait(ms) => ActionView::Wait(ms),
            Action::Finish(r) => ActionView::Finish(text::result_text(r)),
        }
    }
}

/// The updates to publish, in order, and what to do after.
pub struct Turn {
    pub updates: Vec<AgentUpdate>,
    pub action: Action,
}

/// What a [`Turn`] says.
#[verifier::ext_equal]
pub struct TurnView {
    pub updates: Seq<UpdateView>,
    pub action: ActionView,
}

impl View for Turn {
    type V = TurnView;

    open spec fn view(&self) -> TurnView {
        TurnView { updates: event::updates_view(self.updates@), action: self.action@ }
    }
}

fn turn0(action: Action) -> (r: Turn)
    ensures
        r@ == (TurnView { updates: Seq::empty(), action: action@ }),
{
    let updates: Vec<AgentUpdate> = Vec::new();
    assert(event::updates_view(updates@) =~= Seq::empty());
    Turn { updates, action }
}

fn turn1(a: AgentUpdate, action: Action) -> (r: Turn)
    ensures
        r@ == (TurnView { updates: seq![a@], action: action@ }),
{
    let mut updates: Vec<AgentUpdate> = Vec::new();
    updates.push(a);
    assert(event::updates_view(updates@) =~= seq![a@]);
    Turn { updates, action }
}

fn turn2(a: AgentUpdate, b: AgentUpdate, action: Action) -> (r: Turn)
    ensures
        r@ == (TurnView { updates: seq![a@, b@], action: action@ }),
{
    let mut updates: Vec<AgentUpdate> = Vec::new();
    updates.push(a);
    updates.push(b);
    assert(event::updates_view(updates@) =~= seq![a@, b@]);
    Turn { updates, action }
}

/// One agent's run: which attempt it is at, the prompt that attempt sends, and
/// why the last one failed.
pub struct AgentRun {
    pub spec: AgentSpec,
    pub budget_total: Option<u64>,
    pub max_attempts: u32,
    pub attempt: u32,
    pub prompt: String,
    pub last_err: String,
}

/// What an [`AgentRun`] says.
#[verifier::ext_equal]
pub struct RunView {
    pub spec: SpecView,
    pub budget_total: Option<u64>,
    pub max_attempts: u32,
    pub attempt: u32,
    pub prompt: Seq<char>,
    pub last_err: Seq<char>,
}

impl View for AgentRun {
    type V = RunView;

    open spec fn view(&self) -> RunView {
        RunView {
            spec: self.spec@,
            budget_total: self.budget_total,
            max_attempts: self.max_attempts,
            attempt: self.attempt,
            prompt: self.prompt@,
            last_err: self.last_err@,
        }
    }
}

impl RunView {
    /// An attempt is under way, within the limit.
    pub open spec fn wf(self) -> bool {
        1 <= self.attempt <= self.max_attempts
    }

    /// A run about to start.
    pub open spec fn initial(spec: SpecView, budget_total: Option<u64>, max_attempts: u32) -> Self {
        RunView {
            spec,
            budget_total,
            max_attempts,
            attempt: 1,
            prompt: spec.prompt,
            last_err: Seq::empty(),
        }
    }
}

/// Announce that the agent runs, and run it.
pub open spec fn running() -> TurnView {
    TurnView {
        updates: seq![UpdateView::Status(AgentStatus::Running)],
        action: ActionView::RunOnce,
    }
}

/// End the run without ever starting the agent.
pub open spec fn aborted(note: Seq<char>, error: Seq<char>) -> TurnView {
    TurnView {
        updates: seq![UpdateView::Note(note), UpdateView::Status(AgentStatus::Failed)],
        action: ActionView::Finish(Err(error)),
    }
}

/// The answer to holding a permit with `spent` tokens used up so far.
pub open spec fn permit_turn(v: RunView, spent: u64) -> TurnView {
    if exceeded(v.budget_total, spent) {
        let msg = refusal(v.budget_total, spent);
        aborted("refused at spawn: "@ + msg, msg)
    } else {
        match v.spec.worktree {
            Some(w) => TurnView { updates: Seq::empty(), action: ActionView::AddWorktree(w) },
            None => running(),
        }
    }
}

/// The run and the answer after the worktree was made, or could not be.
pub open spec fn worktree_turn(v: RunView, made: Result<Seq<char>, Seq<char>>) -> (
    RunView,
    TurnView,
) {
    match made {
        Ok(path) => (
            RunView { spec: SpecView { cwd: Some(path), ..v.spec }, ..v },
            running(),
        ),
        Err(e) => (v, aborted(e, e)),
    }
}

/// What the note about a retried attempt says.
pub open spec fn retry_note(attempt: nat, max: nat, error: Seq<char>) -> Seq<char> {
    "attempt "@ + text::decimal(attempt) + "/"@ + text::decimal(max) + " failed: "@ + error
        + " — retrying in "@ + text::decimal(backoff(attempt)) + "ms"@
}

/// How the last attempt's failure reads, after a leading phrase.
pub open spec fn failed_after(lead: Seq<char>, max: nat, error: Seq<char>) -> Seq<char> {
    lead + text::decimal(max) + " attempts: "@ + error
}

/// The run and the answer after an attempt ended.
pub open spec fn attempt_turn(v: RunView, a: AttemptView) -> (RunView, TurnView) {
    match a {
        AttemptView::Good(t) => (
            v,
            TurnView {
                updates: seq![UpdateView::Final(t), UpdateView::Status(AgentStatus::Done)],
                action: ActionView::Finish(Ok(t)),
            },
        ),
        AttemptView::Bad { error, steer } => {
            let told = RunView {
                last_err: error,
                prompt: if steer {
                    augmented(v.spec.prompt, error)
                } else {
                    v.prompt
                },
                ..v
            };
            if v.attempt < v.max_attempts {
                (
                    RunView { attempt: (v.attempt + 1) as u32, ..told },
                    TurnView {
                        updates: seq![
                            UpdateView::Note(
                                retry_note(v.attempt as nat, v.max_attempts as nat, error),
                            ),
                        ],
                        action: ActionView::Wait(backoff(v.attempt as nat) as u64),
                    },
                )
            } else {
                (
                    told,
                    aborted(
                        failed_after("failed after "@, v.max_attempts as nat, error),
                        failed_after("codex agent failed after "@, v.max_attempts as nat, error),
                    ),
                )
            }
        },
    }
}

fn failure_text(lead: &str, max: u32, error: &str) -> (r: String)
    ensures
        r@ == failed_after(lead@, max as nat, error@),
{
    let mut r = text::copied(lead);
    r.push_str(text::decimal_text(max as u128).as_str());
    r.push_str(" attempts: ");
    r.push_str(error);
    r
}

impl AgentRun {
    /// A run waiting for its permit.
    pub fn new(spec: AgentSpec, budget_total: Option<u64>, max_attempts: u32) -> (r: Self)
        ensures
            r@ == RunView::initial(spec@, budget_total, max_attempts),
            max_attempts >= 1 ==> r@.wf(),
    {
        let prompt = spec.prompt.clone();
        let r = AgentRun {
            spec,
            budget_total,
            max_attempts,
            attempt: 1,
            prompt,
            last_err: String::new(),
        };
        assert(r@ =~= RunView::initial(spec@, budget_total, max_attempts));
        r
    }

    /// The command line of the current attempt.
    pub fn args(&self) -> (r: Vec<String>)
        ensures
            text::texts(r@) == argv((SpecView { prompt: self@.prompt, ..self@.spec })),
    {
        args_with_prompt(&self.spec, self.prompt.as_str())
    }

    /// Whether answers must be JSON.
    pub fn has_schema(&self) -> (r: bool)
        ensures
            r == (self@.spec.output_schema is Some),
    {
        self.spec.output_schema.is_some()
    }

    /// The permit is held. The budget is looked at again here: earlier agents may
    /// have used it up while this one waited.
    pub fn on_permit(&self, spent: u64) -> (r: Turn)
        ensures
            r@ == permit_turn(self@, spent),
    {
        if over_budget(self.budget_total, spent) {
            let msg = budget_refusal(self.budget_total, spent);
            let note = text::concat2("refused at spawn: ", msg.as_str());
            return turn2(
                AgentUpdate::Note(note),
                AgentUpdate::Status(AgentStatus::Failed),
                Action::Finish(Err(msg)),
            );
        }
        match &self.spec.worktree {
            Some(w) => turn0(Action::AddWorktree(w.clone())),
            None => turn1(AgentUpdate::Status(AgentStatus::Running), Action::RunOnce),
        }
    }

    /// The worktree is there, at the given path, or could not be made. An
    /// isolated agent runs at its worktree's root.
    pub fn on_worktree(&mut self, made: Result<String, String>) -> (r: Turn)
        ensures
            (final(self)@, r@) == worktree_turn(old(self)@, text::result_text(made)),
    {
        match made {
            Ok(path) => {
                self.spec.cwd = Some(path);
                let r = turn1(AgentUpdate::Status(AgentStatus::Running), Action::RunOnce);
                assert(self@ =~= worktree_turn(old(self)@, Ok(path@)).0);
                r
            },
            Err(e) => {
                let note = e.clone();
                turn2(
                    AgentUpdate::Note(note),
                    AgentUpdate::Status(AgentStatus::Failed),
                    Action::Finish(Err(e)),
                )
            },
        }
    }

    /// The wait is over: the agent runs again.
    pub fn on_waited(&self) -> (r: Turn)
        ensures
            r@ == running(),
    {
        turn1(AgentUpdate::Status(AgentStatus::Running), Action::RunOnce)
    }

    /// An attempt ended. Transient failures (a dropped stream, an empty answer,
    /// text that is no JSON under a schema) are retried with growing waits.
    pub fn on_attempt(&mut self, a: Attempt) -> (r: Turn)
        requires
            old(self)@.wf(),
        ensures
            (final(self)@, r@) == attempt_turn(old(self)@, a@),
            final(self)@.wf(),
    {
        match a {
            Attempt::Good(t) => {
                let answer = t.clone();
                turn2(
                    AgentUpdate::Final(answer),
                    AgentUpdate::Status(AgentStatus::Done),
                    Action::Finish(Ok(t)),
                )
            },
            Attempt::Bad { error, steer } => {
                if steer {
                    self.prompt = augment_prompt(self.spec.prompt.as_str(), error.as_str());
                }
                let at: u32 = self.attempt;
                let max: u32 = self.max_attempts;
                if at < max {
                    let wait: u64 = backoff_ms(at);
                    let mut note = text::copied("attempt ");
                    note.push_str(text::decimal_text(at as u128).as_str());
                    note.push_str("/");
                    note.push_str(text::decimal_text(max as u128).as_str());
                    note.push_str(" failed: ");
                    note.push_str(error.as_str());
                    note.push_str(" — retrying in ");
                    note.push_str(text::decimal_text(wait as u128).as_str());
                    note.push_str("ms");
                    self.attempt = at + 1;
                    self.last_err = error;
                    let r = turn1(AgentUpdate::Note(note), Action::Wait(wait));
                    assert(self@ =~= attempt_turn(old(self)@, a@).0);
                    r
                } else {
                    let note = failure_text("failed after ", max, error.as_str());
                    let err = failure_text("codex agent failed after ", max, error.as_str());
                    self.last_err = error;
                    let r = turn2(
                        AgentUpdate::Note(note),
                        AgentUpdate::Status(AgentStatus::Failed),
                        Action::Finish(Err(err)),
                    );
                    assert(self@ =~= attempt_turn(old(self)@, a@).0);
                    r
                }
            },
        }
    }
}

// ── One child process ──

/// What one line of the agent's output amounts to, `parsed` being what reading
/// the line gave: nothing for a blank one, a note for one that cannot be read,
/// and the event's updates otherwise.
pub open spec fn line_updates(
    line: Seq<char>,
    parsed: Option<Result<CodexEvent, String>>,
) -> Seq<UpdateView> {
    match parsed {
        None => Seq::empty(),
        Some(Err(e)) => seq![UpdateView::Note("unparsed line ("@ + e@ + "): "@ + line)],
        Some(Ok(ev)) => event::event_updates(ev),
    }
}

/// The last message among the updates, or `before` when there is none.
pub open spec fn last_message(ups: Seq<UpdateView>, before: Seq<char>) -> Seq<char>
    decreases ups.len(),
{
    if ups.len() == 0 {
        before
    } else {
        match ups.last() {
            UpdateView::Message(t) => t,
            _ => last_message(ups.drop_last(), before),
        }
    }
}

/// What the agent's output has come to so far: the last assistant message.
pub struct Transcript {
    pub final_text: String,
}

impl Transcript {
    pub fn new() -> (r: Self)
        ensures
            r.final_text@ == Seq::<char>::empty(),
    {
        Transcript { final_text: String::new() }
    }

    /// Take in one line, already read, and hand out its updates.
    pub fn on_parsed(&mut self, line: &str, parsed: Option<Result<CodexEvent, String>>) -> (r: Vec<
        AgentUpdate,
    >)
        ensures
            event::updates_view(r@) == line_updates(line@, parsed),
            spent(event::updates_view(r@)) <= u64::MAX,
            final(self).final_text@ == last_message(
                line_updates(line@, parsed),
                old(self).final_text@,
            ),
    {
        proof {
            reveal_with_fuel(spent, 2);
            if parsed is Some && parsed->0 is Ok {
                law_event_spends_its_usage(parsed->0->Ok_0);
            }
        }
        match parsed {
            None => {
                let r: Vec<AgentUpdate> = Vec::new();
                assert(event::updates_view(r@) =~= Seq::<UpdateView>::empty());
                r
            },
            Some(Err(e)) => {
                let mut note = text::copied("unparsed line (");
                note.push_str(e.as_str());
                note.push_str("): ");
                note.push_str(line);
                let mut r: Vec<AgentUpdate> = Vec::new();
                r.push(AgentUpdate::Note(note));
                proof {
                    assert(event::updates_view(r@) =~= line_updates(line@, parsed));
                    reveal_with_fuel(last_message, 2);
                }
                r
            },
            Some(Ok(ev)) => {
                let r = ev.into_updates();
                let ghost all = event::updates_view(r@);
                let mut i: usize = 0;
                proof {
                    assert(all.take(0) =~= Seq::<UpdateView>::empty());
                }
                while i < r.len()
                    invariant
                        i <= r@.len(),
                        all == event::updates_view(r@),
                        self.final_text@ == last_message(all.take(i as int), old(self).final_text@),
                    decreases r@.len() - i,
                {
                    proof {
                        assert(all.take(i as int + 1).drop_last() =~= all.take(i as int));
                        assert(all.take(i as int + 1).last() == r@[i as int]@);
                    }
                    match &r[i] {
                        AgentUpdate::Message(t) => {
                            self.final_text = t.clone();
                        },
                        _ => {},
                    }
                    i += 1;
                }
                proof {
                    assert(all.take(r@.len() as int) =~= all);
                }
                r
            },
        }
    }

    /// Take in one line, read by `decode`, and hand out its updates.
    pub fn on_line<F: FnOnce(&str) -> Result<CodexEvent, String>>(
        &mut self,
        line: &str,
        decode: F,
    ) -> (r: Vec<AgentUpdate>)
        requires
            text::trimmed(line@).len() > 0 ==> forall|t: &str|
                t@ == text::trimmed(line@) ==> #[trigger] decode.requires((t,)),
        ensures
            spent(event::updates_view(r@)) <= u64::MAX,
            text::trimmed(line@).len() == 0 ==> event::updates_view(r@) == Seq::<
                UpdateView,
            >::empty() && final(self).final_text@ == old(self).final_text@,
            text::trimmed(line@).len() > 0 ==> exists|t: &str, out: Result<CodexEvent, String>|
                t@ == text::trimmed(line@) && #[trigger] decode.ensures((t,), out)
                    && event::updates_view(r@) == line_updates(line@, Some(out))
                    && final(self).final_text@ == last_message(
                    line_updates(line@, Some(out)),
                    old(self).final_text@,
                ),
    {
        let parsed = CodexEvent::parse_line(line, decode);
        self.on_parsed(line, parsed)
    }
}

impl Default for Transcript {
    fn default() -> (r: Self)
        ensures
            r.final_text@ == Seq::<char>::empty(),
    {
        Self::new()
    }
}

/// The note one line of diagnostics amounts to: none for a blank one.
pub fn stderr_note(line: String) -> (r: Option<AgentUpdate>)
    ensures
        match r {
            None => text::trimmed(line@).len() == 0,
            Some(u) => text::trimmed(line@).len() > 0 && u@ == UpdateView::Note(line@),
        },
{
    if text::trim(line.as_str()).is_empty() {
        None
    } else {
        Some(AgentUpdate::Note(line))
    }
}

/// The note about output that could not be read.
pub fn read_error_note(error: &str) -> (r: AgentUpdate)
    ensures
        r@ == UpdateView::Note("stdout read error: "@ + error@),
{
    AgentUpdate::Note(text::concat2("stdout read error: ", error))
}

/// How a child process ended.
pub enum Ended {
    /// It could not be started.
    NotSpawned { bin: String },
    /// It exited; `status` is how the system words that.
    Exited { success: bool, status: String },
    /// It outlived its timeout.
    TimedOut { ms: u64 },
    /// Something else went wrong on the host's side.
    Lost { error: String },
}

/// What an ended child process comes to: the last message if it exited
/// successfully, else why there is no answer.
pub open spec fn process_outcome(e: Ended, final_text: Seq<char>) -> Result<Seq<char>, Seq<char>> {
    match e {
        Ended::NotSpawned { bin } => Err("failed to spawn `"@ + bin@ + "`"@),
        Ended::Exited { success, status } => if success {
            Ok(final_text)
        } else {
            Err("codex exited with status "@ + status@)
        },
        Ended::TimedOut { ms } => Err(
            "codex timed out after "@ + text::decimal(ms as nat) + "ms"@,
        ),
        Ended::Lost { error } => Err(error@),
    }
}

/// What an ended child process comes to.
pub fn conclude(e: Ended, transcript: Transcript) -> (r: Result<String, String>)
    ensures
        text::result_text(r) == process_outcome(e, transcript.final_text@),
{
    match e {
        Ended::NotSpawned { bin } => {
            let mut m = text::copied("failed to spawn `");
            m.push_str(bin.as_str());
            m.push_str("`");
            Err(m)
        },
        Ended::Exited { success, status } => if success {
            Ok(transcript.final_text)
        } else {
            Err(text::concat2("codex exited with status ", status.as_str()))
        },
        Ended::TimedOut { ms } => {
            let mut m = text::copied("codex timed out after ");
            m.push_str(text::decimal_text(ms as u128).as_str());
            m.push_str("ms");
            Err(m)
        },
        Ended::Lost { error } => Err(error),
    }
}

// ── Laws ──

/// The prompt is always the last argument, whatever flags are set.
pub proof fn law_prompt_is_last(s: SpecView)
    ensures
        argv(s).len() >= 4,
        argv(s).last() == s.prompt,
        argv(s)[0] == "exec"@,
{
}

/// A flag that is set is followed by its value.
pub proof fn law_flags_carry_their_values(s: SpecView)
    ensures
        s.model matches Some(m) ==> exists|i: int|
            0 <= i < argv(s).len() - 1 && #[trigger] argv(s)[i] == "-m"@ && argv(s)[i + 1] == m,
        s.sandbox matches Some(m) ==> exists|i: int|
            0 <= i < argv(s).len() - 1 && #[trigger] argv(s)[i] == "-s"@ && argv(s)[i + 1] == m,
        s.cwd matches Some(m) ==> exists|i: int|
            0 <= i < argv(s).len() - 1 && #[trigger] argv(s)[i] == "-C"@ && argv(s)[i + 1] == m,
        s.output_schema matches Some(m) ==> exists|i: int|
            0 <= i < argv(s).len() - 1 && #[trigger] argv(s)[i] == "--output-schema"@ && argv(
                s,
            )[i + 1] == m,
{
    let m = flag("-m"@, s.model).len() as int;
    let p = flag("-s"@, s.sandbox).len() as int;
    let c = flag("-C"@, s.cwd).len() as int;
    assert(s.model is Some ==> argv(s)[3] == "-m"@);
    assert(s.sandbox is Some ==> argv(s)[3 + m] == "-s"@);
    assert(s.cwd is Some ==> argv(s)[3 + m + p] == "-C"@);
    assert(s.output_schema is Some ==> argv(s)[3 + m + p + c] == "--output-schema"@);
}

/// Waits never shrink, at most double, and stay between 800 and 8000.
pub proof fn law_backoff_grows_to_a_cap(attempt: nat)
    ensures
        800 <= backoff(attempt) <= 8000,
        backoff(attempt) <= backoff(attempt + 1) <= 2 * backoff(attempt),
    decreases attempt,
{
    if attempt > 1 {
        law_backoff_grows_to_a_cap((attempt - 1) as nat);
    } else {
        reveal_with_fuel(backoff, 3);
    }
}

/// Once the budget is used up it stays so, however much more is spent; without a
/// target it never is.
pub proof fn law_budget_stays_exceeded(total: Option<u64>, spent: u64, more: u64)
    requires
        exceeded(total, spent),
        more >= spent,
    ensures
        exceeded(total, more),
        total is Some,
{
}

/// What is spent over a stream is the sum over its parts, however it is cut.
pub proof fn law_spending_adds_up(a: Seq<UpdateView>, b: Seq<UpdateView>)
    ensures
        spent(a + b) == spent(a) + spent(b),
    decreases b.len(),
{
    if b.len() == 0 {
        assert(a + b =~= a);
    } else {
        assert((a + b).drop_last() =~= a + b.drop_last());
        law_spending_adds_up(a, b.drop_last());
    }
}

/// What one event spends is what its usage reports, so it always fits the counter.
pub proof fn law_event_spends_its_usage(ev: CodexEvent)
    ensures
        spent(event::event_updates(ev)) == match ev {
            CodexEvent::TurnCompleted { usage: Some(u) } => u.output_tokens as nat,
            _ => 0,
        },
{
    reveal_with_fuel(spent, 3);
    let ups = event::event_updates(ev);
    if ups.len() > 0 {
        assert(ups.drop_last().len() == ups.len() - 1);
    }
}

/// An agent refused for want of budget is never isolated and never run.
pub proof fn law_refused_agent_never_starts(v: RunView, spent: u64)
    requires
        exceeded(v.budget_total, spent),
    ensures
        permit_turn(v, spent).action == ActionView::Finish(
            Err::<Seq<char>, Seq<char>>(refusal(v.budget_total, spent)),
        ),
{
}

/// The prompt of an attempt is the agent's own, or that prompt with one note on
/// the latest rejection.
pub open spec fn steered(v: RunView) -> bool {
    v.prompt == v.spec.prompt || exists|reason: Seq<char>|
        v.prompt == #[trigger] augmented(v.spec.prompt, reason)
}

/// Rejection notes never pile up, whatever the attempts come to.
pub proof fn law_prompt_never_compounds(v: RunView, a: AttemptView)
    requires
        steered(v),
    ensures
        steered(attempt_turn(v, a).0),
        attempt_turn(v, a).0.spec == v.spec,
{
}

/// A rejected answer is fed back: the next prompt names the reason.
pub proof fn law_rejection_is_fed_back(v: RunView, error: Seq<char>)
    ensures
        attempt_turn(v, AttemptView::Bad { error, steer: true }).0.prompt == augmented(
            v.spec.prompt,
            error,
        ),
{
}

/// The agent's status ends as the run's result does: done exactly when there is
/// an answer, failed exactly when there is none.
pub open spec fn ends_consistently(t: TurnView) -> bool {
    match t.action {
        ActionView::Finish(Ok(_)) => t.updates.len() > 0 && t.updates.last() == UpdateView::Status(
            AgentStatus::Done,
        ),
        ActionView::Finish(Err(_)) => t.updates.len() > 0 && t.updates.last()
            == UpdateView::Status(AgentStatus::Failed),
        _ => forall|i: int|
            0 <= i < t.updates.len() ==> #[trigger] t.updates[i] != UpdateView::Status(
                AgentStatus::Done,
            ) && t.updates[i] != UpdateView::Status(AgentStatus::Failed),
    }
}

/// Whatever happens to a run, its last status matches its result.
pub proof fn law_status_matches_result(
    v: RunView,
    spent: u64,
    made: Result<Seq<char>, Seq<char>>,
    a: AttemptView,
)
    ensures
        ends_consistently(permit_turn(v, spent)),
        ends_consistently(worktree_turn(v, made).1),
        ends_consistently(attempt_turn(v, a).1),
        ends_consistently(running()),
{
}

/// A run ends with an answer exactly when an attempt came to one, and an attempt
/// comes to one exactly when its text is not blank and, under a schema, is JSON.
pub proof fn law_only_usable_text_succeeds(
    v: RunView,
    a: AttemptView,
    t: Seq<char>,
    has_schema: bool,
    parsed: Result<Seq<char>, Seq<char>>,
)
    ensures
        attempt_turn(v, a).1.action == ActionView::Finish(Ok::<Seq<char>, Seq<char>>(t)) <==> a
            == AttemptView::Good(t),
        weighed(t, classified(t, has_schema, parsed)) == AttemptView::Good(t) <==> text::trimmed(
            t,
        ).len() > 0 && (has_schema ==> parsed is Ok),
{
}

/// How a run ends when its attempts come to `attempts`, or `None` when it is
/// still going after them.
pub open spec fn run_result(v: RunView, attempts: Seq<AttemptView>) -> Option<
    Result<Seq<char>, Seq<char>>,
>
    decreases attempts.len(),
{
    if attempts.len() == 0 {
        None
    } else {
        let (next, turn) = attempt_turn(v, attempts.first());
        match turn.action {
            ActionView::Finish(r) => Some(r),
            _ => run_result(next, attempts.drop_first()),
        }
    }
}

/// The first usable answer within the limit is the run's result.
pub proof fn law_first_good_attempt_wins(v: RunView, attempts: Seq<AttemptView>, k: int)
    requires
        v.wf(),
        0 <= k < attempts.len(),
        v.attempt + k <= v.max_attempts,
        attempts[k] is Good,
        forall|i: int| 0 <= i < k ==> #[trigger] attempts[i] is Bad,
    ensures
        run_result(v, attempts) == Some(Ok::<Seq<char>, Seq<char>>(attempts[k]->0)),
    decreases attempts.len(),
{
    if k > 0 {
        let rest = attempts.drop_first();
        assert(attempts[0] is Bad);
        assert forall|i: int| 0 <= i < k - 1 implies #[trigger] rest[i] is Bad by {
            assert(rest[i] == attempts[i + 1]);
        }
        assert(rest[k - 1] == attempts[k]);
        law_first_good_attempt_wins(attempt_turn(v, attempts.first()).0, rest, k - 1);
    }
}

/// When every attempt allowed fails, the run fails with the last reason.
pub proof fn law_gives_up_with_the_last_reason(v: RunView, attempts: Seq<AttemptView>)
    requires
        v.wf(),
        attempts.len() == v.max_attempts - v.attempt + 1,
        forall|i: int| 0 <= i < attempts.len() ==> #[trigger] attempts[i] is Bad,
    ensures
        run_result(v, attempts) == Some(
            Err::<Seq<char>, Seq<char>>(
                failed_after(
                    "codex agent failed after "@,
                    v.max_attempts as nat,
                    attempts.last()->error,
                ),
            ),
        ),
    decreases attempts.len(),
{
    assert(attempts[0] is Bad);
    if v.attempt < v.max_attempts {
        let rest = attempts.drop_first();
        assert forall|i: int| 0 <= i < rest.len() implies #[trigger] rest[i] is Bad by {
            assert(rest[i] == attempts[i + 1]);
        }
        assert(rest.last() == attempts.last());
        law_gives_up_with_the_last_reason(attempt_turn(v, attempts.first()).0, rest);
    }
}

/// A run is over after at most its number of attempts, whatever they come to.
pub proof fn law_run_ends_within_its_attempts(v: RunView, attempts: Seq<AttemptView>)
    requires
        v.wf(),
        attempts.len() >= v.max_attempts - v.attempt + 1,
    ensures
        run_result(v, attempts) is Some,
    decreases attempts.len(),
{
    let (next, turn) = attempt_turn(v, attempts.first());
    if !(turn.action is Finish) {
        law_run_ends_within_its_attempts(next, attempts.drop_first());
    }
}

/// The final text of a stream is the same however it is cut into lines.
pub proof fn law_last_message_composes(a: Seq<UpdateView>, b: Seq<UpdateView>, before: Seq<char>)
    ensures
        last_message(a + b, before) == last_message(b, last_message(a, before)),
    decreases b.len(),
{
    if b.len() == 0 {
        assert(a + b =~= a);
    } else {
        assert((a + b).drop_last() =~= a + b.drop_last());
        law_last_message_composes(a, b.drop_last(), before);
    }
}

} // verus!
