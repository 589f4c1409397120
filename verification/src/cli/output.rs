//! The lines the printing front-end writes.

use vstd::prelude::*;

use crate::event::{AgentId, AgentStatus, AgentUpdate, AppEvent, EventView, StepStatus, UpdateView};
use crate::text;

verus! {

/// One line of output: results go to standard output, everything else to
/// standard error, so that consumers of results need only watch the former.
pub enum Line {
    Stdout(String),
    Stderr(String),
}

/// What a [`Line`] says.
pub enum LineView {
    Stdout(Seq<char>),
    Stderr(Seq<char>),
}

impl View for Line {
    type V = LineView;

    open spec fn view(&self) -> LineView {
        match *self {
            Line::Stdout(s) => LineView::Stdout(s@),
            Line::Stderr(s) => LineView::Stderr(s@),
        }
    }
}

/// What an optional line says.
pub open spec fn line_view(l: Option<Line>) -> Option<LineView> {
    match l {
        Some(l) => Some(l@),
        None => None,
    }
}

pub open spec fn step_status_name(s: StepStatus) -> Seq<char> {
    match s {
        StepStatus::Pending => "Pending"@,
        StepStatus::Running => "Running"@,
        StepStatus::Done => "Done"@,
        StepStatus::Failed => "Failed"@,
    }
}

pub open spec fn agent_status_name(s: AgentStatus) -> Seq<char> {
    match s {
        AgentStatus::Pending => "Pending"@,
        AgentStatus::Running => "Running"@,
        AgentStatus::Done => "Done"@,
        AgentStatus::Failed => "Failed"@,
    }
}

fn step_status_text(s: StepStatus) -> (r: &'static str)
    ensures
        r@ == step_status_name(s),
{
    match s {
        StepStatus::Pending => "Pending",
        StepStatus::Running => "Running",
        StepStatus::Done => "Done",
        StepStatus::Failed => "Failed",
    }
}

fn agent_status_text(s: AgentStatus) -> (r: &'static str)
    ensures
        r@ == agent_status_name(s),
{
    match s {
        AgentStatus::Pending => "Pending",
        AgentStatus::Running => "Running",
        AgentStatus::Done => "Done",
        AgentStatus::Failed => "Failed",
    }
}

/// A variant around one text, in `Debug` form.
pub open spec fn variant(name: Seq<char>, t: Seq<char>) -> Seq<char> {
    name + "("@ + text::debug_form(t) + ")"@
}

fn variant_text(name: &str, t: &str) -> (r: String)
    ensures
        r@ == variant(name@, t@),
{
    let mut r = text::copied(name);
    r.push_str("(");
    r.push_str(text::debug_text(t).as_str());
    r.push_str(")");
    r
}

/// An update as its type's `Debug` form has it.
pub open spec fn update_debug(u: UpdateView) -> Seq<char> {
    match u {
        UpdateView::Status(s) => "Status("@ + agent_status_name(s) + ")"@,
        UpdateView::Reasoning(t) => variant("Reasoning"@, t),
        UpdateView::Command { command, output } => "Command { command: "@ + text::debug_form(
            command,
        ) + ", output: "@ + match output {
            Some(o) => variant("Some"@, o),
            None => "None"@,
        } + " }"@,
        UpdateView::FileChange(t) => variant("FileChange"@, t),
        UpdateView::ToolCall(t) => variant("ToolCall"@, t),
        UpdateView::WebSearch(t) => variant("WebSearch"@, t),
        UpdateView::Message(t) => variant("Message"@, t),
        UpdateView::Tokens { input, output } => "Tokens { input: "@ + text::decimal(input as nat)
            + ", output: "@ + text::decimal(output as nat) + " }"@,
        UpdateView::Final(t) => variant("Final"@, t),
        UpdateView::Note(t) => variant("Note"@, t),
    }
}

fn update_debug_text(u: &AgentUpdate) -> (r: String)
    ensures
        r@ == update_debug(u@),
{
    match u {
        AgentUpdate::Status(s) => {
            let mut r = text::copied("Status(");
            r.push_str(agent_status_text(*s));
            r.push_str(")");
            r
        },
        AgentUpdate::Reasoning(t) => variant_text("Reasoning", t.as_str()),
        AgentUpdate::Command { command, output } => {
            let mut r = text::copied("Command { command: ");
            r.push_str(text::debug_text(command.as_str()).as_str());
            r.push_str(", output: ");
            match output {
                Some(o) => {
                    r.push_str(variant_text("Some", o.as_str()).as_str());
                },
                None => {
                    r.push_str("None");
                },
            }
            r.push_str(" }");
            r
        },
        AgentUpdate::FileChange(t) => variant_text("FileChange", t.as_str()),
        AgentUpdate::ToolCall(t) => variant_text("ToolCall", t.as_str()),
        AgentUpdate::WebSearch(t) => variant_text("WebSearch", t.as_str()),
        AgentUpdate::Message(t) => variant_text("Message", t.as_str()),
        AgentUpdate::Tokens { input, output } => {
            let mut r = text::copied("Tokens { input: ");
            r.push_str(text::decimal_text(*input as u128).as_str());
            r.push_str(", output: ");
            r.push_str(text::decimal_text(*output as u128).as_str());
            r.push_str(" }");
            r
        },
        AgentUpdate::Final(t) => variant_text("Final", t.as_str()),
        AgentUpdate::Note(t) => variant_text("Note", t.as_str()),
    }
}

/// The head of a line about a step.
pub open spec fn step_head(step: usize) -> Seq<char> {
    "== step["@ + text::decimal(step as nat) + "] "@
}

/// The head of a line about an agent.
pub open spec fn agent_head(id: AgentId) -> Seq<char> {
    "-- agent["@ + text::decimal(id as nat) + "] "@
}

fn step_head_text(step: usize) -> (r: String)
    ensures
        r@ == step_head(step),
{
    let mut r = text::copied("== step[");
    r.push_str(text::decimal_text(step as u128).as_str());
    r.push_str("] ");
    r
}

fn agent_head_text(id: AgentId) -> (r: String)
    ensures
        r@ == agent_head(id),
{
    let mut r = text::copied("-- agent[");
    r.push_str(text::decimal_text(id as u128).as_str());
    r.push_str("] ");
    r
}

/// How a finished workflow is reported.
pub open spec fn result_text(r: Result<Seq<char>, Seq<char>>) -> Seq<char> {
    match r {
        Ok(v) => "RESULT: "@ + v,
        Err(e) => "ERROR: "@ + e,
    }
}

/// How a finished workflow is reported.
pub fn result_line(r: &Result<String, String>) -> (s: String)
    ensures
        s@ == result_text(text::result_text(*r)),
{
    match r {
        Ok(v) => text::concat2("RESULT: ", v.as_str()),
        Err(e) => text::concat2("ERROR: ", e.as_str()),
    }
}

/// The line an event is printed as, if any.
pub open spec fn printed(ev: EventView) -> Option<LineView> {
    match ev {
        EventView::StepDeclared { step, title } => Some(LineView::Stderr(step_head(step) + title)),
        EventView::StepStatus { step, status } => Some(
            LineView::Stderr(step_head(step) + "-> "@ + step_status_name(status)),
        ),
        EventView::AgentSpawned { id, label, group, .. } => Some(
            LineView::Stderr(
                match group {
                    Some(g) => agent_head(id) + "("@ + g + ") spawned: "@ + label,
                    None => agent_head(id) + "spawned: "@ + label,
                },
            ),
        ),
        EventView::Agent { id, update } => Some(
            LineView::Stderr(
                match update {
                    UpdateView::Final(t) => agent_head(id) + "FINAL: "@ + t,
                    UpdateView::Note(n) => agent_head(id) + "note: "@ + n,
                    other => agent_head(id) + update_debug(other),
                },
            ),
        ),
        EventView::WorkflowDone(r) => Some(LineView::Stdout(result_text(r))),
        EventView::EngineError(e) => Some(LineView::Stderr("!! engine error: "@ + e)),
        EventView::RunMeta { name, phases } => Some(
            LineView::Stderr(
                "== workflow: "@ + name + " [phases: "@ + text::joined(phases, ", "@) + "]"@,
            ),
        ),
        EventView::Key(_) => None,
        EventView::Render => None,
    }
}

/// The line an event is printed as, if any.
pub fn event_line(ev: &AppEvent) -> (r: Option<Line>)
    ensures
        line_view(r) == printed(ev@),
{
    match ev {
        AppEvent::StepDeclared { step, title } => {
            let mut s = step_head_text(*step);
            s.push_str(title.as_str());
            Some(Line::Stderr(s))
        },
        AppEvent::StepStatus { step, status } => {
            let mut s = step_head_text(*step);
            s.push_str("-> ");
            s.push_str(step_status_text(*status));
            Some(Line::Stderr(s))
        },
        AppEvent::AgentSpawned { id, label, group, .. } => {
            let mut s = agent_head_text(*id);
            match group {
                Some(g) => {
                    s.push_str("(");
                    s.push_str(g.as_str());
                    s.push_str(") spawned: ");
                },
                None => {
                    s.push_str("spawned: ");
                },
            }
            s.push_str(label.as_str());
            Some(Line::Stderr(s))
        },
        AppEvent::Agent { id, update } => {
            let mut s = agent_head_text(*id);
            match update {
                AgentUpdate::Final(t) => {
                    s.push_str("FINAL: ");
                    s.push_str(t.as_str());
                },
                AgentUpdate::Note(n) => {
                    s.push_str("note: ");
                    s.push_str(n.as_str());
                },
                other => {
                    s.push_str(update_debug_text(other).as_str());
                },
            }
            Some(Line::Stderr(s))
        },
        AppEvent::WorkflowDone(r) => Some(Line::Stdout(result_line(r))),
        AppEvent::EngineError(e) => Some(
            Line::Stderr(text::concat2("!! engine error: ", e.as_str())),
        ),
        AppEvent::RunMeta { name, phases } => {
            let mut s = text::copied("== workflow: ");
            s.push_str(name.as_str());
            s.push_str(" [phases: ");
            s.push_str(text::join(phases, ", ").as_str());
            s.push_str("]");
            Some(Line::Stderr(s))
        },
        AppEvent::Key(_) => None,
        AppEvent::Render => None,
    }
}

/// The line that opens a run and says how to resume it.
pub fn banner(run_id: &str, resumed: bool, workflow: &str) -> (r: String)
    ensures
        r@ == "== run "@ + run_id@ + if resumed {
            " [resumed]"@
        } else {
            ""@
        } + "  (resume: codex-flow --resume "@ + run_id@ + " "@ + workflow@ + ")"@,
{
    let mut r = text::copied("== run ");
    r.push_str(run_id);
    r.push_str(
        if resumed {
            " [resumed]"
        } else {
            ""
        },
    );
    r.push_str("  (resume: codex-flow --resume ");
    r.push_str(run_id);
    r.push_str(" ");
    r.push_str(workflow);
    r.push_str(")");
    r
}

// ── Laws ──

/// Only a finished workflow writes to standard output; keys and redraws print
/// nothing.
pub proof fn law_only_results_go_to_standard_output(ev: EventView)
    ensures
        printed(ev) matches Some(LineView::Stdout(_)) <==> ev is WorkflowDone,
        printed(ev) is None <==> ev is Key || ev is Render,
{
}

/// The event is printed as one line on standard error that starts and ends so.
pub open spec fn reports(ev: EventView, head: Seq<char>, end: Seq<char>) -> bool {
    printed(ev) matches Some(LineView::Stderr(l)) && text::starts_with(l, head) && text::ends_with(
        l,
        end,
    )
}

proof fn lemma_reported(head: Seq<char>, mid: Seq<char>, end: Seq<char>)
    ensures
        text::starts_with(head + mid + end, head),
        text::ends_with(head + mid + end, end),
        text::starts_with(head + end, head),
        text::ends_with(head + end, end),
{
    assert(head + mid + end =~= head + (mid + end));
    text::laws::law_part_is_contained(head, head, mid + end);
    text::laws::law_part_is_contained(head + mid, end, end);
    text::laws::law_part_is_contained(head, head, end);
    text::laws::law_part_is_contained(head, end, end);
}

/// The heads of lines tell steps and agents apart by their numbers.
pub proof fn law_heads_tell_numbers_apart(a: usize, b: usize, x: AgentId, y: AgentId)
    ensures
        step_head(a) == step_head(b) ==> a == b,
        agent_head(x) == agent_head(y) ==> x == y,
        text::contains_text(step_head(a), text::decimal(a as nat)),
        text::contains_text(agent_head(x), text::decimal(x as nat)),
{
    let s = "== step["@;
    let g = "-- agent["@;
    let z = "] "@;
    text::laws::law_part_is_contained(s, text::decimal(a as nat), z);
    text::laws::law_part_is_contained(g, text::decimal(x as nat), z);
    if step_head(a) == step_head(b) {
        lemma_middle(s, text::decimal(a as nat), text::decimal(b as nat), z);
        text::laws::law_decimals_distinct(a as nat, b as nat);
    }
    if agent_head(x) == agent_head(y) {
        lemma_middle(g, text::decimal(x as nat), text::decimal(y as nat), z);
        text::laws::law_decimals_distinct(x as nat, y as nat);
    }
}

proof fn lemma_middle(a: Seq<char>, x: Seq<char>, y: Seq<char>, z: Seq<char>)
    requires
        a + x + z == a + y + z,
    ensures
        x == y,
{
    let l = a + x + z;
    let r = a + y + z;
    assert(l.len() == a.len() + x.len() + z.len());
    assert(r.len() == a.len() + y.len() + z.len());
    assert(x =~= l.subrange(a.len() as int, (a.len() + x.len()) as int));
    assert(y =~= r.subrange(a.len() as int, (a.len() + y.len()) as int));
}

/// A step is printed with its number, and with its title or its status.
pub proof fn law_steps_are_printed(step: usize, title: Seq<char>, status: StepStatus)
    ensures
        reports(EventView::StepDeclared { step, title }, step_head(step), title),
        reports(
            EventView::StepStatus { step, status },
            step_head(step),
            step_status_name(status),
        ),
{
    lemma_reported(step_head(step), "-> "@, title);
    lemma_reported(step_head(step), "-> "@, step_status_name(status));
}

/// Statuses are printed under different names.
pub proof fn law_names_tell_statuses_apart(
    a: StepStatus,
    b: StepStatus,
    x: AgentStatus,
    y: AgentStatus,
)
    ensures
        step_status_name(a) == step_status_name(b) ==> a == b,
        agent_status_name(x) == agent_status_name(y) ==> x == y,
{
    reveal_strlit("Pending");
    reveal_strlit("Running");
    reveal_strlit("Done");
    reveal_strlit("Failed");
    assert("Pending"@[0] != "Running"@[0]);
    assert("Pending"@.len() == 7 && "Running"@.len() == 7);
    assert("Done"@.len() == 4 && "Failed"@.len() == 6);
}

/// A spawned agent is printed with its number and its label, and with its group
/// where it has one.
pub proof fn law_spawns_are_printed(
    id: AgentId,
    step: usize,
    label: Seq<char>,
    prompt: Seq<char>,
    g: Seq<char>,
)
    ensures
        reports(
            EventView::AgentSpawned { id, step, label, prompt, group: None },
            agent_head(id),
            label,
        ),
        reports(
            EventView::AgentSpawned { id, step, label, prompt, group: Some(g) },
            agent_head(id),
            label,
        ),
        ({
            let ev = EventView::AgentSpawned { id, step, label, prompt, group: Some(g) };
            text::contains_text(printed(ev)->0->Stderr_0, "("@ + g + ")"@)
        }),
{
    reveal_strlit(") spawned: ");
    reveal_strlit(")");
    reveal_strlit(" spawned: ");
    lemma_reported(agent_head(id), "spawned: "@, label);
    let mid = "("@ + g + ") spawned: "@;
    lemma_reported(agent_head(id), mid, label);
    let line = agent_head(id) + "("@ + g + ") spawned: "@ + label;
    assert(line =~= agent_head(id) + mid + label);
    assert(") spawned: "@ =~= ")"@ + " spawned: "@);
    assert(line =~= agent_head(id) + ("("@ + g + ")"@) + (" spawned: "@ + label));
    text::laws::law_part_is_contained(agent_head(id), "("@ + g + ")"@, " spawned: "@ + label);
}

/// An agent's notes and its result are printed whole, with its number; any other
/// progress in its debug form.
pub proof fn law_progress_is_printed(id: AgentId, t: Seq<char>, u: UpdateView)
    ensures
        reports(EventView::Agent { id, update: UpdateView::Note(t) }, agent_head(id), t),
        reports(EventView::Agent { id, update: UpdateView::Final(t) }, agent_head(id), t),
        !(u is Note || u is Final) ==> reports(
            EventView::Agent { id, update: u },
            agent_head(id),
            update_debug(u),
        ),
{
    lemma_reported(agent_head(id), "note: "@, t);
    lemma_reported(agent_head(id), "FINAL: "@, t);
    lemma_reported(agent_head(id), "note: "@, update_debug(u));
}

/// The debug form of an update starts with its kind and holds what it says.
pub proof fn law_debug_form_holds_the_text(t: Seq<char>, input: u64, output: u64, s: AgentStatus)
    ensures
        text::starts_with(update_debug(UpdateView::Reasoning(t)), "Reasoning"@),
        text::contains_text(update_debug(UpdateView::Reasoning(t)), text::debug_form(t)),
        text::starts_with(update_debug(UpdateView::FileChange(t)), "FileChange"@),
        text::contains_text(update_debug(UpdateView::FileChange(t)), text::debug_form(t)),
        text::starts_with(update_debug(UpdateView::ToolCall(t)), "ToolCall"@),
        text::contains_text(update_debug(UpdateView::ToolCall(t)), text::debug_form(t)),
        text::starts_with(update_debug(UpdateView::WebSearch(t)), "WebSearch"@),
        text::contains_text(update_debug(UpdateView::WebSearch(t)), text::debug_form(t)),
        text::starts_with(update_debug(UpdateView::Message(t)), "Message"@),
        text::contains_text(update_debug(UpdateView::Message(t)), text::debug_form(t)),
        text::contains_text(update_debug(UpdateView::Status(s)), agent_status_name(s)),
        ({
            let u = update_debug(UpdateView::Tokens { input, output });
            text::contains_text(u, text::decimal(input as nat)) && text::contains_text(
                u,
                text::decimal(output as nat),
            )
        }),
{
    lemma_variant("Reasoning"@, t);
    lemma_variant("FileChange"@, t);
    lemma_variant("ToolCall"@, t);
    lemma_variant("WebSearch"@, t);
    lemma_variant("Message"@, t);
    text::laws::law_part_is_contained("Status("@, agent_status_name(s), ")"@);
    let i = text::decimal(input as nat);
    let o = text::decimal(output as nat);
    let a = "Tokens { input: "@;
    let b = ", output: "@;
    let z = " }"@;
    text::laws::law_part_is_contained(a, i, b + o + z);
    assert(a + i + b + o + z =~= a + i + (b + o + z));
    text::laws::law_part_is_contained(a + i + b, o, z);
}

proof fn lemma_variant(name: Seq<char>, t: Seq<char>)
    ensures
        text::starts_with(variant(name, t), name),
        text::contains_text(variant(name, t), text::debug_form(t)),
{
    let v = variant(name, t);
    let d = text::debug_form(t);
    assert(v =~= name + ("("@ + d + ")"@));
    text::laws::law_part_is_contained(name, name, "("@ + d + ")"@);
    text::laws::law_part_is_contained(name + "("@, d, ")"@);
}

/// A command's debug form holds the command and, where it has one, the output.
pub proof fn law_debug_form_holds_the_command(command: Seq<char>, o: Seq<char>)
    ensures
        ({
            let u = update_debug(UpdateView::Command { command, output: Some(o) });
            text::contains_text(u, text::debug_form(command)) && text::contains_text(
                u,
                text::debug_form(o),
            )
        }),
        ({
            let u = update_debug(UpdateView::Command { command, output: None });
            text::contains_text(u, text::debug_form(command))
        }),
{
    let a = "Command { command: "@;
    let c = text::debug_form(command);
    let b = ", output: "@;
    let z = " }"@;
    let d = text::debug_form(o);
    let some = variant("Some"@, o);
    text::laws::law_part_is_contained(a, c, b + some + z);
    assert(a + c + b + some + z =~= a + c + (b + some + z));
    text::laws::law_part_is_contained(a + c + b + "Some"@ + "("@, d, ")"@ + z);
    assert(a + c + b + some + z =~= a + c + b + "Some"@ + "("@ + d + (")"@ + z));
    text::laws::law_part_is_contained(a, c, b + "None"@ + z);
    assert(a + c + b + "None"@ + z =~= a + c + (b + "None"@ + z));
}

/// The run's outcome is printed whole, and success and failure read differently.
pub proof fn law_outcome_is_printed(v: Seq<char>)
    ensures
        printed(EventView::WorkflowDone(Ok(v))) matches Some(LineView::Stdout(l)) && text::ends_with(
            l,
            v,
        ) && l[0] == 'R',
        printed(EventView::WorkflowDone(Err(v))) matches Some(LineView::Stdout(l))
            && text::ends_with(l, v) && l[0] == 'E',
        printed(EventView::EngineError(v)) matches Some(LineView::Stderr(l)) && text::ends_with(
            l,
            v,
        ),
{
    reveal_strlit("RESULT: ");
    reveal_strlit("ERROR: ");
    text::laws::law_part_is_contained("RESULT: "@, v, v);
    text::laws::law_part_is_contained("ERROR: "@, v, v);
    text::laws::law_part_is_contained("!! engine error: "@, v, v);
}

/// Metadata is printed with the workflow's name and every phase.
pub proof fn law_metadata_is_printed(name: Seq<char>, phases: Seq<Seq<char>>, i: int)
    ensures
        ({
            let line = printed(EventView::RunMeta { name, phases });
            &&& line matches Some(LineView::Stderr(l)) && text::contains_text(l, name) && (0 <= i
                < phases.len() ==> text::contains_text(l, phases[i]))
        }),
{
    let a = "== workflow: "@;
    let b = " [phases: "@;
    let j = text::joined(phases, ", "@);
    let z = "]"@;
    let l = a + name + b + j + z;
    text::laws::law_part_is_contained(a, name, b + j + z);
    assert(l =~= a + name + (b + j + z));
    if 0 <= i < phases.len() {
        text::laws::law_join_keeps_every_part(phases, ", "@, i);
        let k = choose|k: int| text::occurs_at(j, phases[i], k);
        let at = (a + name + b).len() + k;
        assert(l.subrange(at, at + phases[i].len()) =~= j.subrange(k, k + phases[i].len()));
        assert(text::occurs_at(l, phases[i], at));
    }
}

/// A line says its text, on its own stream.
pub proof fn law_line_says_its_text(t: String)
    ensures
        line_view(Some(Line::Stdout(t))) == Some(LineView::Stdout(t@)),
        line_view(Some(Line::Stderr(t))) == Some(LineView::Stderr(t@)),
        line_view(None) is None,
{
}

} // verus!
