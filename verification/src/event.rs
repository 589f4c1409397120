//! Event model shared by the engine, the agent runner and the terminal front-ends.
//!
//! Three layers feed one another:
//!   * an agent process emits one JSON object per line (`CodexEvent`);
//!   * the runner turns each into normalized `AgentUpdate`s;
//!   * everything reaches the single render loop as an `AppEvent`.

use vstd::prelude::*;

use crate::json;
use crate::text;

pub mod laws;

verus! {

/// Stable identifier for one spawned agent (one child process).
pub type AgentId = u64;

/// Index of a workflow step (phase) in declaration order.
pub type StepId = usize;

/// The keys the terminal front-end reacts to; every other key is `Other`.
#[derive(Debug, Clone, Copy, PartialEq, Eq, Structural)]
pub enum KeyCode {
    Char(char),
    Up,
    Down,
    Left,
    Right,
    Enter,
    Esc,
    PageUp,
    PageDown,
    Home,
    End,
    Other,
}

/// One terminal key event.
#[derive(Debug, Clone, Copy, PartialEq, Eq, Structural)]
pub struct KeyEvent {
    pub code: KeyCode,
    /// The control modifier is held.
    pub control: bool,
    /// The key was let go rather than pressed or repeated.
    pub release: bool,
}

#[derive(Debug, Clone, Copy, PartialEq, Eq, Structural)]
pub enum StepStatus {
    Pending,
    Running,
    Done,
    Failed,
}

#[derive(Debug, Clone, Copy, PartialEq, Eq, Structural)]
pub enum AgentStatus {
    Pending,
    Running,
    Done,
    Failed,
}

/// One normalized progress item for an agent. The terminal front-end appends
/// most of these to the agent's detail log; a few also drive status and token
/// columns.
#[derive(Debug)]
#[allow(inconsistent_fields)]
pub enum AgentUpdate {
    Status(AgentStatus),
    /// Model reasoning summary text.
    Reasoning(String),
    /// A shell command the agent ran (with optional captured output).
    Command { command: String, output: Option<String> },
    /// A file the agent created or edited.
    FileChange(String),
    /// An MCP tool call.
    ToolCall(String),
    /// A web search the agent performed.
    WebSearch(String),
    /// The agent's (possibly interim) assistant message text.
    Message(String),
    /// Cumulative token usage reported at turn end.
    Tokens { input: u64, output: u64 },
    /// The agent's final response payload (JSON if a schema was set).
    Final(String),
    /// A non-fatal note from the runner (parse warning, spawn detail, etc.).
    Note(String),
}

/// What an [`AgentUpdate`] says.
#[allow(inconsistent_fields)]
pub enum UpdateView {
    Status(AgentStatus),
    Reasoning(Seq<char>),
    Command { command: Seq<char>, output: Option<Seq<char>> },
    FileChange(Seq<char>),
    ToolCall(Seq<char>),
    WebSearch(Seq<char>),
    Message(Seq<char>),
    Tokens { input: u64, output: u64 },
    Final(Seq<char>),
    Note(Seq<char>),
}

impl View for AgentUpdate {
    type V = UpdateView;

    open spec fn view(&self) -> UpdateView {
        match *self {
            AgentUpdate::Status(s) => UpdateView::Status(s),
            AgentUpdate::Reasoning(t) => UpdateView::Reasoning(t@),
            AgentUpdate::Command { command, output } => UpdateView::Command {
                command: command@,
                output: text::opt_text(output),
            },
            AgentUpdate::FileChange(t) => UpdateView::FileChange(t@),
            AgentUpdate::ToolCall(t) => UpdateView::ToolCall(t@),
            AgentUpdate::WebSearch(t) => UpdateView::WebSearch(t@),
            AgentUpdate::Message(t) => UpdateView::Message(t@),
            AgentUpdate::Tokens { input, output } => UpdateView::Tokens { input, output },
            AgentUpdate::Final(t) => UpdateView::Final(t@),
            AgentUpdate::Note(t) => UpdateView::Note(t@),
        }
    }
}

impl Clone for AgentUpdate {
    fn clone(&self) -> (r: Self)
        ensures
            r@ == self@,
    {
        match self {
            AgentUpdate::Status(s) => AgentUpdate::Status(*s),
            AgentUpdate::Reasoning(t) => AgentUpdate::Reasoning(t.clone()),
            AgentUpdate::Command { command, output } => AgentUpdate::Command {
                command: command.clone(),
                output: text::copied_opt(output),
            },
            AgentUpdate::FileChange(t) => AgentUpdate::FileChange(t.clone()),
            AgentUpdate::ToolCall(t) => AgentUpdate::ToolCall(t.clone()),
            AgentUpdate::WebSearch(t) => AgentUpdate::WebSearch(t.clone()),
            AgentUpdate::Message(t) => AgentUpdate::Message(t.clone()),
            AgentUpdate::Tokens { input, output } => AgentUpdate::Tokens {
                input: *input,
                output: *output,
            },
            AgentUpdate::Final(t) => AgentUpdate::Final(t.clone()),
            AgentUpdate::Note(t) => AgentUpdate::Note(t.clone()),
        }
    }
}

/// What a run of updates says, in order.
pub open spec fn updates_view(v: Seq<AgentUpdate>) -> Seq<UpdateView> {
    Seq::new(v.len(), |i: int| v[i]@)
}

/// Everything the render loop consumes. The loop owns all state, so every
/// change arrives as one of these and is applied serially.
#[derive(Debug)]
pub enum AppEvent {
    /// A terminal key press.
    Key(KeyEvent),
    /// Periodic redraw tick.
    Render,
    /// The workflow declared a step (title shown in the left pane).
    StepDeclared { step: StepId, title: String },
    /// A step changed lifecycle state.
    StepStatus { step: StepId, status: StepStatus },
    /// The workflow's `export const meta`, surfaced once before it runs so the
    /// phase skeleton can be drawn up front.
    RunMeta { name: String, phases: Vec<String> },
    /// The workflow asked to spawn an agent; it is shown as pending.
    AgentSpawned {
        id: AgentId,
        step: StepId,
        label: String,
        prompt: String,
        /// The child-workflow group this agent belongs to. Cosmetic: it never
        /// enters the journal key.
        group: Option<String>,
    },
    /// Streamed progress from a running agent.
    Agent { id: AgentId, update: AgentUpdate },
    /// The whole workflow finished (`Ok` = final JSON result, `Err` = message).
    WorkflowDone(Result<String, String>),
    /// Fatal engine error to surface before exit.
    EngineError(String),
}

/// What an [`AppEvent`] says.
pub enum EventView {
    Key(KeyEvent),
    Render,
    StepDeclared { step: StepId, title: Seq<char> },
    StepStatus { step: StepId, status: StepStatus },
    RunMeta { name: Seq<char>, phases: Seq<Seq<char>> },
    AgentSpawned {
        id: AgentId,
        step: StepId,
        label: Seq<char>,
        prompt: Seq<char>,
        group: Option<Seq<char>>,
    },
    Agent { id: AgentId, update: UpdateView },
    WorkflowDone(Result<Seq<char>, Seq<char>>),
    EngineError(Seq<char>),
}

impl View for AppEvent {
    type V = EventView;

    open spec fn view(&self) -> EventView {
        match *self {
            AppEvent::Key(k) => EventView::Key(k),
            AppEvent::Render => EventView::Render,
            AppEvent::StepDeclared { step, title } => EventView::StepDeclared {
                step,
                title: title@,
            },
            AppEvent::StepStatus { step, status } => EventView::StepStatus { step, status },
            AppEvent::RunMeta { name, phases } => EventView::RunMeta {
                name: name@,
                phases: text::texts(phases@),
            },
            AppEvent::AgentSpawned { id, step, label, prompt, group } => EventView::AgentSpawned {
                id,
                step,
                label: label@,
                prompt: prompt@,
                group: text::opt_text(group),
            },
            AppEvent::Agent { id, update } => EventView::Agent { id, update: update@ },
            AppEvent::WorkflowDone(r) => EventView::WorkflowDone(text::result_text(r)),
            AppEvent::EngineError(e) => EventView::EngineError(e@),
        }
    }
}

impl Clone for AppEvent {
    fn clone(&self) -> (r: Self)
        ensures
            r@ == self@,
    {
        match self {
            AppEvent::Key(k) => AppEvent::Key(*k),
            AppEvent::Render => AppEvent::Render,
            AppEvent::StepDeclared { step, title } => AppEvent::StepDeclared {
                step: *step,
                title: title.clone(),
            },
            AppEvent::StepStatus { step, status } => AppEvent::StepStatus {
                step: *step,
                status: *status,
            },
            AppEvent::RunMeta { name, phases } => AppEvent::RunMeta {
                name: name.clone(),
                phases: text::copied_all(phases),
            },
            AppEvent::AgentSpawned { id, step, label, prompt, group } => AppEvent::AgentSpawned {
                id: *id,
                step: *step,
                label: label.clone(),
                prompt: prompt.clone(),
                group: text::copied_opt(group),
            },
            AppEvent::Agent { id, update } => AppEvent::Agent { id: *id, update: update.clone() },
            AppEvent::WorkflowDone(r) => AppEvent::WorkflowDone(
                match r {
                    Ok(v) => Ok(v.clone()),
                    Err(e) => Err(e.clone()),
                },
            ),
            AppEvent::EngineError(e) => AppEvent::EngineError(e.clone()),
        }
    }
}

/// What a run of events says, in order.
pub open spec fn events_view(v: Seq<AppEvent>) -> Seq<EventView> {
    Seq::new(v.len(), |i: int| v[i]@)
}

// ── Raw agent JSON lines ──
//
// Unknown event and item types decode to `Other`, so an upgrade of the agent
// that adds variants does not break the stream.

/// Top-level event line.
#[derive(Debug)]
pub enum CodexEvent {
    ThreadStarted { thread_id: Option<String> },
    TurnStarted {  },
    TurnCompleted { usage: Option<Usage> },
    TurnFailed { error: Option<serde_json::Value> },
    ItemStarted { item: Item },
    ItemUpdated { item: Item },
    ItemCompleted { item: Item },
    Error { message: Option<String> },
    /// Any event type this version does not know.
    Other,
}

#[derive(Debug, Clone, Copy, PartialEq, Eq, Structural)]
pub struct Usage {
    pub input_tokens: u64,
    pub output_tokens: u64,
}

/// The `item` object carried by item events.
#[derive(Debug)]
pub enum Item {
    AgentMessage { text: String },
    Reasoning { text: String },
    CommandExecution { command: String, aggregated_output: String },
    FileChange { changes: serde_json::Value },
    McpToolCall { server: String, tool: String },
    WebSearch { query: String },
    Other,
}

/// The updates one item amounts to. Messages and reasoning count only when
/// there is text; a command without output carries none.
pub open spec fn item_updates(item: Item) -> Seq<UpdateView> {
    match item {
        Item::AgentMessage { text } => if text@.len() > 0 {
            seq![UpdateView::Message(text@)]
        } else {
            Seq::empty()
        },
        Item::Reasoning { text } => if text@.len() > 0 {
            seq![UpdateView::Reasoning(text@)]
        } else {
            Seq::empty()
        },
        Item::CommandExecution { command, aggregated_output } => seq![
            UpdateView::Command {
                command: command@,
                output: if aggregated_output@.len() > 0 {
                    Some(aggregated_output@)
                } else {
                    None
                },
            },
        ],
        Item::FileChange { changes } => seq![UpdateView::FileChange(json::json_text(changes))],
        Item::McpToolCall { server, tool } => seq![
            UpdateView::ToolCall(server@ + "/"@ + tool@),
        ],
        Item::WebSearch { query } => seq![UpdateView::WebSearch(query@)],
        Item::Other => Seq::empty(),
    }
}

/// The updates one raw event amounts to: token usage at turn end, a note plus
/// the failed status for a failed turn, a note for an error, and whatever the
/// carried item amounts to at any stage of its life.
pub open spec fn event_updates(ev: CodexEvent) -> Seq<UpdateView> {
    match ev {
        CodexEvent::TurnCompleted { usage } => match usage {
            Some(u) => seq![
                UpdateView::Tokens { input: u.input_tokens, output: u.output_tokens },
            ],
            None => Seq::empty(),
        },
        CodexEvent::TurnFailed { error } => seq![
            UpdateView::Note(
                "turn failed: "@ + match error {
                    Some(e) => json::json_text(e),
                    None => "unknown"@,
                },
            ),
            UpdateView::Status(AgentStatus::Failed),
        ],
        CodexEvent::Error { message } => seq![
            UpdateView::Note(
                "error: "@ + match message {
                    Some(m) => m@,
                    None => "unknown"@,
                },
            ),
        ],
        CodexEvent::ItemStarted { item } => item_updates(item),
        CodexEvent::ItemUpdated { item } => item_updates(item),
        CodexEvent::ItemCompleted { item } => item_updates(item),
        CodexEvent::ThreadStarted { .. } => Seq::empty(),
        CodexEvent::TurnStarted {  } => Seq::empty(),
        CodexEvent::Other => Seq::empty(),
    }
}

/// The updates carried by one list entry.
fn single(u: AgentUpdate) -> (r: Vec<AgentUpdate>)
    ensures
        updates_view(r@) == seq![u@],
{
    let mut r: Vec<AgentUpdate> = Vec::new();
    r.push(u);
    assert(updates_view(r@) =~= seq![u@]);
    r
}

fn none() -> (r: Vec<AgentUpdate>)
    ensures
        updates_view(r@) == Seq::<UpdateView>::empty(),
{
    let r: Vec<AgentUpdate> = Vec::new();
    assert(updates_view(r@) =~= Seq::<UpdateView>::empty());
    r
}

impl CodexEvent {
    /// Parse one line: `None` for a blank one, otherwise what `decode` makes of
    /// the line without surrounding white space.
    pub fn parse_line<E, F: FnOnce(&str) -> Result<CodexEvent, E>>(line: &str, decode: F) -> (r:
        Option<Result<CodexEvent, E>>)
        requires
            text::trimmed(line@).len() > 0 ==> forall|t: &str|
                t@ == text::trimmed(line@) ==> #[trigger] decode.requires((t,)),
        ensures
            match r {
                None => text::trimmed(line@).len() == 0,
                Some(out) => text::trimmed(line@).len() > 0 && exists|t: &str|
                    t@ == text::trimmed(line@) && #[trigger] decode.ensures((t,), out),
            },
    {
        let t = text::trim(line);
        if t.is_empty() {
            None
        } else {
            Some(decode(t))
        }
    }

    /// Collapse a raw event into zero or more normalized updates.
    pub fn into_updates(self) -> (r: Vec<AgentUpdate>)
        ensures
            updates_view(r@) == event_updates(self),
    {
        match self {
            CodexEvent::ThreadStarted { .. } => none(),
            CodexEvent::TurnStarted {  } => none(),
            CodexEvent::Other => none(),
            CodexEvent::TurnCompleted { usage } => match usage {
                Some(u) => single(
                    AgentUpdate::Tokens { input: u.input_tokens, output: u.output_tokens },
                ),
                None => none(),
            },
            CodexEvent::TurnFailed { error } => {
                let reason = match error {
                    Some(e) => json::write_json(&e),
                    None => text::copied("unknown"),
                };
                let mut r = single(
                    AgentUpdate::Note(text::concat2("turn failed: ", reason.as_str())),
                );
                let ghost before = r@;
                r.push(AgentUpdate::Status(AgentStatus::Failed));
                assert(updates_view(r@) =~= updates_view(before).push(
                    UpdateView::Status(AgentStatus::Failed),
                ));
                assert(updates_view(r@) =~= event_updates(self));
                r
            },
            CodexEvent::Error { message } => {
                let reason = match message {
                    Some(m) => m,
                    None => text::copied("unknown"),
                };
                single(AgentUpdate::Note(text::concat2("error: ", reason.as_str())))
            },
            CodexEvent::ItemStarted { item } => item.into_updates(),
            CodexEvent::ItemUpdated { item } => item.into_updates(),
            CodexEvent::ItemCompleted { item } => item.into_updates(),
        }
    }
}

impl Item {
    /// Collapse an item into zero or more normalized updates.
    pub fn into_updates(self) -> (r: Vec<AgentUpdate>)
        ensures
            updates_view(r@) == item_updates(self),
    {
        match self {
            Item::AgentMessage { text } => if text.as_str().is_empty() {
                none()
            } else {
                single(AgentUpdate::Message(text))
            },
            Item::Reasoning { text } => if text.as_str().is_empty() {
                none()
            } else {
                single(AgentUpdate::Reasoning(text))
            },
            Item::CommandExecution { command, aggregated_output } => {
                let output = if aggregated_output.as_str().is_empty() {
                    None
                } else {
                    Some(aggregated_output)
                };
                single(AgentUpdate::Command { command, output })
            },
            Item::FileChange { changes } => single(
                AgentUpdate::FileChange(json::write_json(&changes)),
            ),
            Item::McpToolCall { server, tool } => {
                let mut t = server;
                t.push_str("/");
                t.push_str(tool.as_str());
                single(AgentUpdate::ToolCall(t))
            },
            Item::WebSearch { query } => single(AgentUpdate::WebSearch(query)),
            Item::Other => none(),
        }
    }
}

} // verus!
