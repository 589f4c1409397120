//! What the raw events of an agent amount to, and what an event keeps of the
//! values it is made of.

use vstd::prelude::*;

use crate::event;
use crate::event::{
    AgentId, AgentStatus, AgentUpdate, AppEvent, CodexEvent, EventView, Item, StepId, StepStatus,
    UpdateView, Usage,
};
use crate::json;
use crate::text;

verus! {

/// An item amounts to the same updates whether it was started, updated or
/// completed.
pub proof fn law_every_stage_of_an_item_counts(item: Item)
    ensures
        event::event_updates(CodexEvent::ItemStarted { item }) == event::event_updates(
            CodexEvent::ItemCompleted { item },
        ),
        event::event_updates(CodexEvent::ItemUpdated { item }) == event::event_updates(
            CodexEvent::ItemCompleted { item },
        ),
{
}

/// A completed message that has text gives one update, a message with that text;
/// without text it gives none.
pub proof fn law_completed_message_is_heard(text: String)
    ensures
        ({
            let ups = event::event_updates(
                CodexEvent::ItemCompleted { item: Item::AgentMessage { text } },
            );
            if text@.len() > 0 {
                ups.len() == 1 && ups[0] == UpdateView::Message(text@)
            } else {
                ups.len() == 0
            }
        }),
{
}

/// Completed reasoning that has text gives one update, reasoning with that text;
/// without text it gives none.
pub proof fn law_completed_reasoning_is_heard(text: String)
    ensures
        ({
            let ups = event::event_updates(
                CodexEvent::ItemCompleted { item: Item::Reasoning { text } },
            );
            if text@.len() > 0 {
                ups.len() == 1 && ups[0] == UpdateView::Reasoning(text@)
            } else {
                ups.len() == 0
            }
        }),
{
}

/// A completed command gives one update with the command; its output is there
/// exactly when there was some.
pub proof fn law_completed_command_is_heard(command: String, aggregated_output: String)
    ensures
        ({
            let ups = event::event_updates(
                CodexEvent::ItemCompleted {
                    item: Item::CommandExecution { command, aggregated_output },
                },
            );
            &&& ups.len() == 1
            &&& ups[0] matches UpdateView::Command { command: c, output: o } && c == command@ && (
            match o {
                Some(t) => t.len() > 0 && t == aggregated_output@,
                None => aggregated_output@.len() == 0,
            })
        }),
{
}

/// A completed file change gives one update, a file change with the changes as
/// JSON text.
pub proof fn law_completed_file_change_is_heard(changes: serde_json::Value)
    ensures
        ({
            let ups = event::event_updates(
                CodexEvent::ItemCompleted { item: Item::FileChange { changes } },
            );
            ups.len() == 1 && ups[0] == UpdateView::FileChange(json::json_text(changes))
        }),
{
}

/// A completed tool call gives one update, a tool call that names the server, a
/// slash and the tool.
pub proof fn law_completed_tool_call_is_heard(server: String, tool: String)
    ensures
        ({
            let ups = event::event_updates(
                CodexEvent::ItemCompleted { item: Item::McpToolCall { server, tool } },
            );
            &&& ups.len() == 1
            &&& ups[0] matches UpdateView::ToolCall(t) && t.len() == server@.len() + 1 + tool@.len()
                && t.take(server@.len() as int) == server@ && t[server@.len() as int] == '/'
                && t.skip(server@.len() as int + 1) == tool@
        }),
{
    reveal_strlit("/");
    let t = server@ + "/"@ + tool@;
    assert(t.take(server@.len() as int) =~= server@);
    assert(t.skip(server@.len() as int + 1) =~= tool@);
}

/// A completed web search gives one update, a web search with its query.
pub proof fn law_completed_web_search_is_heard(query: String)
    ensures
        ({
            let ups = event::event_updates(
                CodexEvent::ItemCompleted { item: Item::WebSearch { query } },
            );
            ups.len() == 1 && ups[0] == UpdateView::WebSearch(query@)
        }),
{
}

/// A turn that reports its usage gives both counts, each in its own place; one
/// that reports none gives nothing.
pub proof fn law_turn_reports_its_tokens(usage: Usage)
    ensures
        ({
            let ups = event::event_updates(CodexEvent::TurnCompleted { usage: Some(usage) });
            &&& ups.len() == 1
            &&& ups[0] matches UpdateView::Tokens { input, output } && input == usage.input_tokens
                && output == usage.output_tokens
        }),
        ({
            let ups = event::event_updates(CodexEvent::TurnCompleted { usage: None });
            ups.len() == 0
        }),
{
}

/// A failed turn is told first, with its error, and then fails the agent.
pub proof fn law_failed_turn_fails_the_agent(error: serde_json::Value)
    ensures
        ({
            let ups = event::event_updates(CodexEvent::TurnFailed { error: Some(error) });
            &&& ups.len() == 2
            &&& ups[0] matches UpdateView::Note(n) && text::ends_with(n, json::json_text(error))
            &&& ups[1] == UpdateView::Status(AgentStatus::Failed)
        }),
        ({
            let ups = event::event_updates(CodexEvent::TurnFailed { error: None });
            &&& ups.len() == 2
            &&& ups[0] is Note
            &&& ups[1] == UpdateView::Status(AgentStatus::Failed)
        }),
{
    text::laws::law_part_is_contained(
        "turn failed: "@,
        json::json_text(error),
        Seq::<char>::empty(),
    );
}

/// An error is told with its message and changes no status.
pub proof fn law_error_is_only_told(message: String)
    ensures
        ({
            let ups = event::event_updates(CodexEvent::Error { message: Some(message) });
            &&& ups.len() == 1
            &&& ups[0] matches UpdateView::Note(n) && text::ends_with(n, message@)
        }),
        event::event_updates(CodexEvent::Error { message: None }).len() == 1,
        event::event_updates(CodexEvent::Error { message: None })[0] is Note,
{
    text::laws::law_part_is_contained("error: "@, message@, Seq::<char>::empty());
}

/// The start of a thread or a turn, and whatever is unknown, amounts to nothing.
pub proof fn law_framing_events_are_silent(thread_id: Option<String>)
    ensures
        event::event_updates(CodexEvent::ThreadStarted { thread_id }).len() == 0,
        event::event_updates(CodexEvent::TurnStarted {  }).len() == 0,
        event::event_updates(CodexEvent::Other).len() == 0,
        event::event_updates(CodexEvent::ItemCompleted { item: Item::Other }).len() == 0,
{
}

/// No raw event ends an agent well or fills in its result: only a failed turn
/// touches the status, and none yields a final payload.
pub proof fn law_stream_never_succeeds_by_itself(ev: CodexEvent, i: int)
    requires
        0 <= i < event::event_updates(ev).len(),
    ensures
        event::event_updates(ev)[i] !is Final,
        event::event_updates(ev)[i] matches UpdateView::Status(s) ==> s == AgentStatus::Failed
            && ev is TurnFailed,
{
}

/// Viewing updates or events keeps their number and their order.
pub proof fn law_views_keep_every_entry(ups: Seq<AgentUpdate>, evs: Seq<AppEvent>, i: int)
    ensures
        event::updates_view(ups).len() == ups.len(),
        0 <= i < ups.len() ==> event::updates_view(ups)[i] == ups[i]@,
        event::events_view(evs).len() == evs.len(),
        0 <= i < evs.len() ==> event::events_view(evs)[i] == evs[i]@,
{
}

/// An update says the text it was made with.
pub proof fn law_update_says_its_text(t: String)
    ensures
        AgentUpdate::Reasoning(t)@ == UpdateView::Reasoning(t@),
        AgentUpdate::FileChange(t)@ == UpdateView::FileChange(t@),
        AgentUpdate::ToolCall(t)@ == UpdateView::ToolCall(t@),
        AgentUpdate::WebSearch(t)@ == UpdateView::WebSearch(t@),
        AgentUpdate::Message(t)@ == UpdateView::Message(t@),
        AgentUpdate::Final(t)@ == UpdateView::Final(t@),
        AgentUpdate::Note(t)@ == UpdateView::Note(t@),
{
}

/// A command says what ran, and its output exactly when it has one.
pub proof fn law_command_says_its_output(command: String, output: Option<String>)
    ensures
        ({
            let u = AgentUpdate::Command { command, output };
            &&& u@ matches UpdateView::Command { command: c, output: o } && c == command@ && (o
                is Some <==> output is Some) && (o is Some ==> o->0 == output->0@)
        }),
{
}

/// An update says the status or the counts it was made with.
pub proof fn law_update_says_its_numbers(s: AgentStatus, i: u64, o: u64)
    ensures
        AgentUpdate::Status(s)@ == UpdateView::Status(s),
        ({
            let u = AgentUpdate::Tokens { input: i, output: o };
            &&& u@ matches UpdateView::Tokens { input, output } && input == i && output == o
        }),
{
}

/// A spawn event says everything it was made with.
pub proof fn law_spawn_says_everything(
    id: AgentId,
    step: StepId,
    label: String,
    prompt: String,
    group: Option<String>,
)
    ensures
        ({
            let e = AppEvent::AgentSpawned { id, step, label, prompt, group };
            &&& e@ matches EventView::AgentSpawned { id: i, step: s, label: l, prompt: p, group: g }
                && i == id && s == step && l == label@ && p == prompt@ && (g is Some <==> group
                is Some) && (g is Some ==> g->0 == group->0@)
        }),
{
}

/// A progress event says whose update it is and which.
pub proof fn law_progress_says_whose(id: AgentId, update: AgentUpdate)
    ensures
        ({
            let e = AppEvent::Agent { id, update };
            &&& e@ matches EventView::Agent { id: i, update: u } && i == id && u == update@
        }),
{
}

/// The events of a step say which step it is, its title and its status.
pub proof fn law_step_events_say_everything(step: StepId, title: String, status: StepStatus)
    ensures
        ({
            let e = AppEvent::StepDeclared { step, title };
            &&& e@ matches EventView::StepDeclared { step: s, title: t } && s == step && t == title@
        }),
        ({
            let e = AppEvent::StepStatus { step, status };
            &&& e@ matches EventView::StepStatus { step: s, status: x } && s == step && x == status
        }),
{
}

/// The events of a run say its name, its phases and its outcome.
pub proof fn law_run_events_say_everything(t: String, phases: Vec<String>)
    ensures
        AppEvent::WorkflowDone(Ok(t))@ == EventView::WorkflowDone(Ok(t@)),
        AppEvent::WorkflowDone(Err(t))@ == EventView::WorkflowDone(Err(t@)),
        AppEvent::EngineError(t)@ == EventView::EngineError(t@),
        ({
            let e = AppEvent::RunMeta { name: t, phases };
            &&& e@ matches EventView::RunMeta { name: n, phases: p } && n == t@ && p.len()
                == phases@.len() && (forall|i: int|
                0 <= i < p.len() ==> #[trigger] p[i] == phases@[i]@)
        }),
{
}

} // verus!
