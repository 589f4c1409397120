//! Raw agent lines and the updates they amount to.

use codex_flow::event::{AgentStatus, AgentUpdate, AppEvent, CodexEvent, Item, Usage};

fn shown(ups: Vec<AgentUpdate>) -> Vec<String> {
    ups.iter().map(|u| format!("{u:?}")).collect()
}

#[test]
fn blank_lines_are_skipped_and_others_trimmed() {
    let r = CodexEvent::parse_line::<String, _>(" \t ", |_| panic!("not read"));
    assert!(r.is_none());
    let r = CodexEvent::parse_line::<String, _>("  x ", |s| {
        assert_eq!(s, "x");
        Err("no".into())
    });
    match r {
        Some(Err(e)) => assert_eq!(e, "no"),
        _ => panic!("expected the decoder's error"),
    }
}

#[test]
fn events_amount_to_updates() {
    assert!(CodexEvent::ThreadStarted { thread_id: Some("t".into()) }.into_updates().is_empty());
    assert!(CodexEvent::TurnStarted {}.into_updates().is_empty());
    assert!(CodexEvent::Other.into_updates().is_empty());
    assert!(CodexEvent::TurnCompleted { usage: None }.into_updates().is_empty());
    assert_eq!(
        shown(
            CodexEvent::TurnCompleted { usage: Some(Usage { input_tokens: 1, output_tokens: 2 }) }
                .into_updates()
        ),
        vec!["Tokens { input: 1, output: 2 }"]
    );
    assert_eq!(
        shown(CodexEvent::TurnFailed { error: None }.into_updates()),
        vec!["Note(\"turn failed: unknown\")", "Status(Failed)"]
    );
    let v: serde_json::Value = serde_json::from_str("{\"message\": \"x\"}").unwrap();
    assert_eq!(
        shown(CodexEvent::TurnFailed { error: Some(v) }.into_updates()),
        vec!["Note(\"turn failed: {\\\"message\\\":\\\"x\\\"}\")", "Status(Failed)"]
    );
    assert_eq!(
        shown(CodexEvent::Error { message: Some("e".into()) }.into_updates()),
        vec!["Note(\"error: e\")"]
    );
    assert_eq!(
        shown(CodexEvent::Error { message: None }.into_updates()),
        vec!["Note(\"error: unknown\")"]
    );
}

#[test]
fn items_amount_to_updates_at_any_stage() {
    let msg = || Item::AgentMessage { text: "hi".into() };
    for ev in [
        CodexEvent::ItemStarted { item: msg() },
        CodexEvent::ItemUpdated { item: msg() },
        CodexEvent::ItemCompleted { item: msg() },
    ] {
        assert_eq!(shown(ev.into_updates()), vec!["Message(\"hi\")"]);
    }
    assert!(Item::AgentMessage { text: "".into() }.into_updates().is_empty());
    assert!(Item::Reasoning { text: "".into() }.into_updates().is_empty());
    assert_eq!(
        shown(Item::Reasoning { text: "r".into() }.into_updates()),
        vec!["Reasoning(\"r\")"]
    );
    assert_eq!(
        shown(
            Item::CommandExecution { command: "ls".into(), aggregated_output: "".into() }
                .into_updates()
        ),
        vec!["Command { command: \"ls\", output: None }"]
    );
    assert_eq!(
        shown(
            Item::CommandExecution { command: "ls".into(), aggregated_output: "o".into() }
                .into_updates()
        ),
        vec!["Command { command: \"ls\", output: Some(\"o\") }"]
    );
    let v: serde_json::Value = serde_json::from_str("[ 1, 2 ]").unwrap();
    assert_eq!(
        shown(Item::FileChange { changes: v }.into_updates()),
        vec!["FileChange(\"[1,2]\")"]
    );
    assert_eq!(
        shown(Item::McpToolCall { server: "s".into(), tool: "t".into() }.into_updates()),
        vec!["ToolCall(\"s/t\")"]
    );
    assert_eq!(
        shown(Item::WebSearch { query: "q".into() }.into_updates()),
        vec!["WebSearch(\"q\")"]
    );
    assert!(Item::Other.into_updates().is_empty());
}

#[test]
fn events_clone_to_equal_events() {
    let ev = AppEvent::Agent { id: 4, update: AgentUpdate::Status(AgentStatus::Running) };
    assert_eq!(format!("{:?}", ev.clone()), format!("{ev:?}"));
    let ev = AppEvent::AgentSpawned {
        id: 1,
        step: 2,
        label: "l".into(),
        prompt: "p".into(),
        group: Some("g".into()),
    };
    assert_eq!(format!("{:?}", ev.clone()), format!("{ev:?}"));
    let ev = AppEvent::WorkflowDone(Err("e".into()));
    assert_eq!(format!("{:?}", ev.clone()), format!("{ev:?}"));
}
