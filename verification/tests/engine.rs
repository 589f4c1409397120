//! What a script's calls turn into.

use codex_flow::codex::AgentSpec;
use codex_flow::engine::script::{
    bootstrap_source, prelude_source, resolve, virtual_source, Import,
};
use codex_flow::engine::{
    budget_json, done_event, final_step_status, launch, left_step, log_event, meta_event,
    open_journal, schema_file, settle, spawned_event, Engine, JsAgentSpec, JsMeta, Plan,
    ISOLATE_CONFLICT,
};
use codex_flow::event::{AppEvent, StepStatus};
use codex_flow::journal::{FileRead, Journal, JournalEntry};
use codex_flow::registry::TypeFile;

#[test]
fn step_terminal_sequence() {
    // The first phase leaves no predecessor; each later phase completes the
    // one before it (phase() indices are dense from 0, so prev == step - 1).
    assert_eq!(left_step(0), None);
    assert_eq!(left_step(1), Some(0));
    assert_eq!(left_step(2), Some(1));
    // At run end the current step is finalized by the workflow's outcome.
    assert_eq!(final_step_status(true), StepStatus::Done);
    assert_eq!(final_step_status(false), StepStatus::Failed);
}

#[test]
fn prelude_is_seven_bit_ascii() {
    let src = prelude_source();
    assert!(
        src.is_ascii(),
        "prelude.js must be 7-bit ASCII (deno_core extension constraint)"
    );
}

#[test]
fn scripts_install_and_import_what_they_name() {
    let p = prelude_source();
    for name in ["agent", "parallel", "pipeline", "phase", "log", "args", "budget"] {
        assert!(p.contains(&format!("globalThis.{name} = ")), "{name}");
    }
    let b = bootstrap_source();
    assert!(b.contains("import * as user from \"workflow:main\";"));
    assert!(b.contains("user.default ?? user.run ?? user.workflow"));
}

#[test]
fn imports_resolve() {
    assert_eq!(resolve("workflow:main", "workflow:bootstrap"), Import::Workflow);
    assert_eq!(resolve("workflow:bootstrap", "."), Import::Bootstrap);
    assert_eq!(resolve("./lib.js", "workflow:bootstrap"), Import::FromWorkflow);
    assert_eq!(resolve("./lib.js", "file:///w/wf.js"), Import::FromReferrer);
    assert_eq!(virtual_source("workflow:bootstrap"), Some(bootstrap_source()));
    assert_eq!(virtual_source("workflow:main"), None);
}

fn call(id: u64, prompt: &str) -> JsAgentSpec {
    JsAgentSpec {
        id,
        label: "l".into(),
        step: 2,
        prompt: prompt.into(),
        model: None,
        sandbox: None,
        schema: None,
        cwd: None,
        isolate: false,
        timeout_ms: None,
        agent_type: None,
        group: Some("g".into()),
    }
}

fn unread(_: &str) -> TypeFile {
    panic!("no type to read")
}

fn started(p: Plan) -> (String, u32, String) {
    match p {
        Plan::Start { key, occ, prompt } => (key, occ, prompt),
        Plan::Refuse(m) => panic!("refused: {m}"),
        Plan::Replay { result, .. } => panic!("replayed: {result}"),
    }
}

fn refused(p: Plan) -> String {
    match p {
        Plan::Refuse(m) => m,
        _ => panic!("expected a refusal"),
    }
}

#[test]
fn isolate_and_cwd_exclude_each_other() {
    let mut e = Engine::new(None, Journal::new());
    let c = JsAgentSpec {
        isolate: true,
        cwd: Some("/d".into()),
        agent_type: Some("t".into()),
        ..call(1, "p")
    };
    let m = refused(e.on_agent(&c, 0, unread));
    assert_eq!(m, ISOLATE_CONFLICT);
    assert_eq!(
        m,
        "agent opts: `isolate`/`isolation` and `cwd` are mutually exclusive — an isolated agent runs at its worktree root"
    );
    assert_eq!(e.calls, 0);
}

#[test]
fn type_framing_goes_before_the_prompt() {
    let mut e = Engine::new(None, Journal::new());
    let c = JsAgentSpec { agent_type: Some("auditor".into()), ..call(1, "do it") };
    let (key, occ, prompt) = started(e.on_agent(&c, 0, |name| {
        assert_eq!(name, "auditor.md");
        TypeFile::Text("---\na: b\n---\nBe strict.\n".into())
    }));
    assert_eq!(prompt, "Be strict.\n\ndo it");
    assert_eq!(occ, 0);
    // The framed prompt is the identity: another framing is another call.
    let (key2, occ2, _) =
        started(e.on_agent(&c, 0, |_| TypeFile::Text("Be lenient.".into())));
    assert_ne!(key, key2);
    assert_eq!(occ2, 0);
}

#[test]
fn missing_or_bad_types_refuse_the_call() {
    let mut e = Engine::new(None, Journal::new());
    let c = JsAgentSpec { agent_type: Some("../x".into()), ..call(1, "p") };
    assert_eq!(
        refused(e.on_agent(&c, 0, unread)),
        "agentType \"../x\": invalid type name"
    );
    let c = JsAgentSpec { agent_type: Some("gone".into()), ..call(1, "p") };
    assert_eq!(
        refused(e.on_agent(&c, 0, |_| TypeFile::Unreadable {
            path: "/a/gone.md".into(),
            error: "missing".into()
        })),
        "agentType \"gone\": cannot read /a/gone.md: missing"
    );
    assert_eq!(e.calls, 0);
}

#[test]
fn cosmetic_options_keep_the_key_and_count_occurrences() {
    let mut e = Engine::new(None, Journal::new());
    let a = call(1, "p");
    let b = JsAgentSpec {
        id: 9,
        label: "other".into(),
        step: 0,
        timeout_ms: Some(5),
        group: None,
        ..call(9, "p")
    };
    let (k1, o1, _) = started(e.on_agent(&a, 0, unread));
    let (k2, o2, _) = started(e.on_agent(&b, 0, unread));
    assert_eq!(k1, k2);
    assert_eq!((o1, o2), (0, 1));
    let c = JsAgentSpec { model: Some("m".into()), ..call(2, "p") };
    let (k3, o3, _) = started(e.on_agent(&c, 0, unread));
    assert_ne!(k1, k3);
    assert_eq!(o3, 0);
    assert!(e.has_room());
}

#[test]
fn budget_refuses_new_calls_but_not_replays() {
    let mut first = Engine::new(Some(100), Journal::new());
    let c = call(1, "p");
    let (key, occ, _) = started(first.on_agent(&c, 99, unread));
    let mut lines = String::new();
    let sink = std::cell::RefCell::new(&mut lines);
    let ev = first.record_result(1, key, occ, "answer".into(), |line| {
        sink.borrow_mut().push_str(line);
        Ok(())
    });
    assert!(ev.is_none());
    assert_eq!(
        refused(first.on_agent(&call(2, "q"), 100, unread)),
        "budget exceeded: 100 output tokens spent >= total 100"
    );
    // A later run that loaded the line answers the same call for free.
    let j = Journal::load(FileRead::Text(lines.clone()), decode).unwrap();
    let mut later = Engine::new(Some(100), j);
    match later.on_agent(&c, 1000, unread) {
        Plan::Replay { events, result } => {
            assert_eq!(result, "answer");
            let shown: Vec<String> = events.iter().map(|e| format!("{e:?}")).collect();
            assert_eq!(
                shown,
                vec![
                    "AgentSpawned { id: 1, step: 2, label: \"l\", prompt: \"p\", group: Some(\"g\") }",
                    "Agent { id: 1, update: Note(\"resumed from journal\") }",
                    "Agent { id: 1, update: Final(\"answer\") }",
                    "Agent { id: 1, update: Status(Done) }",
                ]
            );
        }
        _ => panic!("expected a replay"),
    }
    // The second identical call is another sample.
    assert_eq!(
        refused(later.on_agent(&c, 1000, unread)),
        "budget exceeded: 1000 output tokens spent >= total 100"
    );
}

fn decode(line: &str) -> Option<JournalEntry> {
    let v: serde_json::Value = serde_json::from_str(line).ok()?;
    Some(JournalEntry {
        key: v.get("key")?.as_str()?.to_string(),
        occ: u32::try_from(v.get("occ")?.as_u64()?).ok()?,
        result: v.get("result")?.as_str()?.to_string(),
    })
}

#[test]
fn resumed_run_replays_call_by_call() {
    let prompts = ["a", "b", "a", "a", "c"];
    let mut first = Engine::new(None, Journal::new());
    let mut file = String::new();
    let mut filed = Vec::new();
    for (i, p) in prompts.iter().enumerate() {
        let (key, occ, _) = started(first.on_agent(&call(i as u64 + 1, p), 0, unread));
        filed.push((key, occ));
    }
    assert_eq!(filed.iter().map(|f| f.1).collect::<Vec<_>>(), vec![0, 0, 1, 2, 0]);
    // The answers arrive in another order than the calls.
    for i in [3usize, 0, 4, 2, 1] {
        let sink = std::cell::RefCell::new(&mut file);
        let (key, occ) = filed[i].clone();
        first.record_result(i as u64 + 1, key, occ, format!("answer {i}"), |line| {
            sink.borrow_mut().push_str(line);
            Ok(())
        });
    }
    let mut later = Engine::new(Some(1), Journal::load(FileRead::Text(file), decode).unwrap());
    for (i, p) in prompts.iter().enumerate() {
        let again = JsAgentSpec {
            label: "other".into(),
            step: 9,
            group: None,
            timeout_ms: Some(5),
            ..call(i as u64 + 100, p)
        };
        match later.on_agent(&again, 1, unread) {
            Plan::Replay { result, .. } => assert_eq!(result, format!("answer {i}")),
            _ => panic!("expected a replay"),
        }
    }
}

#[test]
fn failed_append_is_announced_under_the_agent() {
    let mut e = Engine::new(None, Journal::new());
    let (key, occ, _) = started(e.on_agent(&call(5, "p"), 0, unread));
    let ev = e.record_result(5, key.clone(), occ, "r".into(), |_| Err("read-only".into()));
    assert_eq!(
        format!("{:?}", ev.unwrap()),
        "Agent { id: 5, update: Note(\"journal append failed: read-only\") }"
    );
    assert_eq!(e.journal.get(&key, occ), None);
}

#[test]
fn phases_close_the_one_before() {
    let mut e = Engine::new(None, Journal::new());
    assert!(e.can_enter());
    assert!(e.on_end(true).is_none());
    let (n, evs) = e.on_phase("A".into());
    assert_eq!(n, 0);
    let shown: Vec<String> = evs.iter().map(|e| format!("{e:?}")).collect();
    assert_eq!(
        shown,
        vec![
            "StepDeclared { step: 0, title: \"A\" }",
            "StepStatus { step: 0, status: Running }"
        ]
    );
    let (n, evs) = e.on_phase("B".into());
    assert_eq!(n, 1);
    let shown: Vec<String> = evs.iter().map(|e| format!("{e:?}")).collect();
    assert_eq!(
        shown,
        vec![
            "StepStatus { step: 0, status: Done }",
            "StepDeclared { step: 1, title: \"B\" }",
            "StepStatus { step: 1, status: Running }"
        ]
    );
    assert_eq!(
        format!("{:?}", e.on_end(false).unwrap()),
        "StepStatus { step: 1, status: Failed }"
    );
    assert_eq!(
        format!("{:?}", e.on_end(true).unwrap()),
        "StepStatus { step: 1, status: Done }"
    );
}

#[test]
fn launch_carries_the_call_over() {
    let c = JsAgentSpec {
        model: Some("m".into()),
        schema: Some("{}".into()),
        timeout_ms: Some(9),
        isolate: true,
        ..call(4, "raw")
    };
    let s: AgentSpec = launch(c, "framed".into(), Some("/t/schema-4.json".into()), "/w", "/t");
    assert_eq!(s.id, 4);
    assert_eq!(s.step, 2);
    assert_eq!(s.label, "l");
    assert_eq!(s.prompt, "framed");
    assert_eq!(s.model.as_deref(), Some("m"));
    assert_eq!(s.sandbox, None);
    assert_eq!(s.cwd, None);
    assert_eq!(s.output_schema.as_deref(), Some("/t/schema-4.json"));
    assert_eq!(s.timeout_ms, Some(9));
    let w = s.worktree.unwrap();
    assert_eq!((w.repo.as_str(), w.base.as_str()), ("/w", "/t"));
    assert!(launch(call(1, "p"), "p".into(), None, "/w", "/t").worktree.is_none());
    assert_eq!(schema_file(4), "schema-4.json");
}

#[test]
fn small_requests_become_events() {
    assert_eq!(
        format!("{:?}", log_event("hi".into())),
        "Agent { id: 0, update: Note(\"hi\") }"
    );
    assert_eq!(
        format!("{:?}", meta_event(JsMeta { name: "n".into(), phases: vec!["a".into()] })),
        "RunMeta { name: \"n\", phases: [\"a\"] }"
    );
    assert_eq!(
        format!("{:?}", spawned_event(&call(1, "raw"), "framed")),
        "AgentSpawned { id: 1, step: 2, label: \"l\", prompt: \"framed\", group: Some(\"g\") }"
    );
    assert_eq!(budget_json(None), serde_json::Value::Null);
    assert_eq!(budget_json(Some(u64::MAX)), serde_json::Value::from(u64::MAX));
}

#[test]
fn runs_end_in_a_result() {
    assert_eq!(
        settle(Some(Ok(serde_json::Value::Bool(true)))),
        Ok(serde_json::Value::Bool(true))
    );
    assert_eq!(settle(Some(Err("boom".into()))), Err("boom".into()));
    assert_eq!(settle(None), Err("workflow produced no result".into()));
    let v: serde_json::Value = serde_json::from_str("{ \"a\" : [1] }").unwrap();
    match done_event(&Ok(v)) {
        AppEvent::WorkflowDone(Ok(t)) => assert_eq!(t, "{\"a\":[1]}"),
        _ => panic!("expected a result"),
    }
    match done_event(&Err("e".into())) {
        AppEvent::WorkflowDone(Err(t)) => assert_eq!(t, "e"),
        _ => panic!("expected an error"),
    }
}

#[test]
fn unreadable_journal_is_said_loudly() {
    let (j, ev) = open_journal("runs/x.jsonl", FileRead::Failed("denied".into()), decode);
    assert_eq!(
        format!("{:?}", ev.unwrap()),
        "Agent { id: 0, update: Note(\"journal runs/x.jsonl unreadable (denied); starting fresh\") }"
    );
    assert_eq!(j.get("k", 0), None);
    let (_, ev) = open_journal("runs/x.jsonl", FileRead::Missing, decode);
    assert!(ev.is_none());
    let line = "{\"key\":\"k\",\"occ\":0,\"result\":\"r\"}";
    let (j, ev) = open_journal("runs/x.jsonl", FileRead::Text(line.into()), decode);
    assert!(ev.is_none());
    assert_eq!(j.get("k", 0), Some("r"));
}
