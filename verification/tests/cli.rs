//! Command line, printed lines and the failure summary.

use codex_flow::cli::args::{parse_command, Command, RunArgs, RESUME_USAGE};
use codex_flow::cli::output::{banner, event_line, result_line, Line};
use codex_flow::cli::{
    display_text, format_failures, parse_args_json, resolve_concurrency, workflow_args,
    FailureTracker,
};
use codex_flow::event::{AgentStatus, AgentUpdate, AppEvent, KeyCode, KeyEvent, StepStatus};

#[test]
fn concurrency_env_over_flag_over_default() {
    assert_eq!(
        resolve_concurrency(Some("32".into()), Some(4), 8),
        32,
        "explicit env honored verbatim (not clamped to 16)"
    );
    assert_eq!(resolve_concurrency(None, Some(4), 8), 4, "flag over default");
    assert_eq!(resolve_concurrency(None, None, 8), 6, "default = cores-2");
    assert_eq!(resolve_concurrency(None, None, 64), 16, "default clamped to 16");
    assert_eq!(resolve_concurrency(None, None, 2), 1, "default clamped to >=1");
    assert_eq!(
        resolve_concurrency(Some("0".into()), Some(4), 8),
        4,
        "env 0 is invalid -> fall through to flag"
    );
    assert_eq!(
        resolve_concurrency(Some("x".into()), None, 8),
        6,
        "env garbage -> default"
    );
}

#[test]
fn concurrency_edges() {
    assert_eq!(resolve_concurrency(Some(" 7 ".into()), None, 8), 7, "env is trimmed");
    assert_eq!(resolve_concurrency(None, Some(0), 8), 6, "flag 0 is no cap");
    assert_eq!(resolve_concurrency(None, Some(500), 8), 500);
    assert_eq!(resolve_concurrency(None, None, 0), 1);
    assert_eq!(resolve_concurrency(None, None, 3), 1);
    assert_eq!(resolve_concurrency(None, None, 4), 2);
    assert_eq!(resolve_concurrency(None, None, 17), 15);
    assert_eq!(resolve_concurrency(None, None, 18), 16);
    assert_eq!(resolve_concurrency(Some("-1".into()), None, 4), 2);
    assert_eq!(resolve_concurrency(Some("99999999999999999999999".into()), None, 4), 2);
}

#[test]
fn args_json_missing_valid_invalid() {
    assert_eq!(parse_args_json(None).unwrap(), serde_json::Value::Null);
    let mut m = serde_json::Map::new();
    m.insert("a".to_string(), serde_json::Value::from(1));
    assert_eq!(
        parse_args_json(Some("{\"a\":1}")).unwrap(),
        serde_json::Value::Object(m)
    );
    assert!(parse_args_json(Some("{bad")).is_err());
}

#[test]
fn args_json_error_names_the_cause() {
    let e = parse_args_json(Some("{bad")).unwrap_err();
    let cause = serde_json::from_str::<serde_json::Value>("{bad").unwrap_err().to_string();
    assert_eq!(e, format!("invalid args JSON: {cause}"));
    assert!(parse_args_json(Some("")).is_err(), "an empty document is no document");
}

#[test]
fn workflow_args_error_names_the_workflow() {
    assert_eq!(workflow_args("wf.js", None).unwrap(), serde_json::Value::Null);
    assert_eq!(workflow_args("wf.js", Some("[1]")).unwrap().to_string(), "[1]");
    let cause = parse_args_json(Some("{bad")).unwrap_err();
    assert_eq!(workflow_args("wf.js", Some("{bad")).unwrap_err(), format!("wf.js: {cause}"));
}

#[test]
fn format_failures_empty_is_none_else_block() {
    assert!(format_failures(&[]).is_none());
    let s = format_failures(&[
        ("a".into(), Some("boom".into())),
        ("b".into(), None),
    ])
    .unwrap();
    assert!(s.contains("FAILURES (2)"));
    assert!(s.contains("a: boom"));
    assert!(s.contains("- b"));
}

#[test]
fn format_failures_exact_text() {
    let s = format_failures(&[
        ("a".into(), Some("boom".into())),
        ("b".into(), None),
    ]);
    assert_eq!(s.unwrap(), "FAILURES (2):\n  - a: boom\n  - b");
}

#[test]
fn tracker_failure_carries_group_prefix() {
    let mut t = FailureTracker::new();
    t.observe(&AppEvent::AgentSpawned {
        id: 7,
        step: 1,
        label: "build".into(),
        prompt: "p".into(),
        group: Some("models.py".into()),
    });
    t.observe(&AppEvent::Agent {
        id: 7,
        update: AgentUpdate::Status(AgentStatus::Failed),
    });
    assert_eq!(t.failures()[0].0, "models.py/build");
}

#[test]
fn tracker_records_label_note_and_failed_only() {
    let mut t = FailureTracker::new();
    t.observe(&AppEvent::AgentSpawned {
        id: 1,
        step: 0,
        label: "alpha".into(),
        prompt: "p".into(),
        group: None,
    });
    t.observe(&AppEvent::Agent {
        id: 1,
        update: AgentUpdate::Note("boom reason".into()),
    });
    t.observe(&AppEvent::Agent {
        id: 1,
        update: AgentUpdate::Status(AgentStatus::Failed),
    });
    // A succeeding agent must NOT appear in failures.
    t.observe(&AppEvent::AgentSpawned {
        id: 2,
        step: 0,
        label: "beta".into(),
        prompt: "p".into(),
        group: None,
    });
    t.observe(&AppEvent::Agent {
        id: 2,
        update: AgentUpdate::Status(AgentStatus::Done),
    });
    let f = t.failures();
    assert_eq!(f.len(), 1);
    assert_eq!(f[0].0, "alpha");
    assert_eq!(f[0].1.as_deref(), Some("boom reason"));
}

#[test]
fn tracker_recovered_agent_not_listed() {
    let mut t = FailureTracker::new();
    t.observe(&AppEvent::AgentSpawned {
        id: 1,
        step: 0,
        label: "x".into(),
        prompt: "p".into(),
        group: None,
    });
    t.observe(&AppEvent::Agent {
        id: 1,
        update: AgentUpdate::Status(AgentStatus::Failed),
    });
    t.observe(&AppEvent::Agent {
        id: 1,
        update: AgentUpdate::Status(AgentStatus::Done),
    });
    assert!(t.failures().is_empty(), "recovered agent must not be listed");
}

#[test]
fn tracker_lists_once_in_failure_order_with_fallback_name() {
    let failed = |id: u64| AppEvent::Agent {
        id,
        update: AgentUpdate::Status(AgentStatus::Failed),
    };
    let mut t = FailureTracker::default();
    t.observe(&failed(9));
    t.observe(&failed(4));
    t.observe(&failed(9));
    let f = t.failures();
    assert_eq!(f.len(), 2);
    assert_eq!(f[0], ("agent-9".to_string(), None));
    assert_eq!(f[1], ("agent-4".to_string(), None));
    t.observe(&AppEvent::Render);
    assert_eq!(t.failures().len(), 2);
}

#[test]
fn display_name_folds_the_group_in() {
    assert_eq!(display_text(&Some("g".to_string()), "l"), "g/l");
    assert_eq!(display_text(&None, "l"), "l");
}

fn strings(v: &[&str]) -> Vec<String> {
    v.iter().map(|s| s.to_string()).collect()
}

fn run(v: &[&str]) -> RunArgs {
    match parse_command(strings(v)) {
        Ok(Command::Run(r)) => r,
        _ => panic!("expected a run"),
    }
}

#[test]
fn command_line_defaults() {
    let r = run(&[]);
    assert!(!r.tui);
    assert_eq!(r.concurrency, None);
    assert_eq!(r.resume, None);
    assert_eq!(r.workflow, "examples/hello.workflow.js");
    assert_eq!(r.args_json, None);
}

#[test]
fn command_line_positionals_and_flags_anywhere() {
    let r = run(&["wf.js", "--tui", "{}", "--concurrency", "16", "--resume", "abc-1"]);
    assert!(r.tui);
    assert_eq!(r.concurrency, Some(16));
    assert_eq!(r.resume.as_deref(), Some("abc-1"));
    assert_eq!(r.workflow, "wf.js");
    assert_eq!(r.args_json.as_deref(), Some("{}"));
}

#[test]
fn concurrency_without_a_number_keeps_the_workflow() {
    let r = run(&["--concurrency", "myflow.js"]);
    assert_eq!(r.concurrency, None);
    assert_eq!(r.workflow, "myflow.js");
    let r = run(&["wf.js", "--concurrency"]);
    assert_eq!(r.concurrency, None);
    assert_eq!(r.workflow, "wf.js");
}

#[test]
fn resume_without_a_run_id_is_refused() {
    for bad in [
        &["--resume"][..],
        &["--resume", "wf.js"][..],
        &["--resume", "--tui2", "wf.js"][..],
    ] {
        match parse_command(strings(bad)) {
            Err(m) => assert_eq!(m, RESUME_USAGE),
            Ok(_) => panic!("expected a refusal"),
        }
    }
    assert_eq!(
        RESUME_USAGE,
        "--resume requires a run id: codex-flow --resume <run_id> <workflow.js>"
    );
}

#[test]
fn bench_takes_numbers_or_defaults() {
    match parse_command(strings(&["bench"])) {
        Ok(Command::Bench { agents, per }) => assert_eq!((agents, per), (16, 200)),
        _ => panic!("expected bench"),
    }
    match parse_command(strings(&["bench", "100", "x"])) {
        Ok(Command::Bench { agents, per }) => assert_eq!((agents, per), (100, 200)),
        _ => panic!("expected bench"),
    }
    match parse_command(strings(&["wf.js", "bench"])) {
        Ok(Command::Run(r)) => assert_eq!(r.args_json.as_deref(), Some("bench")),
        _ => panic!("expected a run"),
    }
}

fn stderr(ev: AppEvent) -> String {
    match event_line(&ev) {
        Some(Line::Stderr(s)) => s,
        _ => panic!("expected a line on standard error"),
    }
}

#[test]
fn event_lines_read_as_documented() {
    assert_eq!(
        stderr(AppEvent::StepDeclared { step: 2, title: "Scan".into() }),
        "== step[2] Scan"
    );
    assert_eq!(
        stderr(AppEvent::StepStatus { step: 0, status: StepStatus::Running }),
        "== step[0] -> Running"
    );
    assert_eq!(
        stderr(AppEvent::AgentSpawned {
            id: 3,
            step: 0,
            label: "l".into(),
            prompt: "p".into(),
            group: Some("g".into()),
        }),
        "-- agent[3] (g) spawned: l"
    );
    assert_eq!(
        stderr(AppEvent::AgentSpawned {
            id: 3,
            step: 0,
            label: "l".into(),
            prompt: "p".into(),
            group: None,
        }),
        "-- agent[3] spawned: l"
    );
    assert_eq!(
        stderr(AppEvent::Agent { id: 1, update: AgentUpdate::Final("t".into()) }),
        "-- agent[1] FINAL: t"
    );
    assert_eq!(
        stderr(AppEvent::Agent { id: 0, update: AgentUpdate::Note("n".into()) }),
        "-- agent[0] note: n"
    );
    assert_eq!(stderr(AppEvent::EngineError("e".into())), "!! engine error: e");
    assert_eq!(
        stderr(AppEvent::RunMeta { name: "w".into(), phases: vec!["a".into(), "b".into()] }),
        "== workflow: w [phases: a, b]"
    );
}

#[test]
fn other_updates_print_their_debug_form() {
    for u in [
        AgentUpdate::Status(AgentStatus::Failed),
        AgentUpdate::Status(AgentStatus::Pending),
        AgentUpdate::Reasoning("a \"b\"\n\u{1}é".into()),
        AgentUpdate::Command { command: "ls".into(), output: Some("x\ty".into()) },
        AgentUpdate::Command { command: "ls".into(), output: None },
        AgentUpdate::FileChange("f".into()),
        AgentUpdate::ToolCall("s/t".into()),
        AgentUpdate::WebSearch("q".into()),
        AgentUpdate::Message("m".into()),
        AgentUpdate::Tokens { input: 12, output: 345 },
    ] {
        let want = format!("-- agent[5] {u:?}");
        assert_eq!(stderr(AppEvent::Agent { id: 5, update: u }), want);
    }
}

#[test]
fn step_statuses_print_their_names() {
    for (s, name) in [
        (StepStatus::Pending, "Pending"),
        (StepStatus::Running, "Running"),
        (StepStatus::Done, "Done"),
        (StepStatus::Failed, "Failed"),
    ] {
        assert_eq!(
            stderr(AppEvent::StepStatus { step: 1, status: s }),
            format!("== step[1] -> {name}")
        );
    }
}

#[test]
fn only_results_go_to_standard_output() {
    match event_line(&AppEvent::WorkflowDone(Ok("{}".into()))) {
        Some(Line::Stdout(s)) => assert_eq!(s, "RESULT: {}"),
        _ => panic!("expected standard output"),
    }
    match event_line(&AppEvent::WorkflowDone(Err("e".into()))) {
        Some(Line::Stdout(s)) => assert_eq!(s, "ERROR: e"),
        _ => panic!("expected standard output"),
    }
    assert!(event_line(&AppEvent::Render).is_none());
    let k = KeyEvent { code: KeyCode::Up, control: false, release: false };
    assert!(event_line(&AppEvent::Key(k)).is_none());
    assert_eq!(result_line(&Ok("1".into())), "RESULT: 1");
    assert_eq!(result_line(&Err("1".into())), "ERROR: 1");
}

#[test]
fn banner_says_how_to_resume() {
    assert_eq!(
        banner("5f-1", false, "wf.js"),
        "== run 5f-1  (resume: codex-flow --resume 5f-1 wf.js)"
    );
    assert_eq!(
        banner("5f-1", true, "wf.js"),
        "== run 5f-1 [resumed]  (resume: codex-flow --resume 5f-1 wf.js)"
    );
}
