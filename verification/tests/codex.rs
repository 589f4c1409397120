//! One agent's run.

use codex_flow::codex::{
    augment_prompt, backoff_ms, budget_delta, budget_refusal, build_args, classify_parsed,
    classify_text, codex_bin, conclude, env_timeout_ms, over_budget, permits, read_error_note,
    resolve_budget, resolve_max_attempts, resolve_timeout, spent_by, stderr_note, weigh, weigh_text, Action,
    AgentRun, AgentSpec, Attempt, Ended, Transcript, Turn, Usable,
};
use codex_flow::event::{AgentStatus, AgentUpdate, CodexEvent, Item, Usage};
use codex_flow::worktree::WorktreeSpec;

#[test]
fn classify_no_schema_nonempty_is_usable() {
    assert_eq!(classify_text("hello", false), Usable::Yes);
    // Without a schema, non-JSON text is still a valid (string) result.
    assert_eq!(classify_text("not json at all", false), Usable::Yes);
}

#[test]
fn classify_empty_or_whitespace_is_retryable() {
    assert_eq!(classify_text("   \n\t ", false), Usable::Empty);
    assert_eq!(classify_text("", true), Usable::Empty);
}

#[test]
fn classify_schema_requires_valid_json() {
    assert_eq!(classify_text("{\"a\":1}", true), Usable::Yes);
    match classify_text("{ not json", true) {
        Usable::BadJson(_) => {}
        other => panic!("expected BadJson, got {other:?}"),
    }
}

#[test]
fn classify_carries_the_parse_error() {
    let want = serde_json::from_str::<serde_json::Value>("{ not json").unwrap_err().to_string();
    assert_eq!(classify_text("{ not json", true), Usable::BadJson(want));
    assert_eq!(
        classify_parsed("x", true, Err("why".into())),
        Usable::BadJson("why".into())
    );
    assert_eq!(classify_parsed("x", false, Err("why".into())), Usable::Yes);
    assert_eq!(classify_parsed(" ", true, Err("why".into())), Usable::Empty);
    assert_eq!(classify_parsed("1", true, Ok(())), Usable::Yes);
}

#[test]
fn augment_prompt_appends_rejection_reason() {
    let p = augment_prompt("do the task", "expected value at line 1");
    assert!(p.starts_with("do the task"));
    assert!(p.contains("REJECTED"));
    assert!(p.contains("expected value at line 1"));
    assert!(p.contains("JSON"));
}

#[test]
fn augment_prompt_exact_text() {
    assert_eq!(
        augment_prompt("B", "R"),
        "B\n\nYour previous output was REJECTED: R. Output ONLY a single valid JSON value \
matching the requested schema — no prose, no explanation, no markdown code fences."
    );
}

#[test]
fn resolve_timeout_spec_over_env_zero_disables() {
    assert_eq!(resolve_timeout(Some(500), Some(999)), Some(500));
    assert_eq!(resolve_timeout(None, Some(999)), Some(999));
    assert_eq!(resolve_timeout(None, None), None);
    assert_eq!(
        resolve_timeout(Some(0), Some(999)),
        None,
        "explicit 0 disables even if env is set"
    );
    assert_eq!(resolve_timeout(None, Some(0)), None);
}

#[test]
fn settings_are_read_as_numbers() {
    assert_eq!(env_timeout_ms(Some("250")), Some(250));
    assert_eq!(env_timeout_ms(Some("250ms")), None);
    assert_eq!(env_timeout_ms(Some(" 250")), None, "not trimmed");
    assert_eq!(env_timeout_ms(Some("18446744073709551615")), Some(u64::MAX));
    assert_eq!(env_timeout_ms(Some("18446744073709551616")), None);
    assert_eq!(env_timeout_ms(Some("+5")), Some(5));
    assert_eq!(env_timeout_ms(Some("+")), None);
    assert_eq!(env_timeout_ms(None), None);
    assert_eq!(resolve_max_attempts(None), 3);
    assert_eq!(resolve_max_attempts(Some("5")), 5);
    assert_eq!(resolve_max_attempts(Some("0")), 3);
    assert_eq!(resolve_max_attempts(Some("x")), 3);
    assert_eq!(resolve_max_attempts(Some("4294967296")), 3);
    assert_eq!(resolve_budget(Some("100")), Some(100));
    assert_eq!(resolve_budget(Some("0")), None);
    assert_eq!(resolve_budget(Some("-3")), None);
    assert_eq!(resolve_budget(None), None);
    assert_eq!(permits(0), 1);
    assert_eq!(permits(9), 9);
    assert_eq!(codex_bin(None), "codex");
    assert_eq!(codex_bin(Some("fake".into())), "fake");
}

fn plain_spec() -> AgentSpec {
    AgentSpec {
        id: 1,
        step: 0,
        label: "x".into(),
        prompt: "hi".into(),
        cwd: None,
        model: None,
        sandbox: None,
        output_schema: None,
        timeout_ms: None,
        worktree: None,
    }
}

#[test]
fn build_args_order_schema_and_trailing_prompt() {
    let spec = AgentSpec {
        id: 1,
        step: 0,
        label: "x".into(),
        prompt: "hi".into(),
        cwd: None,
        model: Some("gpt".into()),
        sandbox: Some("read-only".into()),
        output_schema: Some("/tmp/s.json".into()),
        timeout_ms: None,
        worktree: None,
    };
    let a = build_args(&spec);
    assert_eq!(a[0], "exec");
    assert!(a.contains(&"--json".to_string()));
    assert!(a.contains(&"--output-schema".to_string()));
    assert_eq!(a.last().unwrap(), "hi", "prompt is the trailing positional");
    assert!(a.windows(2).any(|w| w[0] == "-m" && w[1] == "gpt"));
    assert!(a.windows(2).any(|w| w[0] == "-s" && w[1] == "read-only"));
}

#[test]
fn build_args_exact() {
    assert_eq!(build_args(&plain_spec()), vec!["exec", "--json", "--skip-git-repo-check", "hi"]);
    let spec = AgentSpec {
        cwd: Some("/d".into()),
        model: Some("m".into()),
        sandbox: Some("s".into()),
        output_schema: Some("o".into()),
        ..plain_spec()
    };
    assert_eq!(
        build_args(&spec),
        vec![
            "exec",
            "--json",
            "--skip-git-repo-check",
            "-m",
            "m",
            "-s",
            "s",
            "-C",
            "/d",
            "--output-schema",
            "o",
            "hi"
        ]
    );
}

#[test]
fn cloned_spec_is_the_same_spec() {
    let spec = AgentSpec {
        cwd: Some("/d".into()),
        timeout_ms: Some(5),
        worktree: Some(WorktreeSpec { repo: "/r".into(), base: "/t".into() }),
        ..plain_spec()
    };
    assert_eq!(format!("{:?}", spec.clone()), format!("{spec:?}"));
}

#[test]
fn budget_delta_counts_output_tokens_only() {
    assert_eq!(
        budget_delta(&AgentUpdate::Tokens { input: 100, output: 42 }),
        42
    );
    assert_eq!(budget_delta(&AgentUpdate::Message("hi".into())), 0);
    // Summing a synthetic stream accumulates only the output tokens.
    let stream = [
        AgentUpdate::Tokens { input: 1, output: 10 },
        AgentUpdate::Message("x".into()),
        AgentUpdate::Tokens { input: 1, output: 5 },
    ];
    let total: u64 = stream.iter().map(budget_delta).sum();
    assert_eq!(total, 15);
}

#[test]
fn spending_is_the_sum_over_a_stream() {
    assert_eq!(spent_by(&Vec::new()), 0);
    let tokens = |output| AgentUpdate::Tokens { input: 7, output };
    let stream = vec![tokens(10), AgentUpdate::Message("x".into()), tokens(5)];
    assert_eq!(spent_by(&stream), 15);
    assert_eq!(spent_by(&vec![tokens(u64::MAX - 1), tokens(1)]), u64::MAX);
    let mut t = Transcript::new();
    let ups = t.on_line("{}", |_| {
        Ok(CodexEvent::TurnCompleted {
            usage: Some(Usage { input_tokens: 3, output_tokens: 42 }),
        })
    });
    assert_eq!(spent_by(&ups), 42);
}

#[test]
fn over_budget_only_when_finite_and_met() {
    assert!(!over_budget(None, 10_000), "no target is never over");
    assert!(!over_budget(Some(100), 99));
    assert!(over_budget(Some(100), 100), "met counts as over");
    assert!(over_budget(Some(100), 101));
}

#[test]
fn budget_refusal_exact_text() {
    assert_eq!(
        budget_refusal(Some(100), 120),
        "budget exceeded: 120 output tokens spent >= total 100"
    );
    assert_eq!(
        budget_refusal(None, 0),
        "budget exceeded: 0 output tokens spent >= total 0"
    );
}

#[test]
fn backoff_doubles_to_a_cap() {
    let waits: Vec<u64> = (1..=7).map(backoff_ms).collect();
    assert_eq!(waits, vec![800, 1600, 3200, 6400, 8000, 8000, 8000]);
    assert_eq!(backoff_ms(14), 8000);
    assert_eq!(backoff_ms(15), 8000);
    assert_eq!(backoff_ms(u32::MAX), 8000);
}

fn note(u: &AgentUpdate) -> &str {
    match u {
        AgentUpdate::Note(n) => n,
        _ => panic!("expected a note"),
    }
}

fn status(u: &AgentUpdate) -> AgentStatus {
    match u {
        AgentUpdate::Status(s) => *s,
        _ => panic!("expected a status"),
    }
}

fn starts_running(t: &Turn) {
    assert_eq!(t.updates.len(), 1);
    assert_eq!(status(&t.updates[0]), AgentStatus::Running);
    assert!(matches!(t.action, Action::RunOnce));
}

#[test]
fn permit_starts_a_plain_agent() {
    let run = AgentRun::new(plain_spec(), Some(100), 3);
    starts_running(&run.on_permit(99));
    starts_running(&AgentRun::new(plain_spec(), None, 3).on_permit(u64::MAX));
}

#[test]
fn permit_refuses_over_budget_before_isolating() {
    let spec = AgentSpec {
        worktree: Some(WorktreeSpec { repo: "/r".into(), base: "/t".into() }),
        ..plain_spec()
    };
    let run = AgentRun::new(spec, Some(100), 3);
    let t = run.on_permit(100);
    assert_eq!(
        note(&t.updates[0]),
        "refused at spawn: budget exceeded: 100 output tokens spent >= total 100"
    );
    assert_eq!(status(&t.updates[1]), AgentStatus::Failed);
    match t.action {
        Action::Finish(Err(e)) => {
            assert_eq!(e, "budget exceeded: 100 output tokens spent >= total 100")
        }
        _ => panic!("expected a refusal"),
    }
}

#[test]
fn isolated_agent_runs_at_its_worktree() {
    let spec = AgentSpec {
        worktree: Some(WorktreeSpec { repo: "/r".into(), base: "/t".into() }),
        ..plain_spec()
    };
    let mut run = AgentRun::new(spec, None, 3);
    let t = run.on_permit(0);
    assert!(t.updates.is_empty());
    match t.action {
        Action::AddWorktree(w) => assert_eq!((w.repo.as_str(), w.base.as_str()), ("/r", "/t")),
        _ => panic!("expected a worktree"),
    }
    starts_running(&run.on_worktree(Ok("/t/wt-1".into())));
    assert_eq!(
        run.args(),
        vec!["exec", "--json", "--skip-git-repo-check", "-C", "/t/wt-1", "hi"]
    );
}

#[test]
fn failed_worktree_ends_the_run() {
    let mut run = AgentRun::new(plain_spec(), None, 3);
    let t = run.on_worktree(Err("no repo".into()));
    assert_eq!(note(&t.updates[0]), "no repo");
    assert_eq!(status(&t.updates[1]), AgentStatus::Failed);
    match t.action {
        Action::Finish(Err(e)) => assert_eq!(e, "no repo"),
        _ => panic!("expected an end"),
    }
}

#[test]
fn good_attempt_ends_the_run() {
    let mut run = AgentRun::new(plain_spec(), None, 3);
    let t = run.on_attempt(Attempt::Good("answer".into()));
    match &t.updates[0] {
        AgentUpdate::Final(s) => assert_eq!(s, "answer"),
        _ => panic!("expected the answer"),
    }
    assert_eq!(status(&t.updates[1]), AgentStatus::Done);
    match t.action {
        Action::Finish(Ok(s)) => assert_eq!(s, "answer"),
        _ => panic!("expected an end"),
    }
}

#[test]
fn failures_are_retried_then_given_up() {
    let mut run = AgentRun::new(plain_spec(), None, 2);
    let t = run.on_attempt(Attempt::Bad { error: "first".into(), steer: false });
    assert_eq!(note(&t.updates[0]), "attempt 1/2 failed: first — retrying in 800ms");
    assert!(matches!(t.action, Action::Wait(800)));
    starts_running(&run.on_waited());
    assert_eq!(run.args().last().unwrap(), "hi");
    let t = run.on_attempt(Attempt::Bad { error: "second".into(), steer: false });
    assert_eq!(note(&t.updates[0]), "failed after 2 attempts: second");
    assert_eq!(status(&t.updates[1]), AgentStatus::Failed);
    match t.action {
        Action::Finish(Err(e)) => assert_eq!(e, "codex agent failed after 2 attempts: second"),
        _ => panic!("expected an end"),
    }
}

#[test]
fn rejection_steers_the_next_prompt_without_piling_up() {
    let spec = AgentSpec { output_schema: Some("s".into()), ..plain_spec() };
    let mut run = AgentRun::new(spec, None, 5);
    assert!(run.has_schema());
    let _ = run.on_attempt(weigh(Ok("{".into()), true));
    let first = run.args().last().unwrap().clone();
    assert!(first.starts_with("hi\n\nYour previous output was REJECTED: output was not valid JSON for the requested schema: "));
    // A later failure of another kind keeps the note; a new rejection replaces it.
    let _ = run.on_attempt(Attempt::Bad { error: "exit".into(), steer: false });
    assert_eq!(run.args().last().unwrap(), &first);
    let _ = run.on_attempt(Attempt::Bad { error: "again".into(), steer: true });
    let third = run.args().last().unwrap().clone();
    assert_eq!(third, augment_prompt("hi", "again"));
    assert_eq!(third.matches("REJECTED").count(), 1);
}

#[test]
fn attempts_are_weighed() {
    match weigh(Ok("text".into()), false) {
        Attempt::Good(t) => assert_eq!(t, "text"),
        _ => panic!("expected an answer"),
    }
    match weigh(Ok(" \n".into()), false) {
        Attempt::Bad { error, steer } => {
            assert_eq!(
                error,
                "agent exited cleanly but produced no output (likely upstream stream disconnect)"
            );
            assert!(!steer);
        }
        _ => panic!("expected a failure"),
    }
    match weigh_text("x".into(), Usable::BadJson("why".into())) {
        Attempt::Bad { error, steer } => {
            assert_eq!(error, "output was not valid JSON for the requested schema: why");
            assert!(steer);
        }
        _ => panic!("expected a failure"),
    }
    match weigh(Err("gone".into()), true) {
        Attempt::Bad { error, steer } => {
            assert_eq!(error, "gone");
            assert!(!steer);
        }
        _ => panic!("expected a failure"),
    }
}

#[test]
fn transcript_keeps_the_last_message() {
    let mut t = Transcript::new();
    let ups = t.on_line("  {}  ", |s| {
        assert_eq!(s, "{}");
        Ok(CodexEvent::ItemCompleted { item: Item::AgentMessage { text: "one".into() } })
    });
    assert_eq!(ups.len(), 1);
    let ups = t.on_line("{}", |_| {
        Ok(CodexEvent::TurnCompleted { usage: Some(Usage { input_tokens: 3, output_tokens: 4 }) })
    });
    assert_eq!(budget_delta(&ups[0]), 4);
    assert!(t.on_line("   ", |_| panic!("blank lines are not read")).is_empty());
    assert_eq!(t.final_text, "one");
    let _ = t.on_line("{}", |_| {
        Ok(CodexEvent::ItemCompleted { item: Item::AgentMessage { text: "two".into() } })
    });
    assert_eq!(t.final_text, "two");
}

#[test]
fn unreadable_lines_become_notes() {
    let mut t = Transcript::default();
    let ups = t.on_line(" oops ", |_| Err("bad".into()));
    assert_eq!(note(&ups[0]), "unparsed line (bad):  oops ");
    assert_eq!(t.final_text, "");
    let ups = t.on_parsed("x", None);
    assert!(ups.is_empty());
}

#[test]
fn diagnostics_become_notes() {
    assert!(stderr_note("  ".into()).is_none());
    assert_eq!(note(&stderr_note(" hm ".into()).unwrap()), " hm ");
    assert_eq!(note(&read_error_note("eof")), "stdout read error: eof");
}

#[test]
fn ended_processes_are_concluded() {
    let done = |e: Ended| {
        let mut t = Transcript::new();
        let _ = t.on_parsed(
            "",
            Some(Ok(CodexEvent::ItemCompleted { item: Item::AgentMessage { text: "m".into() } })),
        );
        conclude(e, t)
    };
    assert_eq!(done(Ended::Exited { success: true, status: "exit status: 0".into() }), Ok("m".into()));
    assert_eq!(
        done(Ended::Exited { success: false, status: "exit status: 7".into() }),
        Err("codex exited with status exit status: 7".into())
    );
    assert_eq!(done(Ended::TimedOut { ms: 250 }), Err("codex timed out after 250ms".into()));
    assert_eq!(done(Ended::NotSpawned { bin: "codex".into() }), Err("failed to spawn `codex`".into()));
    assert_eq!(done(Ended::Lost { error: "no stdout".into() }), Err("no stdout".into()));
}
