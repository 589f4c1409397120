//! The terminal front-end's state, panes and session.

use codex_flow::event::{
    AgentId, AgentStatus, AgentUpdate, AppEvent, KeyCode, KeyEvent, StepStatus,
};
use codex_flow::render_opt::Rect;
use codex_flow::tui::bench::{make_load, Coalescer};
use codex_flow::tui::panes::{
    agents_pane, exit_summary, pane_border, status_line, status_text, steps_pane, truncate, Piece,
    Tone,
};
use codex_flow::tui::render::{RenderState, RightPane};
use codex_flow::tui::session::{
    event_ok, wants_event, wants_input, Input, Session, MAX_DRAIN, MAX_KEY_DRAIN,
};
use codex_flow::tui::{rollup, App, Focus, Row, MAX_DETAIL};
use ratatui::buffer::Buffer;

fn key(code: KeyCode) -> KeyEvent {
    KeyEvent { code, control: false, release: false }
}

/// An App drilled into the Detail pane of one agent whose detail buffer is
/// at the MAX_DETAIL cap with long CJK-mixed lines.
fn heavy_app() -> App {
    let mut app = App::new();
    app.apply(AppEvent::StepDeclared { step: 0, title: "s".into() });
    app.apply(AppEvent::AgentSpawned {
        id: 1,
        step: 0,
        label: "big".into(),
        prompt: "p".into(),
        group: None,
    });
    for i in 0..2000 {
        app.apply(AppEvent::Agent {
            id: 1,
            update: AgentUpdate::Message(format!(
                "第{i}行 混合中文与ASCII的较长流式输出内容 streamed output {}",
                "x".repeat(90)
            )),
        });
    }
    app.on_key(key(KeyCode::Enter)); // Steps -> Agents
    app.on_key(key(KeyCode::Enter)); // Agents -> Detail
    assert_eq!(app.focus, Focus::Detail);
    app
}

/// One draw of a 100x30 screen.
fn draw(app: &mut App, rs: &mut RenderState, screen: &mut Buffer) {
    rs.draw_steps(app, screen, Rect::new(0, 0, 32, 29), |_, _, _| {});
    assert!(rs.draw_detail(app, Rect::new(32, 0, 68, 29)).is_some());
}

fn screen() -> Buffer {
    Buffer::empty(ratatui::layout::Rect::new(0, 0, 100, 30))
}

fn spawn(app: &mut App, id: AgentId, label: &str, group: Option<&str>) {
    app.apply(AppEvent::AgentSpawned {
        id,
        step: 0,
        label: label.into(),
        prompt: "p".into(),
        group: group.map(str::to_string),
    });
}

/// One step with two groups and one flat agent, spawn order interleaved:
/// a(g1), b(flat), c(g1), d(g2)  ->  agents idx 0..=3.
fn grouped_app() -> App {
    let mut app = App::new();
    app.apply(AppEvent::StepDeclared { step: 0, title: "s".into() });
    spawn(&mut app, 1, "a", Some("g1"));
    spawn(&mut app, 2, "b", None);
    spawn(&mut app, 3, "c", Some("g1"));
    spawn(&mut app, 4, "d", Some("g2"));
    app
}

#[test]
fn rollup_truth_table() {
    let (pending, running) = (AgentStatus::Pending, AgentStatus::Running);
    let (done, failed) = (AgentStatus::Done, AgentStatus::Failed);
    assert_eq!(rollup(&[done, done]), done);
    assert_eq!(rollup(&[done, failed, running]), failed);
    assert_eq!(rollup(&[done, running]), running);
    // An all-Pending group rolls up Running, NOT Pending.
    assert_eq!(rollup(&[pending, pending]), running);
    assert_eq!(rollup(&[]), running);
}

#[test]
fn rows_group_at_first_seen_members_folded_flat_interleaved() {
    let app = grouped_app();
    assert_eq!(
        app.rows_for_selected_step(),
        vec![
            Row::Header { first: 0 }, // g1 anchors where a first appeared
            Row::Agent { idx: 0 },    // a
            Row::Agent { idx: 2 },    // c folded under g1, out of spawn order
            Row::Agent { idx: 1 },    // flat b keeps its spawn position
            Row::Header { first: 3 }, // g2
            Row::Agent { idx: 3 },    // d
        ]
    );
}

#[test]
fn header_enter_toggles_collapse_bumps_gen_and_bounds_down() {
    let mut app = grouped_app();
    app.on_key(key(KeyCode::Enter)); // Steps -> Agents
    assert_eq!(app.focus, Focus::Agents);
    // Down is bounded by VISIBLE rows (6), not agent count (4).
    for _ in 0..10 {
        app.on_key(key(KeyCode::Down));
    }
    assert_eq!(app.agents_sel, 5, "Down bound = rows.len()-1");
    for _ in 0..10 {
        app.on_key(key(KeyCode::Up));
    }
    let (d0, g0) = (app.detail_ver, app.collapse_gen);
    app.on_key(key(KeyCode::Enter)); // on the g1 header: toggle, NOT Detail
    assert_eq!(app.focus, Focus::Agents, "header Enter must not enter Detail");
    assert_eq!(app.rows_for_selected_step().len(), 4, "g1 members hidden");
    assert_ne!(app.collapse_gen, g0);
    assert_ne!(app.detail_ver, d0, "a collapse toggle must invalidate panes");
    app.on_key(key(KeyCode::Enter)); // expand again
    assert_eq!(app.rows_for_selected_step().len(), 6);
}

#[test]
fn spawn_into_earlier_group_keeps_selection_identity() {
    let mut app = grouped_app();
    app.on_key(key(KeyCode::Enter)); // -> Agents
    for _ in 0..3 {
        app.on_key(key(KeyCode::Down)); // select flat b (row 3)
    }
    assert_eq!(app.rows_for_selected_step()[app.agents_sel], Row::Agent { idx: 1 });
    spawn(&mut app, 9, "late", Some("g1")); // inserts a row ABOVE the selection
    assert_eq!(
        app.rows_for_selected_step()[app.agents_sel],
        Row::Agent { idx: 1 },
        "selection must stay on b, not drift onto the late spawner"
    );
    assert_eq!(app.agents_sel, 4, "b moved down one visible row");
}

#[test]
fn detail_pin_survives_row_shift_from_earlier_group_spawn() {
    let mut app = grouped_app();
    app.on_key(key(KeyCode::Enter)); // -> Agents
    for _ in 0..3 {
        app.on_key(key(KeyCode::Down)); // rows: H(g1) a c -> b (flat) at row 3
    }
    app.on_key(key(KeyCode::Enter)); // -> Detail, pinned on b
    assert_eq!(app.focus, Focus::Detail);
    assert_eq!(app.detail_agent, Some(1), "pin = agents index of b");
    // A late agent spawns into the EARLIER group g1: visible rows shift.
    spawn(&mut app, 9, "late", Some("g1"));
    let d0 = app.detail_ver;
    app.apply(AppEvent::Agent {
        id: 2, // b
        update: AgentUpdate::Message("hi".into()),
    });
    assert_ne!(app.detail_ver, d0, "pinned agent's stream must bump detail_ver");
    let d1 = app.detail_ver;
    app.apply(AppEvent::Agent {
        id: 9, // the late g1 agent
        update: AgentUpdate::Message("x".into()),
    });
    assert_eq!(app.detail_ver, d1, "non-drilled agent must not invalidate Detail");
}

#[test]
fn overscroll_clamps_and_up_responds_immediately() {
    let mut app = heavy_app();
    let mut rs = RenderState::new();
    let mut term = screen();
    app.on_key(key(KeyCode::End));
    draw(&mut app, &mut rs, &mut term);
    let max = app.detail_scroll;
    assert!(
        max < usize::MAX,
        "a draw must clamp the stored scroll to the real content max"
    );
    assert!(max > 0, "heavy buffer must actually be scrollable");
    // Keep scrolling at the bottom: no invisible overshoot may accumulate.
    for _ in 0..50 {
        app.on_key(key(KeyCode::Down));
        draw(&mut app, &mut rs, &mut term);
    }
    assert_eq!(
        app.detail_scroll, max,
        "scrolling past the bottom must not accumulate overshoot debt"
    );
    // One Up must move the view immediately (this is the felt 'stuck').
    app.on_key(key(KeyCode::Up));
    draw(&mut app, &mut rs, &mut term);
    assert_eq!(app.detail_scroll, max - 1, "one Up at the bottom must move");
}

#[test]
fn scroll_keys_do_not_invalidate_render_caches() {
    let mut app = heavy_app();
    let before = (app.steps_ver, app.detail_ver);
    for k in [KeyCode::Down, KeyCode::Down, KeyCode::PageDown, KeyCode::End, KeyCode::Up] {
        app.on_key(key(k));
    }
    assert_eq!(
        (app.steps_ver, app.detail_ver),
        before,
        "pure scroll must not bust the wrap/pane caches (a wheel burst would \
         re-wrap the whole buffer once per key)"
    );
    app.on_key(key(KeyCode::Esc)); // focus change: pane inputs really changed
    assert_ne!(
        (app.steps_ver, app.detail_ver),
        before,
        "selection/focus changes must still invalidate"
    );
}

#[test]
fn bottom_scroll_burst_stays_responsive() {
    let mut app = heavy_app();
    let mut rs = RenderState::new();
    let mut term = screen();
    app.on_key(key(KeyCode::End));
    draw(&mut app, &mut rs, &mut term);
    // A trackpad flick: hundreds of Down keys, a draw per key.
    let t0 = std::time::Instant::now();
    for _ in 0..400 {
        app.on_key(key(KeyCode::Down));
        draw(&mut app, &mut rs, &mut term);
    }
    let elapsed = t0.elapsed();
    println!("400 bottom-scroll key+draw cycles took {elapsed:?}");
    assert!(
        elapsed < std::time::Duration::from_secs(3),
        "a wheel burst at the bottom must not freeze the UI: 400 key+draw \
         cycles took {elapsed:?}"
    );
}

#[test]
fn events_keep_the_selected_row() {
    let mut app = grouped_app();
    app.on_key(key(KeyCode::Right));
    app.on_key(key(KeyCode::Down));
    let row = app.rows_for_selected_step()[app.agents_sel];
    app.apply(AppEvent::Agent { id: 1, update: AgentUpdate::Message("m".into()) });
    app.apply(AppEvent::StepDeclared { step: 4, title: "later".into() });
    app.apply(AppEvent::RunMeta { name: "n".into(), phases: vec!["a".into(), "b".into()] });
    app.apply(AppEvent::WorkflowDone(Ok("1".into())));
    assert_eq!(app.rows_for_selected_step()[app.agents_sel], row);
}

#[test]
fn detail_log_is_capped() {
    let app = heavy_app();
    assert_eq!(app.agents[0].detail.len(), MAX_DETAIL);
    assert!(app.agents[0].detail[MAX_DETAIL - 1].contains("第1999行"));
}

#[test]
fn updates_reach_the_detail_log() {
    let mut app = App::new();
    app.apply(AppEvent::StepDeclared { step: 0, title: "s".into() });
    spawn(&mut app, 1, "a", None);
    let start = app.agents[0].detail.len();
    for u in [
        AgentUpdate::Status(AgentStatus::Running),
        AgentUpdate::Tokens { input: 1, output: 2 },
        AgentUpdate::Reasoning("r".into()),
        AgentUpdate::Command { command: "c".into(), output: Some("o1\no2".into()) },
        AgentUpdate::Note("n".into()),
        AgentUpdate::Final("f".into()),
    ] {
        app.apply(AppEvent::Agent { id: 1, update: u });
    }
    let a = &app.agents[0];
    assert_eq!(a.status, AgentStatus::Running);
    assert_eq!((a.tokens_in, a.tokens_out), (1, 2));
    assert_eq!(a.last_note.as_deref(), Some("n"));
    assert_eq!(
        a.detail[start..],
        [
            "[tokens] in=1 out=2",
            "[reason] r",
            "[cmd] c",
            "    o1",
            "    o2",
            "[note] n",
            "",
            "-- FINAL -----------------------------------",
            "f",
        ]
    );
}

#[test]
fn metadata_draws_phases_up_front_without_clobbering_titles() {
    let mut app = App::new();
    app.apply(AppEvent::StepDeclared { step: 1, title: "real".into() });
    app.apply(AppEvent::RunMeta {
        name: "wf".into(),
        phases: vec!["a".into(), "b".into(), "c".into()],
    });
    let titles: Vec<&str> = app.steps.iter().map(|s| s.title.as_str()).collect();
    assert_eq!(titles, vec!["a", "real", "c"]);
    assert!(app.steps.iter().all(|s| s.status == StepStatus::Pending));
    assert_eq!(app.meta_name.as_deref(), Some("wf"));
}

fn words(l: &[Piece]) -> Vec<(&str, Tone)> {
    l.iter().map(|p| (p.text.as_str(), p.tone)).collect()
}

#[test]
fn steps_pane_shows_mark_title_and_count() {
    let mut app = grouped_app();
    app.apply(AppEvent::StepDeclared { step: 2, title: "".into() });
    app.apply(AppEvent::StepStatus { step: 0, status: StepStatus::Running });
    app.apply(AppEvent::StepStatus { step: 2, status: StepStatus::Failed });
    let p = steps_pane(&app);
    assert_eq!(p.title, " Steps ");
    assert_eq!(p.selected, Some(0));
    assert!(p.active);
    assert_eq!(
        words(&p.lines[0]),
        vec![
            ("*", Tone::Yellow),
            (" ", Tone::Plain),
            ("s", Tone::Plain),
            ("  (4)", Tone::Faint)
        ]
    );
    assert_eq!(words(&p.lines[1])[0], (".", Tone::Faint));
    assert_eq!(words(&p.lines[2])[0], ("x", Tone::Red));
    assert_eq!(words(&p.lines[2])[2], ("step 2", Tone::Plain));
    assert_eq!(words(&p.lines[2])[3], ("  (0)", Tone::Faint));
    assert_eq!(steps_pane(&App::new()).selected, None);
}

#[test]
fn agents_pane_shows_headers_and_indented_members() {
    let mut app = grouped_app();
    app.apply(AppEvent::Agent { id: 1, update: AgentUpdate::Tokens { input: 5, output: 7 } });
    app.apply(AppEvent::Agent { id: 3, update: AgentUpdate::Tokens { input: 1, output: 2 } });
    app.apply(AppEvent::Agent { id: 1, update: AgentUpdate::Status(AgentStatus::Done) });
    let p = agents_pane(&app);
    assert_eq!(p.title, " Agents · s ");
    assert_eq!(p.lines.len(), 6);
    assert!(!p.active);
    assert_eq!(
        words(&p.lines[0]),
        vec![
            ("*", Tone::Yellow),
            (" ", Tone::Plain),
            ("v g1                        ", Tone::Strong),
            ("[1/2]  6/9", Tone::Faint)
        ]
    );
    assert_eq!(
        words(&p.lines[1]),
        vec![
            ("*", Tone::Green),
            (" ", Tone::Plain),
            ("  a                         ", Tone::Plain),
            ("5/7", Tone::Faint)
        ]
    );
    assert_eq!(words(&p.lines[3])[2], ("b                           ", Tone::Plain));
    app.on_key(key(KeyCode::Enter));
    app.on_key(key(KeyCode::Enter));
    let p = agents_pane(&app);
    assert!(p.active);
    assert_eq!(p.lines.len(), 4);
    assert_eq!(words(&p.lines[0])[2].0, "> g1                        ");
    assert_eq!(agents_pane(&App::new()).title, " Agents ");
}

#[test]
fn group_token_sums_do_not_overflow() {
    let mut app = grouped_app();
    let big = AgentUpdate::Tokens { input: u64::MAX, output: u64::MAX };
    app.apply(AppEvent::Agent { id: 1, update: big.clone() });
    app.apply(AppEvent::Agent { id: 3, update: big });
    let p = agents_pane(&app);
    assert_eq!(
        p.lines[0][3].text,
        "[0/2]  36893488147419103230/36893488147419103230"
    );
}

#[test]
fn long_names_are_cut_with_a_mark() {
    assert_eq!(truncate("abc", 3), "abc");
    assert_eq!(truncate("abcd", 3), "ab~");
    assert_eq!(truncate("日本語", 2), "日~");
    assert_eq!(truncate("a", 0), "~");
    assert_eq!(truncate("", 0), "");
    assert_eq!(status_text(AgentStatus::Pending), "pending");
    assert_eq!(status_text(AgentStatus::Failed), "failed");
    assert_eq!(pane_border(true), Tone::Accent);
    assert_eq!(pane_border(false), Tone::Faint);
}

#[test]
fn status_line_follows_focus_and_outcome() {
    let mut app = grouped_app();
    assert_eq!(
        words(&status_line(&app)),
        vec![
            (" Up/Dn steps | -> agents | q quit ", Tone::Faint),
            ("  ", Tone::Plain),
            (" running ", Tone::OnYellow)
        ]
    );
    app.apply(AppEvent::RunMeta { name: "wf".into(), phases: vec![] });
    app.apply(AppEvent::WorkflowDone(Ok("1".into())));
    app.on_key(key(KeyCode::Enter));
    assert_eq!(
        words(&status_line(&app)),
        vec![
            (" wf ", Tone::Accent),
            (" ", Tone::Plain),
            (" Up/Dn agents | -> detail | <- steps | q quit ", Tone::Faint),
            ("  ", Tone::Plain),
            (" DONE ", Tone::OnGreen)
        ]
    );
    app.apply(AppEvent::EngineError("e".into()));
    assert_eq!(words(&status_line(&app))[4], (" ERROR ", Tone::OnRed));
}

#[test]
fn exit_summary_only_after_the_run_finished() {
    let mut app = grouped_app();
    app.apply(AppEvent::Agent { id: 1, update: AgentUpdate::Note("why".into()) });
    app.apply(AppEvent::Agent { id: 1, update: AgentUpdate::Status(AgentStatus::Failed) });
    app.apply(AppEvent::Agent { id: 2, update: AgentUpdate::Status(AgentStatus::Failed) });
    assert_eq!(exit_summary(&app), None);
    app.apply(AppEvent::WorkflowDone(Ok("1".into())));
    assert_eq!(
        exit_summary(&app).unwrap(),
        "FAILURES (2):\n  - g1/a: why\n  - b"
    );
    assert_eq!(exit_summary(&App::new()), None);
}

#[test]
fn detail_shows_a_window_onto_the_wrapped_log() {
    let mut app = App::new();
    app.apply(AppEvent::StepDeclared { step: 0, title: "s".into() });
    spawn(&mut app, 1, "a", None);
    for i in 0..5 {
        app.apply(AppEvent::Agent { id: 1, update: AgentUpdate::Message(format!("{i}")) });
    }
    let mut rs = RenderState::new();
    let area = Rect::new(0, 0, 20, 4);
    assert!(rs.draw_detail(&mut app, area).is_none(), "nothing is drilled into");
    app.on_key(key(KeyCode::Enter));
    app.on_key(key(KeyCode::Enter));
    assert!(rs.draw_detail(&mut app, Rect::new(0, 0, 0, 4)).is_none());
    assert!(rs.draw_detail(&mut app, Rect::new(0, 0, 20, 0)).is_none());
    app.on_key(key(KeyCode::End));
    let p = rs.draw_detail(&mut app, area).unwrap();
    assert_eq!(p.title, " Agent: a [pending] ");
    assert_eq!(p.lines, vec!["[msg] 3", "[msg] 4"]);
    assert_eq!(p.position, p.total - 2);
    // Narrower: the log is wrapped anew.
    let p = rs.draw_detail(&mut app, Rect::new(0, 0, 5, 4)).unwrap();
    assert_eq!(rs.detail_wrap.key.map(|k| k.1), Some(3));
    assert!(p.lines.iter().all(|l| l.chars().count() <= 3));
    // One column at least, however narrow; no lines without height.
    let p = rs.draw_detail(&mut app, Rect::new(0, 0, 1, 2)).unwrap();
    assert_eq!(rs.detail_wrap.key.map(|k| k.1), Some(1));
    assert!(p.lines.is_empty());
}

#[test]
fn steps_are_repainted_only_when_they_changed() {
    let mut app = grouped_app();
    let mut rs = RenderState::new();
    let mut term = screen();
    let area = Rect::new(0, 0, 32, 29);
    let painted = rs.draw_steps(&app, &mut term, area, |p, a, b| {
        assert_eq!(p.lines.len(), 1);
        b.set_string(a.x, a.y, "S", ratatui::style::Style::default());
    });
    assert!(painted);
    assert_eq!(term[(0, 0)].symbol(), "S");
    assert!(!rs.draw_steps(&app, &mut term, area, |_, _, _| panic!("not repainted")));
    // Streaming leaves the Steps pane alone; a step status repaints it.
    app.apply(AppEvent::Agent { id: 1, update: AgentUpdate::Message("m".into()) });
    assert!(!rs.draw_steps(&app, &mut term, area, |_, _, _| panic!("not repainted")));
    app.apply(AppEvent::StepStatus { step: 0, status: StepStatus::Done });
    assert!(rs.draw_steps(&app, &mut term, area, |_, _, _| {}));
    assert_eq!(rs.last_steps_ver, app.steps_ver);
    // A key that moves nothing leaves it alone; one that moves the focus does not.
    app.on_key(key(KeyCode::Up));
    assert!(!rs.draw_steps(&app, &mut term, area, |_, _, _| panic!("not repainted")));
    app.on_key(key(KeyCode::Right));
    assert_eq!(app.focus, Focus::Agents);
    assert!(rs.draw_steps(&app, &mut term, area, |p, _, _| assert!(!p.active)));
}

#[test]
fn right_pane_follows_the_focus() {
    let mut app = grouped_app();
    let mut rs = RenderState::new();
    let area = Rect::new(32, 0, 68, 29);
    match rs.draw_right(&mut app, area) {
        RightPane::Agents(p) => {
            assert_eq!(p.lines.len(), app.rows_for_selected_step().len());
            assert!(!p.active);
        }
        RightPane::Detail(_) => panic!("expected the agents"),
    }
    let mut app = heavy_app();
    assert_eq!(app.focus, Focus::Detail);
    match rs.draw_right(&mut app, area) {
        RightPane::Detail(Some(p)) => assert_eq!(p.lines.len(), 27),
        _ => panic!("expected the detail"),
    }
    match rs.draw_right(&mut app, Rect::new(0, 0, 0, 5)) {
        RightPane::Detail(None) => {}
        _ => panic!("expected nothing to show"),
    }
}

#[test]
fn draining_is_bounded() {
    assert_eq!((MAX_DRAIN, MAX_KEY_DRAIN), (512, 256));
    let mut batch = 1;
    while wants_event(batch) {
        batch += 1;
    }
    assert_eq!(batch, 513, "the first event and 512 more");
    let mut burst = 0;
    while wants_input(burst) {
        burst += 1;
    }
    assert_eq!(burst, 256);
}

#[test]
fn session_coalesces_batches_and_bursts() {
    let mut s = Session::new();
    let batch = vec![
        AppEvent::StepDeclared { step: 0, title: "s".into() },
        AppEvent::AgentSpawned {
            id: 1,
            step: 0,
            label: "a".into(),
            prompt: "p".into(),
            group: None,
        },
    ];
    assert!(s.can_take(&batch));
    s.on_batch(batch, false);
    assert!(s.engine_open);
    assert_eq!(s.app.agents.len(), 1);
    assert!(s.on_tick(), "one draw at the frame");
    assert!(!s.on_tick());
    let burst = vec![Input::Key(key(KeyCode::Enter)), Input::Other, Input::Key(key(KeyCode::Enter))];
    assert!(s.on_burst(&burst), "one draw now");
    assert_eq!(s.app.focus, Focus::Detail);
    assert!(!s.on_tick(), "the draw served the frame too");
    s.on_batch(Vec::new(), true);
    assert!(!s.engine_open);
    assert!(s.on_tick());
}

#[test]
fn session_ignores_releases_and_stops_at_quit() {
    let mut s = Session::default();
    let released = KeyEvent { release: true, ..key(KeyCode::Char('q')) };
    assert!(!s.on_burst(&vec![Input::Key(released), Input::Other]));
    assert!(!s.app.should_quit);
    let late = vec![Input::Other, Input::Key(released), Input::Key(key(KeyCode::Up))];
    assert!(s.on_burst(&late), "a press anywhere in the burst is drawn");
    s.on_batch(vec![AppEvent::StepDeclared { step: 1, title: "s".into() }], false);
    let burst = vec![
        Input::Key(key(KeyCode::Char('q'))),
        Input::Key(key(KeyCode::Down)),
    ];
    assert!(s.on_burst(&burst));
    assert!(s.app.should_quit);
    assert_eq!(s.app.steps_sel, 0, "nothing after q is acted on");
    let mut t = Session::new();
    let ctrl_c = KeyEvent { control: true, ..key(KeyCode::Char('c')) };
    t.on_burst(&vec![Input::Key(key(KeyCode::Char('c')))]);
    assert!(!t.app.should_quit);
    t.on_burst(&vec![Input::Key(ctrl_c)]);
    assert!(t.app.should_quit);
}

#[test]
fn steps_that_cannot_be_numbered_are_refused() {
    let bad = AppEvent::StepDeclared { step: usize::MAX, title: "s".into() };
    assert!(!event_ok(&bad));
    assert!(event_ok(&AppEvent::Render));
    assert!(!Session::new().can_take(&vec![bad]));
}

#[test]
fn bench_load_is_round_robin() {
    let load = make_load(2, 2);
    let shown: Vec<String> = load.iter().map(|e| format!("{e:?}")).collect();
    assert_eq!(
        shown,
        vec![
            "StepDeclared { step: 0, title: \"Stress\" }",
            "StepStatus { step: 0, status: Running }",
            "AgentSpawned { id: 1, step: 0, label: \"stress-0\", prompt: \"prompt for agent 0\", group: None }",
            "AgentSpawned { id: 2, step: 0, label: \"stress-1\", prompt: \"prompt for agent 1\", group: None }",
            "Agent { id: 1, update: Command { command: \"step 0 of agent 0\", output: Some(\"line 0: some streamed output text here\") } }",
            "Agent { id: 2, update: Command { command: \"step 0 of agent 1\", output: Some(\"line 0: some streamed output text here\") } }",
            "Agent { id: 1, update: Command { command: \"step 1 of agent 0\", output: Some(\"line 1: some streamed output text here\") } }",
            "Agent { id: 2, update: Command { command: \"step 1 of agent 1\", output: Some(\"line 1: some streamed output text here\") } }",
        ]
    );
    assert_eq!(make_load(16, 200).len(), 2 + 16 + 16 * 200);
}

#[test]
fn bench_draws_once_per_burst() {
    let mut c = Coalescer::new(3);
    let drawn: Vec<bool> = (0..7).map(|_| c.on_event()).collect();
    assert_eq!(drawn, vec![false, false, true, false, false, true, false]);
    assert!(c.pending());
    assert_eq!(Coalescer::new(0).size, 1);
}
