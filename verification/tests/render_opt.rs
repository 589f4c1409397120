//! When to draw, what to repaint, how to wrap.

use std::cell::Cell;

use codex_flow::render_opt::{
    can_draw, wrap_width, PaneCache, Rect, RenderScheduler, WrapCache,
};
use ratatui::buffer::Buffer;
use unicode_width::UnicodeWidthChar;

fn buffer(x: u16, y: u16, width: u16, height: u16) -> Buffer {
    Buffer::empty(ratatui::layout::Rect::new(x, y, width, height))
}

#[test]
fn scheduler_fresh_draws_nothing() {
    let mut s = RenderScheduler::new();
    assert!(!s.should_draw_on_tick());
    assert!(!s.should_draw_now());
}

#[test]
fn scheduler_data_event_coalesces_to_tick_not_now() {
    let mut s = RenderScheduler::new();
    s.mark_dirty();
    assert!(!s.should_draw_now(), "data must not force immediate draw");
    assert!(s.should_draw_on_tick(), "dirty draws at frame boundary");
    assert!(!s.should_draw_on_tick(), "dirty consumed");
}

#[test]
fn scheduler_key_event_draws_immediately() {
    let mut s = RenderScheduler::new();
    s.on_key();
    assert!(s.should_draw_now(), "key forces immediate draw");
    assert!(!s.should_draw_now(), "immediate consumed");
    assert!(!s.should_draw_on_tick(), "and dirty was consumed too");
}

#[test]
fn scheduler_tick_serves_a_key_too() {
    let mut s = RenderScheduler::default();
    s.on_key();
    assert!(s.should_draw_on_tick());
    assert!(!s.should_draw_now());
}

#[test]
fn scheduler_frame_is_60fps() {
    assert!(RenderScheduler::FRAME <= 16);
}

#[test]
fn panecache_rebuilds_then_hits() {
    let calls = Cell::new(0);
    let area = Rect::new(0, 0, 10, 3);
    let mut target = buffer(0, 0, 10, 3);
    let mut pc = PaneCache::new();
    let f = |a: Rect, b: &mut Buffer| {
        calls.set(calls.get() + 1);
        b.set_string(a.x, a.y, "hi", ratatui::style::Style::default());
    };
    assert!(pc.render_into(&mut target, area, false, f), "first = rebuild");
    assert_eq!(calls.get(), 1);
    // same area, not forced: cache hit, render_fn not called again
    let f2 = |_a: Rect, _b: &mut Buffer| calls.set(calls.get() + 1);
    assert!(!pc.render_into(&mut target, area, false, f2), "second = hit");
    assert_eq!(calls.get(), 1, "render_fn must NOT run on cache hit");
}

#[test]
fn panecache_force_rebuilds() {
    let calls = Cell::new(0);
    let area = Rect::new(0, 0, 8, 2);
    let mut target = buffer(0, 0, 8, 2);
    let mut pc = PaneCache::new();
    pc.render_into(&mut target, area, false, |_, _| calls.set(calls.get() + 1));
    assert!(pc.render_into(&mut target, area, true, |_, _| calls.set(calls.get() + 1)));
    assert_eq!(calls.get(), 2, "force must rebuild");
}

#[test]
fn panecache_area_change_rebuilds() {
    let calls = Cell::new(0);
    let mut target = buffer(0, 0, 20, 5);
    let mut pc = PaneCache::new();
    pc.render_into(&mut target, Rect::new(0, 0, 8, 2), false, |_, _| calls.set(calls.get() + 1));
    let rebuilt = pc.render_into(&mut target, Rect::new(0, 0, 10, 2), false, |_, _| {
        calls.set(calls.get() + 1)
    });
    assert!(rebuilt, "area change must rebuild");
    assert_eq!(calls.get(), 2);
}

#[test]
fn panecache_composites_at_pane_offset() {
    let mut target = buffer(0, 0, 40, 4);
    let mut pc = PaneCache::new();
    let pane = Rect::new(20, 0, 20, 4);
    pc.render_into(&mut target, pane, false, |a, b| {
        b.set_string(a.x, a.y, "R", ratatui::style::Style::default());
    });
    assert_eq!(target[(20, 0)].symbol(), "R", "drawn at pane offset");
    assert_eq!(target[(0, 0)].symbol(), " ", "other pane untouched");
    // Cache hit re-merges the cached buffer (content still present).
    let rebuilt = pc.render_into(&mut target, pane, false, |_, _| {});
    assert!(!rebuilt, "second call is a cache hit");
    assert_eq!(target[(20, 0)].symbol(), "R", "cached buffer re-merged");
}

#[test]
fn panecache_starts_from_blank_cells() {
    let mut target = buffer(0, 0, 3, 1);
    target.set_string(0, 0, "abc", ratatui::style::Style::default());
    let mut pc = PaneCache::default();
    pc.render_into(&mut target, Rect::new(1, 0, 1, 1), false, |a, b| {
        assert_eq!((b.area.x, b.area.y, b.area.width, b.area.height), (a.x, a.y, a.width, a.height));
        assert_eq!(
            format!("{:?}", b[(1, 0)]),
            "Cell { symbol: \" \", fg: Reset, bg: Reset, underline_color: Reset, modifier: NONE, skip: false }"
        );
    });
    assert_eq!(target[(0, 0)].symbol(), "a");
    assert_eq!(target[(1, 0)].symbol(), " ", "the blank pane covers what was there");
    assert_eq!(target[(2, 0)].symbol(), "c");
}

#[test]
fn panecache_grows_the_target_to_cover_both() {
    let mut target = buffer(2, 1, 2, 1);
    target.set_string(2, 1, "xy", ratatui::style::Style::default());
    let mut pc = PaneCache::new();
    pc.render_into(&mut target, Rect::new(0, 0, 1, 1), false, |a, b| {
        b.set_string(a.x, a.y, "p", ratatui::style::Style::default());
    });
    assert_eq!((target.area.x, target.area.y, target.area.width, target.area.height), (0, 0, 4, 2));
    assert_eq!(target[(0, 0)].symbol(), "p");
    assert_eq!(target[(3, 0)].symbol(), " ");
    assert_eq!(target[(2, 1)].symbol(), "x");
    assert_eq!(target[(3, 1)].symbol(), "y");
    assert_eq!(target[(0, 1)].symbol(), " ");
}

#[test]
fn drawing_is_possible_where_cells_can_be_indexed() {
    let target = buffer(0, 0, 100, 30);
    assert!(can_draw(&target, Rect::new(0, 0, 100, 30)));
    assert!(can_draw(&target, Rect::new(0, 0, 256, 256)));
    assert!(!can_draw(&target, Rect::new(0, 0, 256, 257)));
    assert!(!can_draw(&target, Rect::new(65535, 0, 1, 1)));
    let right = buffer(1, 0, 1, 1);
    assert!(can_draw(&right, Rect::new(1, 0, 255, 257)));
    assert!(!can_draw(&right, Rect::new(1, 0, 256, 256)));
    assert!(!can_draw(&target, Rect::new(0, 65535, 1, 1)));
    let mut odd = buffer(0, 0, 4, 1);
    odd.content.pop();
    assert!(!can_draw(&odd, Rect::new(0, 0, 1, 1)), "a cell is missing");
}

#[test]
fn wrap_ascii_splits_by_width() {
    let w = wrap_width("abcdefgh", 3);
    assert_eq!(w, vec!["abc", "def", "gh"]);
}

#[test]
fn wrap_cjk_counts_double_width() {
    // width 4 cols, each CJK char = 2 cols: 2 chars per line.
    let w = wrap_width("你好世界", 4);
    assert_eq!(w, vec!["你好", "世界"]);
    for line in &w {
        let cols: usize = line.chars().map(|c| UnicodeWidthChar::width(c).unwrap_or(1)).sum();
        assert!(cols <= 4);
    }
}

#[test]
fn wrap_short_line_unchanged() {
    assert_eq!(wrap_width("hi", 80), vec!["hi"]);
}

#[test]
fn wrap_empty_preserved() {
    assert_eq!(wrap_width("", 10), vec![""]);
}

#[test]
fn wrap_edges() {
    // A character wider than the line stands alone; a pane without columns counts
    // as one column wide.
    assert_eq!(wrap_width("你a", 1), vec!["你", "a"]);
    assert_eq!(wrap_width("ab", 0), vec!["a", "b"]);
    // A control code counts one column, a combining mark none: it stays with its
    // character, however full the line is.
    assert_eq!(wrap_width("a\tb", 2), vec!["a\t", "b"]);
    assert_eq!(wrap_width("e\u{301}f", 2), vec!["e\u{301}f"]);
    assert_eq!(wrap_width("e\u{301}\u{301}", 2), vec!["e\u{301}\u{301}"]);
    assert_eq!(wrap_width("ae\u{301}f", 2), vec!["ae\u{301}", "f"]);
    assert_eq!(wrap_width("\u{200b}ab", 2), vec!["\u{200b}ab"]);
    let long = "混合ASCII与中文 mixed".repeat(20);
    for width in [1, 2, 3, 7, 80] {
        let lines = wrap_width(&long, width);
        assert_eq!(lines.concat(), long, "nothing lost");
        assert!(lines.iter().all(|l| !l.is_empty()));
    }
}

#[test]
fn known_widths_hold_over_their_ranges() {
    for c in '\u{300}'..='\u{36f}' {
        assert_eq!(UnicodeWidthChar::width(c), Some(0), "{c:?}");
        assert_eq!(wrap_width(&format!("{c}ab"), 2).len(), 1);
    }
    for c in '\u{4e00}'..='\u{9fff}' {
        assert_eq!(UnicodeWidthChar::width(c), Some(2), "{c:?}");
    }
    for c in ' '..='~' {
        assert_eq!(UnicodeWidthChar::width(c), Some(1), "{c:?}");
    }
    for c in ('\0'..'\u{20}').chain('\u{7f}'..='\u{9f}') {
        assert_eq!(UnicodeWidthChar::width(c), None, "{c:?}");
    }
}

#[test]
fn wrapcache_builds_once_per_key() {
    let calls = Cell::new(0);
    let mut c = WrapCache::new();
    let build = || {
        calls.set(calls.get() + 1);
        vec!["x".to_string()]
    };
    c.get(1, 80, build);
    let build2 = || {
        calls.set(calls.get() + 1);
        vec!["x".to_string()]
    };
    c.get(1, 80, build2);
    assert_eq!(calls.get(), 1, "same (version,width) builds once");
}

#[test]
fn wrapcache_rebuilds_on_version_and_width_change() {
    let calls = Cell::new(0);
    let mut c = WrapCache::new();
    let mk = || {
        // closure that bumps + returns
        calls.set(calls.get() + 1);
        vec!["x".to_string()]
    };
    c.get(1, 80, mk);
    c.get(2, 80, || {
        calls.set(calls.get() + 1);
        vec!["x".to_string()]
    }); // version change
    c.get(2, 40, || {
        calls.set(calls.get() + 1);
        vec!["x".to_string()]
    }); // width change
    assert_eq!(calls.get(), 3, "version or width change rebuilds");
}

#[test]
fn wrapcache_hands_out_what_was_built() {
    let mut c = WrapCache::default();
    assert_eq!(c.get(1, 2, || vec!["a".to_string()]), ["a".to_string()]);
    assert_eq!(c.get(1, 2, || vec!["b".to_string()]), ["a".to_string()]);
    assert_eq!(c.get(1, 3, || vec!["b".to_string()]), ["b".to_string()]);
}
