//! Render-side units: when to draw, which panes to rebuild, and how to wrap.
//!
//! They are small and free of terminal access; the render loop composes them.

use ratatui::buffer::Buffer;
use unicode_width::UnicodeWidthChar;
use vstd::prelude::*;

use crate::text;

verus! {

// ── When to draw ──

/// Decides when to draw. Data events coalesce to the next frame; a key forces an
/// immediate draw so input feels instant.
pub struct RenderScheduler {
    pub dirty: bool,
    pub immediate: bool,
}

impl RenderScheduler {
    /// Frame interval for coalesced redraws, in milliseconds (about 60 per second).
    pub const FRAME: u64 = 16;

    /// Nothing waits to be drawn.
    pub open spec fn idle() -> Self {
        RenderScheduler { dirty: false, immediate: false }
    }

    /// A key-driven draw is always a pending draw too.
    pub open spec fn wf(self) -> bool {
        self.immediate ==> self.dirty
    }

    /// A data event came.
    pub open spec fn after_data(self) -> Self {
        RenderScheduler { dirty: true, immediate: self.immediate }
    }

    /// A key came.
    pub open spec fn after_key(self) -> Self {
        RenderScheduler { dirty: true, immediate: true }
    }

    /// The immediate request was looked at, and consumed if there was one.
    pub open spec fn after_now(self) -> Self {
        if self.immediate {
            Self::idle()
        } else {
            self
        }
    }

    /// A frame boundary passed, and a pending draw was consumed.
    pub open spec fn after_tick(self) -> Self {
        if self.dirty {
            Self::idle()
        } else {
            self
        }
    }

    pub fn new() -> (r: Self)
        ensures
            r == Self::idle(),
    {
        RenderScheduler { dirty: false, immediate: false }
    }

    /// A data event changed state: redraw at the next frame, not now.
    pub fn mark_dirty(&mut self)
        ensures
            *final(self) == old(self).after_data(),
    {
        self.dirty = true;
    }

    /// A key was pressed: redraw immediately.
    pub fn on_key(&mut self)
        ensures
            *final(self) == old(self).after_key(),
    {
        self.dirty = true;
        self.immediate = true;
    }

    /// Whether a key-driven redraw is pending. A draw satisfies the data events
    /// too, so both requests are consumed.
    pub fn should_draw_now(&mut self) -> (r: bool)
        ensures
            r == old(self).immediate,
            *final(self) == old(self).after_now(),
    {
        if self.immediate {
            self.immediate = false;
            self.dirty = false;
            true
        } else {
            false
        }
    }

    /// Called at a frame boundary: draw iff something changed.
    pub fn should_draw_on_tick(&mut self) -> (r: bool)
        ensures
            r == old(self).dirty,
            *final(self) == old(self).after_tick(),
    {
        if self.dirty {
            self.dirty = false;
            self.immediate = false;
            true
        } else {
            false
        }
    }
}

impl Default for RenderScheduler {
    fn default() -> (r: Self)
        ensures
            r == RenderScheduler::idle(),
    {
        Self::new()
    }
}

// ── Which panes to rebuild ──

/// A rectangle of terminal cells.
#[derive(Debug, Clone, Copy, PartialEq, Eq, Structural)]
pub struct Rect {
    pub x: u16,
    pub y: u16,
    pub width: u16,
    pub height: u16,
}

impl Rect {
    pub fn new(x: u16, y: u16, width: u16, height: u16) -> (r: Self)
        ensures
            r == (Rect { x, y, width, height }),
    {
        Rect { x, y, width, height }
    }

    /// The number of cells.
    pub open spec fn size(self) -> nat {
        self.width as nat * self.height as nat
    }

    /// The cell at `(x, y)` lies in the rectangle.
    pub open spec fn has(self, x: int, y: int) -> bool {
        self.x <= x < self.x + self.width && self.y <= y < self.y + self.height
    }

    /// The smallest rectangle around both.
    pub open spec fn union(self, other: Rect) -> Rect {
        let x = if self.x <= other.x { self.x } else { other.x };
        let y = if self.y <= other.y { self.y } else { other.y };
        let right = if self.x + self.width >= other.x + other.width {
            self.x + self.width
        } else {
            other.x + other.width
        };
        let bottom = if self.y + self.height >= other.y + other.height {
            self.y + self.height
        } else {
            other.y + other.height
        };
        Rect { x, y, width: (right - x) as u16, height: (bottom - y) as u16 }
    }
}

/// A `ratatui` cell buffer.
#[verifier::external_type_specification]
#[verifier::external_body]
pub struct ExBuffer(ratatui::buffer::Buffer);

/// The area a buffer covers.
pub uninterp spec fn buffer_area(b: Buffer) -> Rect;

/// The cells a buffer holds, row by row, each written out as `Debug` shows it:
/// its symbol, colours and modifiers.
pub uninterp spec fn buffer_cells(b: Buffer) -> Seq<Seq<char>>;

/// An empty cell, written out.
pub open spec fn blank_cell() -> Seq<char> {
    "Cell { symbol: \" \", fg: Reset, bg: Reset, underline_color: Reset, modifier: NONE, skip: false }"@
}

/// A buffer holds one cell for each position of its area, and the area ends
/// within the coordinate range.
pub open spec fn sound(b: Buffer) -> bool {
    let a = buffer_area(b);
    buffer_cells(b).len() == a.size() && a.x + a.width <= u16::MAX && a.y + a.height <= u16::MAX
}

/// The cell a sound buffer holds at `(x, y)`.
pub open spec fn cell_at(b: Buffer, x: int, y: int) -> Seq<char> {
    let a = buffer_area(b);
    buffer_cells(b)[(y - a.y) * a.width + (x - a.x)]
}

/// A buffer of blank cells over `area`.
pub open spec fn is_blank(b: Buffer, area: Rect) -> bool {
    buffer_area(b) == area && buffer_cells(b) == Seq::new(area.size(), |i: int| blank_cell())
}

/// The two areas together span few enough cells for 16-bit cell indices.
pub open spec fn mergeable(a: Rect, b: Rect) -> bool {
    &&& a.x + a.width <= u16::MAX
    &&& a.y + a.height <= u16::MAX
    &&& b.x + b.width <= u16::MAX
    &&& b.y + b.height <= u16::MAX
    &&& a.union(b).size() + a.union(b).x <= 65536
}

/// `r` is `t` with `b` laid over it: it covers both areas, shows `b` where `b`
/// is, `t` elsewhere where `t` is, and blanks in between.
pub open spec fn merged(t: Buffer, b: Buffer, r: Buffer) -> bool {
    &&& buffer_area(r) == buffer_area(t).union(buffer_area(b))
    &&& sound(r)
    &&& forall|x: int, y: int| #[trigger]
        buffer_area(r).has(x, y) ==> cell_at(r, x, y) == if buffer_area(b).has(x, y) {
            cell_at(b, x, y)
        } else if buffer_area(t).has(x, y) {
            cell_at(t, x, y)
        } else {
            blank_cell()
        }
}

/// The public `area` field of `ratatui`'s `Buffer`.
#[verifier::external_body]
pub(crate) fn area_of(b: &Buffer) -> (r: Rect)
    ensures
        r == buffer_area(*b),
{
    Rect { x: b.area.x, y: b.area.y, width: b.area.width, height: b.area.height }
}

/// The length of the public `content` field of `ratatui`'s `Buffer`.
#[verifier::external_body]
pub(crate) fn cell_count(b: &Buffer) -> (r: usize)
    ensures
        r == buffer_cells(*b).len(),
{
    b.content.len()
}

/// `ratatui`'s `Buffer::empty`: blank cells over the whole area.
#[verifier::external_body]
pub(crate) fn blank_buffer(area: Rect) -> (b: Buffer)
    ensures
        is_blank(b, area),
{
    let Rect { x, y, width, height } = area;
    Buffer::empty(ratatui::layout::Rect { x, y, width, height })
}

/// `ratatui`'s `Buffer::merge`: lay one buffer over another at its own position,
/// growing the target to cover both. A cell's index is computed in 16 bits, its
/// column added before the left edge is taken off, which bounds the area; and
/// each buffer must hold a cell for every position it claims.
#[verifier::external_body]
pub(crate) fn merge_into(target: &mut Buffer, b: &Buffer)
    requires
        sound(*old(target)),
        sound(*b),
        mergeable(buffer_area(*old(target)), buffer_area(*b)),
    ensures
        merged(*old(target), *b, *final(target)),
{
    target.merge(b);
}

/// Whether a pane over `area` can be drawn into `target`.
pub fn can_draw(target: &Buffer, area: Rect) -> (r: bool)
    ensures
        r == (sound(*target) && mergeable(buffer_area(*target), area)),
{
    let t = area_of(target);
    let tr: u32 = t.x as u32 + t.width as u32;
    let tb: u32 = t.y as u32 + t.height as u32;
    let ar: u32 = area.x as u32 + area.width as u32;
    let ab: u32 = area.y as u32 + area.height as u32;
    if tr > 65535 || tb > 65535 || ar > 65535 || ab > 65535 {
        return false;
    }
    let left: u32 = if t.x <= area.x { t.x as u32 } else { area.x as u32 };
    let top: u32 = if t.y <= area.y { t.y as u32 } else { area.y as u32 };
    let right: u32 = if tr >= ar { tr } else { ar };
    let bottom: u32 = if tb >= ab { tb } else { ab };
    let w: u32 = right - left;
    let h: u32 = bottom - top;
    proof {
        let u = t.union(area);
        assert(u.width == w && u.height == h && u.x == left);
        assert(0 <= w * h <= 65535 * 65535) by (nonlinear_arith)
            requires
                w <= 65535,
                h <= 65535,
        ;
        assert(0 <= t.width * t.height <= 65535 * 65535) by (nonlinear_arith)
            requires
                0 <= t.width <= 65535,
                0 <= t.height <= 65535,
        ;
    }
    let cells: u32 = t.width as u32 * t.height as u32;
    w * h <= 65536 - left && cell_count(target) as u64 == cells as u64
}

/// Caches the buffer a pane last rendered, keyed by area. Renders anew only when
/// the area changes or the pane is forced; otherwise reuses the cached buffer.
pub struct PaneCache {
    pub cached: Option<(Rect, Buffer)>,
}

impl PaneCache {
    /// A cached buffer covers exactly the area it is cached for.
    pub open spec fn wf(&self) -> bool {
        self.cached matches Some((a, b)) ==> buffer_area(b) == a && sound(b)
    }

    /// The cached buffer serves for `area`.
    pub open spec fn hits(&self, area: Rect, force: bool) -> bool {
        self.cached matches Some((a, _)) && a == area && !force
    }

    pub fn new() -> (r: Self)
        ensures
            r.wf(),
            r.cached is None,
    {
        PaneCache { cached: None }
    }

    /// Draw this pane into `target` at `area`, calling `render_fn` only when the
    /// cache does not serve. Returns whether it was called.
    pub fn render_into<F: FnOnce(Rect, &mut Buffer)>(
        &mut self,
        target: &mut Buffer,
        area: Rect,
        force: bool,
        render_fn: F,
    ) -> (rebuilt: bool)
        requires
            old(self).wf(),
            sound(*old(target)),
            mergeable(buffer_area(*old(target)), area),
            !old(self).hits(area, force) ==> forall|b: &mut Buffer| #[trigger]
                render_fn.requires((area, b)),
            forall|b: &mut Buffer| #[trigger]
                render_fn.ensures((area, b), ()) && is_blank(*b, area) ==> buffer_area(*final(b))
                    == area && sound(*final(b)),
        ensures
            final(self).wf(),
            rebuilt == !old(self).hits(area, force),
            !rebuilt ==> *final(self) == *old(self),
            rebuilt ==> exists|b: &mut Buffer|
                is_blank(*b, area) && #[trigger] render_fn.ensures((area, b), ())
                    && final(self).cached == Some((area, *final(b))),
            final(self).cached matches Some((a, b)) && a == area && merged(
                *old(target),
                b,
                *final(target),
            ),
    {
        let hit = match &self.cached {
            Some((a, _)) => *a == area && !force,
            None => false,
        };
        if !hit {
            let mut buf = blank_buffer(area);
            render_fn(area, &mut buf);
            self.cached = Some((area, buf));
        }
        match &self.cached {
            Some((_, buf)) => {
                merge_into(target, buf);
            },
            None => {},
        }
        !hit
    }
}

impl Default for PaneCache {
    fn default() -> (r: Self)
        ensures
            r.wf(),
            r.cached is None,
    {
        Self::new()
    }
}

// ── Wrapping to display columns ──

/// The columns `unicode_width` gives one character; `None` for a control code.
pub uninterp spec fn display_width(c: char) -> Option<nat>;

/// `unicode_width`'s `UnicodeWidthChar::width`. Printable ASCII takes one column,
/// control codes have no width, the combining marks U+0300 to U+036F take none, the
/// ideographs U+4E00 to U+9FFF take two, and no character is wider than three
/// columns. The per-character tables beyond these are left to the crate.
#[verifier::external_body]
pub(crate) fn char_width(c: char) -> (r: Option<usize>)
    ensures
        r matches Some(w) ==> display_width(c) == Some(w as nat) && w <= 3,
        r is None ==> display_width(c) is None,
        ' ' <= c <= '~' ==> r == Some(1usize),
        c < ' ' || '\u{7f}' <= c <= '\u{9f}' ==> r is None,
        '\u{300}' <= c <= '\u{36f}' ==> r == Some(0usize),
        '\u{4e00}' <= c <= '\u{9fff}' ==> r == Some(2usize),
{
    UnicodeWidthChar::width(c)
}

/// What is known of a character's width without looking at the crate's tables.
pub open spec fn width_known(c: char) -> bool {
    &&& ' ' <= c <= '~' ==> display_width(c) == Some(1nat)
    &&& c < ' ' || '\u{7f}' <= c <= '\u{9f}' ==> display_width(c) is None
    &&& '\u{300}' <= c <= '\u{36f}' ==> display_width(c) == Some(0nat)
    &&& '\u{4e00}' <= c <= '\u{9fff}' ==> display_width(c) == Some(2nat)
    &&& display_width(c) matches Some(w) ==> w <= 3
}

/// The columns one character counts for when wrapping: its display width, which
/// is zero for a combining mark. A control code, which has none, counts for one.
pub open spec fn columns(c: char) -> nat {
    match display_width(c) {
        Some(w) => w,
        None => 1,
    }
}

/// The columns a text counts for.
pub open spec fn text_columns(s: Seq<char>) -> nat
    decreases s.len(),
{
    if s.len() == 0 {
        0
    } else {
        text_columns(s.drop_last()) + columns(s.last())
    }
}

/// How many characters of `s` fit on one line of `width` columns, given that the
/// first `k` do. One character always fits.
pub open spec fn filled(s: Seq<char>, width: nat, k: nat) -> nat
    decreases s.len() - k,
{
    if k < s.len() && (k == 0 || text_columns(s.take(k as int + 1)) <= width) {
        filled(s, width, k + 1)
    } else {
        k
    }
}

/// A line cut into pieces of at most `width` columns, each as long as possible.
/// An empty line is one empty piece.
pub open spec fn wrapped(s: Seq<char>, width: nat) -> Seq<Seq<char>>
    decreases s.len(),
    via wrapped_shrinks
{
    let k = filled(s, width, 0);
    if k >= s.len() {
        seq![s]
    } else {
        seq![s.take(k as int)] + wrapped(s.skip(k as int), width)
    }
}

#[via_fn]
proof fn wrapped_shrinks(s: Seq<char>, width: nat) {
    if s.len() > 0 {
        lemma_filled(s, width, 1);
    }
}

/// `filled` only moves forward, and stops within the text.
pub proof fn lemma_filled(s: Seq<char>, width: nat, k: nat)
    requires
        k <= s.len(),
    ensures
        k <= filled(s, width, k) <= s.len(),
    decreases s.len() - k,
{
    if k < s.len() && (k == 0 || text_columns(s.take(k as int + 1)) <= width) {
        lemma_filled(s, width, k + 1);
    }
}

/// The columns one character counts for when wrapping.
fn char_columns(c: char) -> (r: usize)
    ensures
        r == columns(c),
        r <= 3,
        width_known(c),
{
    match char_width(c) {
        Some(w) => w,
        None => 1,
    }
}

/// The column width used for wrapping: at least one.
pub open spec fn wrap_columns(width: u16) -> nat {
    if width >= 1 {
        width as nat
    } else {
        1
    }
}

/// Wrap a single logical line to `width` display columns. Never splits a
/// character; an empty input yields one empty line.
pub fn wrap_width(line: &str, width: u16) -> (r: Vec<String>)
    ensures
        forall|i: int| 0 <= i < line@.len() ==> width_known(#[trigger] line@[i]),
        text::texts(r@) == wrapped(line@, wrap_columns(width)),
{
    let cols: usize = if width >= 1 { width as usize } else { 1 };
    let v = text::chars_of(line);
    let mut out: Vec<String> = Vec::new();
    let mut cur = String::new();
    let mut cur_w: usize = 0;
    let mut i: usize = 0;
    let ghost mut start: int = 0;
    proof {
        assert(v@.skip(0) =~= v@);
        assert(cur@ =~= v@.subrange(0, 0));
        assert(text::texts(out@) =~= Seq::<Seq<char>>::empty());
        assert(Seq::<Seq<char>>::empty() + wrapped(v@, cols as nat) =~= wrapped(v@, cols as nat));
    }
    while i < v.len()
        invariant
            0 <= start <= i <= v.len(),
            start == i ==> i == 0,
            1 <= cols <= 65535,
            v@ == line@,
            forall|j: int| 0 <= j < i ==> width_known(#[trigger] v@[j]),
            cur@ == v@.subrange(start, i as int),
            cur_w == text_columns(cur@),
            cur_w <= cols || cur_w <= 3,
            text::texts(out@) + wrapped(v@.skip(start), cols as nat) == wrapped(v@, cols as nat),
            filled(v@.skip(start), cols as nat, 0) == filled(
                v@.skip(start),
                cols as nat,
                (i - start) as nat,
            ),
        decreases v.len() - i,
    {
        let ch = v[i];
        let cw: usize = char_columns(ch);
        let ghost rest = v@.skip(start);
        proof {
            let k = i - start;
            assert(rest.take(k + 1).drop_last() =~= cur@);
            assert(rest.take(k + 1).last() == ch);
        }
        if cur_w + cw > cols && i > 0 {
            let ghost before = text::texts(out@);
            proof {
                let k = i - start;
                assert(k > 0);
                assert(rest.take(k) =~= cur@);
                assert(rest.skip(k) =~= v@.skip(i as int));
                assert(wrapped(rest, cols as nat) == seq![rest.take(k)] + wrapped(
                    rest.skip(k),
                    cols as nat,
                ));
            }
            let ghost piece = cur@;
            out.push(cur);
            proof {
                assert(text::texts(out@) =~= before.push(piece));
                assert(before + (seq![piece] + wrapped(v@.skip(i as int), cols as nat))
                    =~= before.push(piece) + wrapped(v@.skip(i as int), cols as nat));
                start = i as int;
            }
            cur = String::new();
            cur_w = 0;
            proof {
                assert(cur@ =~= v@.subrange(start, i as int));
                assert(text_columns(cur@) == 0);
            }
        }
        let ghost line_so_far = cur@;
        cur.push(ch);
        cur_w = cur_w + cw;
        proof {
            let rest2 = v@.skip(start);
            let k = i - start;
            assert(cur@ =~= v@.subrange(start, i + 1));
            assert(cur@.drop_last() =~= line_so_far);
            assert(cur@.last() == ch);
            assert(text_columns(cur@) == text_columns(line_so_far) + cw);
            assert(rest2.take(k + 1) =~= cur@);
            assert(filled(rest2, cols as nat, k as nat) == filled(
                rest2,
                cols as nat,
                (k + 1) as nat,
            ));
        }
        i = i + 1;
    }
    proof {
        let rest = v@.skip(start);
        assert(rest =~= cur@);
        assert(filled(rest, cols as nat, rest.len()) == rest.len());
        assert(wrapped(rest, cols as nat) =~= seq![cur@]);
    }
    let ghost before = text::texts(out@);
    let ghost piece = cur@;
    out.push(cur);
    proof {
        assert(text::texts(out@) =~= before + seq![piece]);
    }
    out
}

/// Caches wrapped lines keyed by content version and width. Rebuilds only when
/// either changes.
pub struct WrapCache {
    pub key: Option<(u64, u16)>,
    pub lines: Vec<String>,
}

impl WrapCache {
    pub fn new() -> (r: Self)
        ensures
            r.key is None,
            r.lines@ == Seq::<String>::empty(),
    {
        WrapCache { key: None, lines: Vec::new() }
    }

    /// The cached lines serve for this version and width.
    pub open spec fn hits(&self, version: u64, width: u16) -> bool {
        self.key == Some((version, width))
    }

    /// The wrapped lines for this version and width, calling `build` only when
    /// the cache does not serve.
    pub fn get<F: FnOnce() -> Vec<String>>(&mut self, version: u64, width: u16, build: F) -> (r:
        &[String])
        requires
            !old(self).hits(version, width) ==> build.requires(()),
        ensures
            final(self).key == Some((version, width)),
            old(self).hits(version, width) ==> final(self).lines == old(self).lines,
            !old(self).hits(version, width) ==> build.ensures((), final(self).lines),
            r@ == final(self).lines@,
    {
        let hit = match self.key {
            Some((v, w)) => v == version && w == width,
            None => false,
        };
        if !hit {
            self.lines = build();
            self.key = Some((version, width));
        }
        self.lines.as_slice()
    }
}

impl Default for WrapCache {
    fn default() -> (r: Self)
        ensures
            r.key is None,
            r.lines@ == Seq::<String>::empty(),
    {
        Self::new()
    }
}

// ── Laws ──

/// However calls are mixed, an immediate draw never waits without a pending one.
pub proof fn law_scheduler_keeps_wf(s: RenderScheduler)
    requires
        s.wf(),
    ensures
        RenderScheduler::idle().wf(),
        s.after_data().wf(),
        s.after_key().wf(),
        s.after_now().wf(),
        s.after_tick().wf(),
{
}

/// Data events, however many, ask for one draw at the next frame and none before.
pub proof fn law_data_waits_for_the_frame(s: RenderScheduler)
    ensures
        s.after_data().immediate == s.immediate,
        s.after_data().dirty,
        s.after_data().after_data() == s.after_data(),
        s.after_data().after_tick() == RenderScheduler::idle(),
{
}

/// A key asks for a draw at once, and that one draw serves the data events too.
pub proof fn law_key_draws_at_once(s: RenderScheduler)
    ensures
        s.after_key().immediate,
        s.after_key().after_now() == RenderScheduler::idle(),
        s.after_data().after_key().after_now() == RenderScheduler::idle(),
        s.after_key().after_data().after_now() == RenderScheduler::idle(),
{
}

/// The pieces of a wrapped line, one after the other.
pub open spec fn rejoined(pieces: Seq<Seq<char>>) -> Seq<char>
    decreases pieces.len(),
{
    if pieces.len() == 0 {
        Seq::empty()
    } else {
        pieces.first() + rejoined(pieces.drop_first())
    }
}

/// Wrapping loses and invents nothing: the pieces, joined, are the line.
pub proof fn law_wrap_keeps_text(s: Seq<char>, width: nat)
    ensures
        rejoined(wrapped(s, width)) == s,
    decreases s.len(),
{
    reveal_with_fuel(rejoined, 2);
    lemma_filled(s, width, 0);
    let k = filled(s, width, 0);
    if k >= s.len() {
        assert(seq![s].drop_first() =~= Seq::<Seq<char>>::empty());
        assert(rejoined(seq![s]) =~= s);
    } else {
        lemma_filled(s, width, 1);
        let rest = wrapped(s.skip(k as int), width);
        law_wrap_keeps_text(s.skip(k as int), width);
        let all = seq![s.take(k as int)] + rest;
        assert(all.drop_first() =~= rest);
        assert(all.first() == s.take(k as int));
        assert(s.take(k as int) + s.skip(k as int) =~= s);
    }
}

/// What `filled` accepts fits.
proof fn lemma_filled_fits(s: Seq<char>, width: nat, k: nat)
    requires
        k <= s.len(),
        k <= 1 || text_columns(s.take(k as int)) <= width,
    ensures
        ({
            let n = filled(s, width, k);
            n <= 1 || text_columns(s.take(n as int)) <= width
        }),
    decreases s.len() - k,
{
    if k < s.len() && (k == 0 || text_columns(s.take(k as int + 1)) <= width) {
        lemma_filled_fits(s, width, k + 1);
    }
}

/// Every piece fits the width, unless it is a single character wider than it;
/// and a line with text never yields an empty piece.
pub proof fn law_wrap_fits(s: Seq<char>, width: nat, i: int)
    requires
        0 <= i < wrapped(s, width).len(),
    ensures
        wrapped(s, width)[i].len() <= 1 || text_columns(wrapped(s, width)[i]) <= width,
        s.len() > 0 ==> wrapped(s, width)[i].len() > 0,
    decreases s.len(),
{
    lemma_filled(s, width, 0);
    lemma_filled_fits(s, width, 0);
    let k = filled(s, width, 0);
    assert(s.take(s.len() as int) =~= s);
    if k < s.len() {
        lemma_filled(s, width, 1);
        if i > 0 {
            law_wrap_fits(s.skip(k as int), width, i - 1);
        }
    }
}

/// A prefix takes no more columns than the whole.
proof fn lemma_columns_prefix(s: Seq<char>, k: int)
    requires
        0 <= k <= s.len(),
    ensures
        text_columns(s.take(k)) <= text_columns(s),
    decreases s.len() - k,
{
    if k == s.len() {
        assert(s.take(k) =~= s);
    } else {
        lemma_columns_prefix(s, k + 1);
        assert(s.take(k + 1).drop_last() =~= s.take(k));
    }
}

proof fn lemma_filled_all(s: Seq<char>, width: nat, k: nat)
    requires
        k <= s.len(),
        text_columns(s) <= width,
    ensures
        filled(s, width, k) == s.len(),
    decreases s.len() - k,
{
    if k < s.len() {
        lemma_columns_prefix(s, k as int + 1);
        lemma_filled_all(s, width, k + 1);
    }
}

/// A line that fits is left as it is.
pub proof fn law_wrap_short_line_unchanged(s: Seq<char>, width: nat)
    requires
        text_columns(s) <= width,
    ensures
        wrapped(s, width) == seq![s],
{
    lemma_filled_all(s, width, 0);
}

/// An empty line stays one empty line.
pub proof fn law_wrap_empty_line(width: nat)
    ensures
        wrapped(Seq::<char>::empty(), width) == seq![Seq::<char>::empty()],
{
}

proof fn lemma_filled_stops(s: Seq<char>, width: nat, k: nat)
    requires
        k <= s.len(),
        filled(s, width, k) < s.len(),
    ensures
        filled(s, width, k) > 0,
        text_columns(s.take(filled(s, width, k) as int + 1)) > width,
    decreases s.len() - k,
{
    if k == 0 || text_columns(s.take(k as int + 1)) <= width {
        lemma_filled_stops(s, width, k + 1);
    }
}

proof fn lemma_first_piece(s: Seq<char>, width: nat)
    requires
        s.len() > 0,
    ensures
        wrapped(s, width).len() > 0,
        wrapped(s, width)[0].len() > 0,
        wrapped(s, width)[0][0] == s[0],
{
    lemma_filled(s, width, 1);
}

/// A line is broken only where it must be: no piece has room for the first
/// character of the next.
pub proof fn law_wrap_breaks_only_when_full(s: Seq<char>, width: nat, i: int)
    requires
        0 <= i < wrapped(s, width).len() - 1,
    ensures
        wrapped(s, width)[i + 1].len() > 0,
        text_columns(wrapped(s, width)[i].push(wrapped(s, width)[i + 1][0])) > width,
    decreases s.len(),
{
    lemma_filled(s, width, 0);
    let k = filled(s, width, 0);
    lemma_filled_stops(s, width, 0);
    let rest = s.skip(k as int);
    if i == 0 {
        lemma_first_piece(rest, width);
        assert(s.take(k as int).push(rest[0]) =~= s.take(k as int + 1));
        assert(wrapped(s, width)[1] == wrapped(rest, width)[0]);
    } else {
        law_wrap_breaks_only_when_full(rest, width, i - 1);
        assert(wrapped(s, width)[i] == wrapped(rest, width)[i - 1]);
        assert(wrapped(s, width)[i + 1] == wrapped(rest, width)[i]);
    }
}

/// A text takes the columns of its characters, and a character those it is
/// displayed in; one that has no width takes one.
pub proof fn law_columns_add_up(s: Seq<char>, c: char)
    ensures
        text_columns(Seq::empty()) == 0,
        display_width(c) matches Some(w) ==> text_columns(s.push(c)) == text_columns(s) + w,
        display_width(c) is None ==> text_columns(s.push(c)) == text_columns(s) + 1,
{
    assert(s.push(c).drop_last() =~= s);
}

/// Lines are wrapped to the width asked for; none is taken for one.
pub proof fn law_wrap_width_is_at_least_one(width: u16)
    ensures
        width > 0 ==> wrap_columns(width) == width,
        width == 0 ==> wrap_columns(width) == 1,
{
}

/// A cache serves what it holds for what was asked, and nothing else.
pub proof fn law_caches_serve_what_was_asked(
    p: PaneCache,
    area: Rect,
    force: bool,
    w: WrapCache,
    version: u64,
    width: u16,
)
    ensures
        p.hits(area, force) <==> !force && (p.cached matches Some((a, _)) && a == area),
        w.hits(version, width) <==> (w.key matches Some((v, c)) && v == version && c == width),
{
}

/// With nothing waiting nothing is drawn: no frame and no look for a key changes
/// that.
pub proof fn law_idle_stays_idle(s: RenderScheduler)
    ensures
        !RenderScheduler::idle().dirty,
        !RenderScheduler::idle().immediate,
        !s.dirty ==> s.after_tick() == s,
        !s.immediate ==> s.after_now() == s,
{
}

/// The union of two areas covers both, and no side of it lies further out than it
/// has to.
pub proof fn law_union_covers_both(a: Rect, b: Rect, x: int, y: int)
    requires
        a.x + a.width <= u16::MAX,
        a.y + a.height <= u16::MAX,
        b.x + b.width <= u16::MAX,
        b.y + b.height <= u16::MAX,
    ensures
        a.has(x, y) || b.has(x, y) ==> a.union(b).has(x, y),
        a.union(b).x == a.x || a.union(b).x == b.x,
        a.union(b).y == a.y || a.union(b).y == b.y,
        a.union(b).x + a.union(b).width == a.x + a.width || a.union(b).x + a.union(b).width == b.x
            + b.width,
        a.union(b).y + a.union(b).height == a.y + a.height || a.union(b).y + a.union(b).height
            == b.y + b.height,
{
}

/// Whatever lies within a screen that starts at the origin and has no more cells
/// than can be numbered can be drawn into it.
pub proof fn law_screens_can_be_drawn_into(screen: Rect, area: Rect)
    requires
        screen.x == 0,
        screen.y == 0,
        screen.width * screen.height <= 65536,
        area.x + area.width <= screen.width,
        area.y + area.height <= screen.height,
    ensures
        mergeable(screen, area),
{
    assert(screen.union(area) == screen);
}

} // verus!
