//! One interactive session: what arriving events, keys and frame boundaries do,
//! and when to draw.

use vstd::prelude::*;

use crate::event;
use crate::event::{AppEvent, EventView, KeyEvent};
use crate::render_opt::RenderScheduler;
use crate::tui::state;
use crate::tui::App;

verus! {

/// Events taken in one go after the first, so that a busy engine never starves
/// the keys.
pub const MAX_DRAIN: usize = 512;

/// Terminal events taken in one go: a wheel flick arrives as hundreds of arrow
/// keys and is drawn once.
pub const MAX_KEY_DRAIN: usize = 256;

/// Another event is taken into a batch of `taken`.
pub open spec fn event_wanted(taken: nat) -> bool {
    taken <= MAX_DRAIN
}

/// Another terminal event is taken into a burst of `taken`.
pub open spec fn input_wanted(taken: nat) -> bool {
    taken < MAX_KEY_DRAIN
}

/// Whether to take one more event into a batch that holds `taken`.
pub fn wants_event(taken: usize) -> (r: bool)
    ensures
        r == event_wanted(taken as nat),
{
    taken <= MAX_DRAIN
}

/// Whether to take one more terminal event into a burst that holds `taken`.
pub fn wants_input(taken: usize) -> (r: bool)
    ensures
        r == input_wanted(taken as nat),
{
    taken < MAX_KEY_DRAIN
}

/// A terminal event.
#[derive(Debug, Clone, Copy, PartialEq, Eq, Structural)]
pub enum Input {
    Key(KeyEvent),
    /// Anything else (a resize): the next draw adapts.
    Other,
}

/// The state after a run of events.
pub open spec fn after_events(s: state::AppView, evs: Seq<EventView>) -> state::AppView
    decreases evs.len(),
{
    if evs.len() == 0 {
        s
    } else {
        state::after_event(after_events(s, evs.drop_last()), evs.last())
    }
}

/// The state and the pending draws after one terminal event. Letting a key go
/// does nothing.
pub open spec fn after_input(s: state::AppView, d: RenderScheduler, i: Input) -> (
    state::AppView,
    RenderScheduler,
) {
    match i {
        Input::Key(k) => if k.release {
            (s, d)
        } else {
            (state::after_key(s, k), d.after_key())
        },
        Input::Other => (s, d),
    }
}

/// The state and the pending draws after a burst of terminal events. The burst
/// ends where the user quits.
pub open spec fn after_burst(s: state::AppView, d: RenderScheduler, burst: Seq<Input>) -> (
    state::AppView,
    RenderScheduler,
)
    decreases burst.len(),
{
    if burst.len() == 0 {
        (s, d)
    } else {
        let (s1, d1) = after_input(s, d, burst.first());
        if s1.should_quit {
            (s1, d1)
        } else {
            after_burst(s1, d1, burst.drop_first())
        }
    }
}

/// The versions leave room for as many events.
pub open spec fn room_for(s: state::AppView, n: nat) -> bool {
    s.steps_ver + n <= u64::MAX && s.detail_ver + n <= u64::MAX
}

/// One event moves each version by at most one.
proof fn lemma_versions_step(s: state::AppView, ev: EventView)
    requires
        room_for(s, 1),
    ensures
        state::after_event(s, ev).steps_ver <= s.steps_ver + 1,
        state::after_event(s, ev).detail_ver <= s.detail_ver + 1,
{
}

/// A running session.
pub struct Session {
    pub app: App,
    pub sched: RenderScheduler,
    /// The engine may still send events.
    pub engine_open: bool,
}

impl Session {
    pub fn new() -> (r: Self)
        ensures
            r.app.wf(),
            r.app@ == state::AppView::initial(),
            r.sched == RenderScheduler::idle(),
            r.engine_open,
    {
        Session { app: App::new(), sched: RenderScheduler::new(), engine_open: true }
    }

    /// Whether a batch can be taken in: every step it names can be numbered, and
    /// the versions leave room.
    pub fn can_take(&self, batch: &Vec<AppEvent>) -> (r: bool)
        ensures
            r == (room_for(self.app@, batch@.len()) && forall|i: int|
                0 <= i < batch@.len() ==> state::event_fits(#[trigger] batch@[i]@)),
    {
        let n: u64 = batch.len() as u64;
        if self.app.steps_ver > u64::MAX - n || self.app.detail_ver > u64::MAX - n {
            return false;
        }
        let mut i: usize = 0;
        while i < batch.len()
            invariant
                i <= batch@.len(),
                forall|j: int| 0 <= j < i ==> state::event_fits(#[trigger] batch@[j]@),
            decreases batch@.len() - i,
        {
            if !event_ok(&batch[i]) {
                return false;
            }
            i += 1;
        }
        true
    }

    /// Take in what the engine sent; `closed` says that it will send no more. The
    /// next frame shows it.
    pub fn on_batch(&mut self, batch: Vec<AppEvent>, closed: bool)
        requires
            old(self).app.wf(),
            room_for(old(self).app@, batch@.len()),
            forall|i: int| 0 <= i < batch@.len() ==> state::event_fits(#[trigger] batch@[i]@),
        ensures
            final(self).app.wf(),
            final(self).app@ == after_events(old(self).app@, event::events_view(batch@)),
            final(self).sched == old(self).sched.after_data(),
            final(self).engine_open == (old(self).engine_open && !closed),
    {
        let ghost all = event::events_view(batch@);
        let ghost s0 = self.app@;
        let mut i: usize = 0;
        proof {
            assert(all.take(0) =~= Seq::empty());
        }
        while i < batch.len()
            invariant
                i <= batch@.len(),
                all == event::events_view(batch@),
                self.app.wf(),
                self.sched == old(self).sched,
                self.engine_open == old(self).engine_open,
                self.app@ == after_events(s0, all.take(i as int)),
                room_for(self.app@, (batch@.len() - i) as nat),
                forall|j: int| 0 <= j < batch@.len() ==> state::event_fits(#[trigger] batch@[j]@),
            decreases batch@.len() - i,
        {
            let ev = batch[i].clone();
            proof {
                lemma_versions_step(self.app@, ev@);
                assert(all.take(i as int + 1).drop_last() =~= all.take(i as int));
                assert(all.take(i as int + 1).last() == ev@);
            }
            self.app.apply(ev);
            i += 1;
        }
        proof {
            assert(all.take(all.len() as int) =~= all);
        }
        if closed {
            self.engine_open = false;
        }
        self.sched.mark_dirty();
    }

    /// Take in a burst of terminal events. Returns whether to draw now.
    pub fn on_burst(&mut self, burst: &Vec<Input>) -> (draw: bool)
        requires
            old(self).app.wf(),
        ensures
            final(self).app.wf(),
            ({
                let (s, d) = after_burst(old(self).app@, old(self).sched, burst@);
                &&& final(self).app@ == s
                &&& final(self).sched == d.after_now()
                &&& draw == d.immediate
            }),
            final(self).engine_open == old(self).engine_open,
    {
        let ghost want = after_burst(self.app@, self.sched, burst@);
        let mut i: usize = 0;
        let mut going: bool = true;
        proof {
            assert(burst@.skip(0) =~= burst@);
        }
        while going && i < burst.len()
            invariant
                i <= burst@.len(),
                self.app.wf(),
                self.engine_open == old(self).engine_open,
                going ==> after_burst(self.app@, self.sched, burst@.skip(i as int)) == want,
                !going ==> (self.app@, self.sched) == want,
            decreases burst@.len() - i,
        {
            let ghost rest = burst@.skip(i as int);
            proof {
                assert(rest.first() == burst@[i as int]);
                assert(rest.drop_first() =~= burst@.skip(i as int + 1));
            }
            match burst[i] {
                Input::Key(k) => {
                    if !k.release {
                        self.app.on_key(k);
                        self.sched.on_key();
                    }
                },
                Input::Other => {},
            }
            if self.app.should_quit {
                going = false;
            }
            i += 1;
        }
        self.sched.should_draw_now()
    }

    /// A frame boundary. Returns whether to draw.
    pub fn on_tick(&mut self) -> (draw: bool)
        ensures
            draw == old(self).sched.dirty,
            final(self).sched == old(self).sched.after_tick(),
            final(self).app == old(self).app,
            final(self).engine_open == old(self).engine_open,
    {
        self.sched.should_draw_on_tick()
    }
}

impl Default for Session {
    fn default() -> (r: Self)
        ensures
            r.app.wf(),
            r.app@ == state::AppView::initial(),
            r.sched == RenderScheduler::idle(),
            r.engine_open,
    {
        Self::new()
    }
}

/// Whether the step an event names can be numbered.
pub fn event_ok(ev: &AppEvent) -> (r: bool)
    ensures
        r == state::event_fits(ev@),
{
    match ev {
        AppEvent::StepDeclared { step, .. } => *step < usize::MAX,
        AppEvent::AgentSpawned { step, .. } => *step < usize::MAX,
        _ => true,
    }
}

// ── Laws ──

/// A key pressed anywhere in a burst is drawn at once, and the whole burst costs
/// that one draw.
pub proof fn law_burst_draws_once(
    s: state::AppView,
    d: RenderScheduler,
    burst: Seq<Input>,
    i: int,
)
    requires
        !s.should_quit,
        0 <= i < burst.len(),
        burst[i] matches Input::Key(k) && !k.release,
    ensures
        after_burst(s, d, burst).1.immediate,
        after_burst(s, d, burst).1.after_now() == RenderScheduler::idle(),
    decreases burst.len(),
{
    let (s1, d1) = after_input(s, d, burst.first());
    let rest = burst.drop_first();
    if d1.immediate {
        lemma_burst_keeps_immediate(s1, d1, rest);
    } else {
        assert(rest[i - 1] == burst[i]);
        law_burst_draws_once(s1, d1, rest, i - 1);
    }
}

proof fn lemma_burst_keeps_immediate(s: state::AppView, d: RenderScheduler, burst: Seq<Input>)
    requires
        d.immediate,
    ensures
        after_burst(s, d, burst).1.immediate,
    decreases burst.len(),
{
    if burst.len() > 0 {
        let (s1, d1) = after_input(s, d, burst.first());
        lemma_burst_keeps_immediate(s1, d1, burst.drop_first());
    }
}

/// Letting keys go, and events that are no keys, change nothing and draw nothing.
pub proof fn law_releases_do_nothing(s: state::AppView, d: RenderScheduler, burst: Seq<Input>)
    requires
        forall|i: int|
            0 <= i < burst.len() ==> (#[trigger] burst[i] matches Input::Key(k) ==> k.release),
    ensures
        after_burst(s, d, burst) == (s, d),
    decreases burst.len(),
{
    if burst.len() > 0 && !s.should_quit {
        assert(burst[0] == burst.first());
        let rest = burst.drop_first();
        assert forall|i: int| 0 <= i < rest.len() implies (#[trigger] rest[i] matches Input::Key(
            k,
        ) ==> k.release) by {
            assert(rest[i] == burst[i + 1]);
        }
        law_releases_do_nothing(s, d, rest);
    } else if burst.len() > 0 {
        assert(burst[0] == burst.first());
    }
}

/// Nothing after the key that quits is acted on.
pub proof fn law_quit_ends_the_burst(
    s: state::AppView,
    d: RenderScheduler,
    k: KeyEvent,
    rest: Seq<Input>,
)
    requires
        state::after_key(s, k).should_quit,
        !k.release,
    ensures
        after_burst(s, d, seq![Input::Key(k)] + rest) == (state::after_key(s, k), d.after_key()),
{
    let all = seq![Input::Key(k)] + rest;
    assert(all.first() == Input::Key(k));
}

/// The size of a batch that holds `taken` events once it is drained, with `queued`
/// more waiting.
pub open spec fn batch_size(taken: nat, queued: nat) -> nat
    decreases queued,
{
    if queued > 0 && event_wanted(taken) {
        batch_size(taken + 1, (queued - 1) as nat)
    } else {
        taken
    }
}

/// The size of a burst that holds `taken` terminal events once it is drained, with
/// `queued` more waiting.
pub open spec fn burst_size(taken: nat, queued: nat) -> nat
    decreases queued,
{
    if queued > 0 && input_wanted(taken) {
        burst_size(taken + 1, (queued - 1) as nat)
    } else {
        taken
    }
}

/// However much the engine has queued, a batch ends within its first event and
/// [`MAX_DRAIN`] more; less than that is taken whole.
pub proof fn law_batches_are_bounded(taken: nat, queued: nat)
    requires
        taken <= MAX_DRAIN + 1,
    ensures
        batch_size(taken, queued) == if taken + queued <= MAX_DRAIN + 1 {
            taken + queued
        } else {
            (MAX_DRAIN + 1) as nat
        },
    decreases queued,
{
    if queued > 0 && event_wanted(taken) {
        law_batches_are_bounded(taken + 1, (queued - 1) as nat);
    }
}

/// However many keys are queued, a burst ends within [`MAX_KEY_DRAIN`] of them;
/// fewer are taken whole.
pub proof fn law_bursts_are_bounded(taken: nat, queued: nat)
    requires
        taken <= MAX_KEY_DRAIN,
    ensures
        burst_size(taken, queued) == if taken + queued <= MAX_KEY_DRAIN {
            taken + queued
        } else {
            MAX_KEY_DRAIN as nat
        },
    decreases queued,
{
    if queued > 0 && input_wanted(taken) {
        law_bursts_are_bounded(taken + 1, (queued - 1) as nat);
    }
}

/// Taking a batch in at once is taking its events in one by one.
pub proof fn law_batches_compose(s: state::AppView, a: Seq<EventView>, b: Seq<EventView>)
    ensures
        after_events(s, a + b) == after_events(after_events(s, a), b),
    decreases b.len(),
{
    if b.len() == 0 {
        assert(a + b =~= a);
    } else {
        assert((a + b).drop_last() =~= a + b.drop_last());
        law_batches_compose(s, a, b.drop_last());
    }
}

} // verus!
