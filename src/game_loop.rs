use crate::timing_stats::{TimingStats, NANOS_PER_SECOND};
use vstd::prelude::*;

verus! {

/// What the game loop drives: a fixed-rate simulation step and a frame render.
pub trait Game {
    /// Advances the simulation by one fixed step.
    fn update(&mut self);

    /// Draws a frame. The arguments are the nanoseconds since this render and since the last
    /// update started, for interpolation.
    fn render(&mut self, since_render: u64, since_update: u64);
}

/// When the loop wants to run again.
#[derive(Debug, Clone, Copy, PartialEq, Eq, Structural)]
pub enum ControlFlow {
    /// At once: something is already due.
    Poll,
    /// At the given time (nanoseconds on the caller's clock), when the next action falls due.
    WaitUntil(u64),
}

/// The scheduling state of a [`GameLoop`], as plain values. Durations and times are in
/// nanoseconds; the accumulators hold time banked toward the next update and render.
#[derive(Debug, Clone, Copy, PartialEq, Eq, Structural)]
pub struct LoopState {
    pub nanos_per_update: i64,
    pub nanos_per_render: i64,
    pub update_accumulator: i64,
    pub render_accumulator: i64,
    pub last_cycle: u64,
    pub last_update: u64,
    pub last_render: u64,
    pub render_next: bool,
    pub update_next: bool,
}

impl LoopState {
    /// Periods are positive and at most a second, and neither accumulator holds more than two
    /// of its periods.
    pub open spec fn wf(self) -> bool {
        &&& 0 < self.nanos_per_update <= NANOS_PER_SECOND
        &&& 0 < self.nanos_per_render <= NANOS_PER_SECOND
        &&& self.update_accumulator <= 2 * self.nanos_per_update
        &&& self.render_accumulator <= 2 * self.nanos_per_render
    }
}

/// The period of `rate` events per second, in whole nanoseconds.
pub open spec fn period_of(rate: u32) -> i64 {
    (NANOS_PER_SECOND as int / (rate as int)) as i64
}

/// The state of a loop started at `now`: nothing banked, nothing due.
pub open spec fn initial(nanos_per_update: i64, nanos_per_render: i64, now: u64) -> LoopState {
    LoopState {
        nanos_per_update,
        nanos_per_render,
        update_accumulator: 0,
        render_accumulator: 0,
        last_cycle: now,
        last_update: now,
        last_render: now,
        render_next: false,
        update_next: false,
    }
}

/// The time from `then` to `now`, or 0 if `now` is earlier.
pub open spec fn elapsed_since(now: u64, then: u64) -> int {
    if now >= then {
        now - then
    } else {
        0
    }
}

/// `acc` with `elapsed` added, held to at most two periods so that a stall does not cause a
/// burst of catch-up work.
pub open spec fn accumulated(acc: i64, elapsed: int, period: i64) -> i64 {
    if acc + elapsed >= 2 * period {
        (2 * period) as i64
    } else {
        (acc + elapsed) as i64
    }
}

/// `acc` less one period, stopping at `i64::MIN`.
pub open spec fn consumed(acc: i64, period: i64) -> i64 {
    if acc - period < i64::MIN {
        i64::MIN
    } else {
        (acc - period) as i64
    }
}

/// `gap` nanoseconds after `now`, stopping at `u64::MAX`.
pub open spec fn deadline(now: u64, gap: int) -> u64 {
    if now + gap > u64::MAX {
        u64::MAX as u64
    } else {
        (now + gap) as u64
    }
}

/// The state once the time since the last cycle is banked and the actions that were due have
/// been dispatched, each consuming its period and recording `now` as its start.
pub open spec fn dispatched(s: LoopState, now: u64) -> LoopState {
    let e = elapsed_since(now, s.last_cycle);
    let ua = accumulated(s.update_accumulator, e, s.nanos_per_update);
    let ra = accumulated(s.render_accumulator, e, s.nanos_per_render);
    LoopState {
        update_accumulator: if s.update_next { consumed(ua, s.nanos_per_update) } else { ua },
        render_accumulator: if s.render_next { consumed(ra, s.nanos_per_render) } else { ra },
        last_cycle: now,
        last_update: if s.update_next { now } else { s.last_update },
        last_render: if s.render_next { now } else { s.last_render },
        ..s
    }
}

/// What is due at the next wake-up, and when that is. Anything that has banked a full period
/// is due at once; otherwise the nearer deadline is waited for, and both are due on a tie.
pub open spec fn scheduled(s: LoopState, now: u64) -> (LoopState, ControlFlow) {
    let render_ready = s.render_accumulator >= s.nanos_per_render;
    let update_ready = s.update_accumulator >= s.nanos_per_update;
    let to_render = s.nanos_per_render - s.render_accumulator;
    let to_update = s.nanos_per_update - s.update_accumulator;
    if render_ready || update_ready {
        (LoopState { render_next: render_ready, update_next: update_ready, ..s }, ControlFlow::Poll)
    } else if to_render < to_update {
        (LoopState { render_next: true, update_next: false, ..s }, ControlFlow::WaitUntil(deadline(now, to_render)))
    } else if to_update < to_render {
        (LoopState { render_next: false, update_next: true, ..s }, ControlFlow::WaitUntil(deadline(now, to_update)))
    } else {
        (LoopState { render_next: true, update_next: true, ..s }, ControlFlow::WaitUntil(deadline(now, to_update)))
    }
}

/// One wake-up of the loop at `now`: bank, dispatch, reschedule.
pub open spec fn cycle(s: LoopState, now: u64) -> (LoopState, ControlFlow) {
    scheduled(dispatched(s, now), now)
}

/// A wake-up never leaves more than two periods banked in either accumulator, however long
/// the loop was stalled before it.
pub proof fn lemma_accumulators_stay_clamped(s: LoopState, now: u64)
    requires
        s.wf(),
    ensures
        cycle(s, now).0.wf(),
        cycle(s, now).0.update_accumulator <= 2 * s.nanos_per_update,
        cycle(s, now).0.render_accumulator <= 2 * s.nanos_per_render,
{
}

proof fn lemma_period_in_range(rate: int)
    requires
        0 < rate <= 1_000_000_000int,
    ensures
        0 < 1_000_000_000int / rate <= 1_000_000_000,
{
    assert(1_000_000_000int / rate >= 1) by (nonlinear_arith)
        requires 0 < rate <= 1_000_000_000int;
    assert(1_000_000_000int / rate <= 1_000_000_000) by (nonlinear_arith)
        requires 0 < rate;
}

/// `acc` plus `elapsed`, held to at most two periods.
fn accumulate(acc: i64, elapsed: u64, period: i64) -> (r: i64)
    requires
        0 < period <= NANOS_PER_SECOND,
        acc <= 2 * period,
    ensures
        r == accumulated(acc, elapsed as int, period),
{
    let cap: i64 = 2 * period;
    if (acc as i128) + (elapsed as i128) >= cap as i128 {
        cap
    } else {
        ((acc as i128) + (elapsed as i128)) as i64
    }
}

/// `acc` less one period, stopping at `i64::MIN`.
fn consume(acc: i64, period: i64) -> (r: i64)
    requires
        0 < period,
    ensures
        r == consumed(acc, period),
{
    if (acc as i128) - (period as i128) < i64::MIN as i128 {
        i64::MIN
    } else {
        acc - period
    }
}

/// A fixed-timestep scheduler: each wake-up it banks the time since the last one, runs the
/// update and render that were due, and says when it next wants to run. Updates and renders
/// keep their own rates, and catch-up after a stall is bounded.
pub struct GameLoop {
    state: LoopState,
    stats: TimingStats,
}

impl View for GameLoop {
    type V = LoopState;

    closed spec fn view(&self) -> LoopState {
        self.state
    }
}

impl GameLoop {
    pub closed spec fn stats_spec(&self) -> TimingStats {
        self.stats
    }

    pub closed spec fn wf(&self) -> bool {
        &&& self.state.wf()
        &&& self.stats.wf()
    }

    /// The scheduling state of a well-formed loop is well formed.
    pub proof fn lemma_state_wf(&self)
        requires
            self.wf(),
        ensures
            self@.wf(),
    {
    }

    /// A loop started at `now` that updates `ups` and renders `fps` times a second.
    pub fn new(ups: u32, fps: u32, now: u64) -> (r: Self)
        requires
            0 < ups <= NANOS_PER_SECOND,
            0 < fps <= NANOS_PER_SECOND,
        ensures
            r.wf(),
            r@.wf(),
            r@ == initial(period_of(ups), period_of(fps), now),
            r.stats_spec() == TimingStats::new_spec(now),
    {
        proof {
            lemma_period_in_range(ups as int);
            lemma_period_in_range(fps as int);
        }
        let nanos_per_update = (NANOS_PER_SECOND / ups as u64) as i64;
        let nanos_per_render = (NANOS_PER_SECOND / fps as u64) as i64;
        GameLoop {
            state: LoopState {
                nanos_per_update,
                nanos_per_render,
                update_accumulator: 0,
                render_accumulator: 0,
                last_cycle: now,
                last_update: now,
                last_render: now,
                render_next: false,
                update_next: false,
            },
            stats: TimingStats::new(now),
        }
    }

    /// Fifteen updates and sixty renders a second, from `now`.
    pub fn default(now: u64) -> (r: Self)
        ensures
            r.wf(),
            r@.wf(),
            r@ == initial(period_of(15), period_of(60), now),
            r.stats_spec() == TimingStats::new_spec(now),
    {
        Self::new(15, 60, now)
    }

    /// The scheduling state, as plain values.
    pub fn state(&self) -> (r: LoopState)
        ensures
            r == self@,
    {
        self.state
    }

    pub fn stats(&self) -> (r: &TimingStats)
        ensures
            *r == self.stats_spec(),
    {
        &self.stats
    }

    /// Whether a statistics window closed since the last call (see [`TimingStats::take_report`]).
    pub fn take_stats_report(&mut self) -> (r: bool)
        requires
            old(self).wf(),
        ensures
            final(self).wf(),
            r == old(self).stats_spec().report_ready_spec(),
            final(self)@ == old(self)@,
    {
        self.stats.take_report()
    }

    /// Starts over at `now`, keeping the periods: to call right before the loop runs again
    /// after a pause.
    pub fn reset(&mut self, now: u64)
        requires
            old(self).wf(),
        ensures
            final(self).wf(),
            old(self)@.wf(),
            final(self)@.wf(),
            final(self)@ == initial(old(self)@.nanos_per_update, old(self)@.nanos_per_render, now),
            final(self).stats_spec().ups_count_spec() == 0,
            final(self).stats_spec().fps_count_spec() == 0,
    {
        self.state.update_accumulator = 0;
        self.state.render_accumulator = 0;
        self.state.last_cycle = now;
        self.state.last_update = now;
        self.state.last_render = now;
        self.state.render_next = false;
        self.state.update_next = false;
        self.stats.reset(now);
    }

    /// One wake-up at `now`: banks the time since the last one, renders and then updates if
    /// each was due (recording `now` as its start first), and says when to run next. The
    /// statistics count what ran.
    pub fn update_or_render<G: Game>(&mut self, game: &mut G, now: u64) -> (r: ControlFlow)
        requires
            old(self).wf(),
        ensures
            final(self).wf(),
            old(self)@.wf(),
            final(self)@.wf(),
            final(self)@ == cycle(old(self)@, now).0,
            r == cycle(old(self)@, now).1,
            TimingStats::counted_twice(
                old(self).stats_spec(),
                old(self)@.render_next,
                old(self)@.update_next,
                now,
                final(self).stats_spec(),
            ),
    {
        let elapsed = now.saturating_sub(self.state.last_cycle);
        self.state.update_accumulator = accumulate(self.state.update_accumulator, elapsed, self.state.nanos_per_update);
        self.state.render_accumulator = accumulate(self.state.render_accumulator, elapsed, self.state.nanos_per_render);
        self.state.last_cycle = now;
        let ghost stats_before = self.stats;
        let ghost mut stats_mid = self.stats;
        if self.state.render_next {
            self.state.render_accumulator = consume(self.state.render_accumulator, self.state.nanos_per_render);
            self.state.last_render = now;
            let since_render = self.since_render(now);
            let since_update = self.since_update(now);
            game.render(since_render, since_update);
            self.stats.render(now);
            proof {
                stats_mid = self.stats;
            }
        }
        if self.state.update_next {
            self.state.update_accumulator = consume(self.state.update_accumulator, self.state.nanos_per_update);
            self.state.last_update = now;
            game.update();
            self.stats.update(now);
        }
        proof {
            assert(TimingStats::counted_render(stats_before, old(self)@.render_next, now, stats_mid));
            assert(TimingStats::counted_update(stats_mid, old(self)@.update_next, now, self.stats));
        }
        self.schedule(now)
    }

    /// Decides what is due next from the banked time; see [`scheduled`].
    fn schedule(&mut self, now: u64) -> (r: ControlFlow)
        requires
            old(self).stats.wf(),
            0 < old(self).state.nanos_per_update <= NANOS_PER_SECOND,
            0 < old(self).state.nanos_per_render <= NANOS_PER_SECOND,
            old(self).state.update_accumulator <= 2 * old(self).state.nanos_per_update,
            old(self).state.render_accumulator <= 2 * old(self).state.nanos_per_render,
        ensures
            final(self).wf(),
            (final(self)@, r) == scheduled(old(self)@, now),
            final(self).stats == old(self).stats,
    {
        let render_ready = self.state.render_accumulator >= self.state.nanos_per_render;
        let update_ready = self.state.update_accumulator >= self.state.nanos_per_update;
        if render_ready || update_ready {
            self.state.render_next = render_ready;
            self.state.update_next = update_ready;
            return ControlFlow::Poll;
        }
        let to_render = ((self.state.nanos_per_render as i128) - (self.state.render_accumulator as i128)) as u64;
        let to_update = ((self.state.nanos_per_update as i128) - (self.state.update_accumulator as i128)) as u64;
        if to_render < to_update {
            self.state.render_next = true;
            self.state.update_next = false;
            ControlFlow::WaitUntil(now.saturating_add(to_render))
        } else if to_update < to_render {
            self.state.render_next = false;
            self.state.update_next = true;
            ControlFlow::WaitUntil(now.saturating_add(to_update))
        } else {
            self.state.render_next = true;
            self.state.update_next = true;
            ControlFlow::WaitUntil(now.saturating_add(to_update))
        }
    }

    /// Nanoseconds from the start of the last update to `now`.
    pub fn since_update(&self, now: u64) -> (r: u64)
        ensures
            r == elapsed_since(now, self@.last_update),
    {
        now.saturating_sub(self.state.last_update)
    }

    /// Nanoseconds from the start of the last render to `now`.
    pub fn since_render(&self, now: u64) -> (r: u64)
        ensures
            r == elapsed_since(now, self@.last_render),
    {
        now.saturating_sub(self.state.last_render)
    }
}

} // verus!
