use vstd::prelude::*;

verus! {

/// Nanoseconds in one second.
pub const NANOS_PER_SECOND: u64 = 1_000_000_000;

/// Length of the window over which update and render rates are averaged: twenty seconds.
pub const TIMING_BLOCK_NANOS: u64 = 20_000_000_000;

/// `count` events over `nanos` nanoseconds, as thousandths of an event per second (0 over no
/// time, and at most `u64::MAX`).
pub open spec fn rate_millis(count: nat, nanos: nat) -> nat {
    if nanos == 0 {
        0
    } else if count * 1_000_000_000_000 / nanos > u64::MAX {
        u64::MAX as nat
    } else {
        count * 1_000_000_000_000 / nanos
    }
}

/// Counts updates and renders and, once per window of [`TIMING_BLOCK_NANOS`], turns the counts
/// into average rates. It only observes: nothing it computes feeds back into scheduling.
///
/// Times are nanoseconds on the caller's monotonic clock.
pub struct TimingStats {
    ups_count: u64,
    fps_count: u64,
    last_timing_block_start: u64,
    timing_block_duration: u64,
    last_ups_count: u64,
    last_fps_count: u64,
    last_block_length: u64,
    report_ready: bool,
}

impl TimingStats {
    /// Updates counted in the current window.
    pub closed spec fn ups_count_spec(&self) -> nat {
        self.ups_count as nat
    }

    /// Renders counted in the current window.
    pub closed spec fn fps_count_spec(&self) -> nat {
        self.fps_count as nat
    }

    pub closed spec fn block_start_spec(&self) -> u64 {
        self.last_timing_block_start
    }

    pub closed spec fn block_duration_spec(&self) -> u64 {
        self.timing_block_duration
    }

    /// Updates and renders of the last closed window, and its length in nanoseconds.
    pub closed spec fn last_block_spec(&self) -> (nat, nat, nat) {
        (self.last_ups_count as nat, self.last_fps_count as nat, self.last_block_length as nat)
    }

    /// Whether a window closed since the report was last taken.
    pub closed spec fn report_ready_spec(&self) -> bool {
        self.report_ready
    }

    pub closed spec fn wf(&self) -> bool {
        self.timing_block_duration > 0
    }

    /// Average updates per second over the last closed window, in thousandths.
    pub fn ups_millis(&self) -> (r: u64)
        ensures
            r == rate_millis(self.last_block_spec().0, self.last_block_spec().2),
    {
        scaled_rate(self.last_ups_count, self.last_block_length)
    }

    /// Average renders per second over the last closed window, in thousandths.
    pub fn fps_millis(&self) -> (r: u64)
        ensures
            r == rate_millis(self.last_block_spec().1, self.last_block_spec().2),
    {
        scaled_rate(self.last_fps_count, self.last_block_length)
    }

    /// Statistics whose first window starts at `now`.
    pub closed spec fn new_spec(now: u64) -> TimingStats {
        TimingStats {
            ups_count: 0,
            fps_count: 0,
            last_timing_block_start: now,
            timing_block_duration: TIMING_BLOCK_NANOS,
            last_ups_count: 0,
            last_fps_count: 0,
            last_block_length: 0,
            report_ready: false,
        }
    }

    /// Statistics whose first window starts at `now`.
    pub fn new(now: u64) -> (r: TimingStats)
        ensures
            r.wf(),
            r == Self::new_spec(now),
            r.ups_count_spec() == 0,
            r.fps_count_spec() == 0,
            r.block_start_spec() == now,
            r.block_duration_spec() == TIMING_BLOCK_NANOS,
            r.last_block_spec() == (0nat, 0nat, 0nat),
            !r.report_ready_spec(),
    {
        TimingStats {
            ups_count: 0,
            fps_count: 0,
            last_timing_block_start: now,
            timing_block_duration: TIMING_BLOCK_NANOS,
            last_ups_count: 0,
            last_fps_count: 0,
            last_block_length: 0,
            report_ready: false,
        }
    }

    /// Drops the counts and the last rates, and starts a new window at `now`.
    pub fn reset(&mut self, now: u64)
        requires
            old(self).wf(),
        ensures
            final(self).wf(),
            final(self).ups_count_spec() == 0,
            final(self).fps_count_spec() == 0,
            final(self).block_start_spec() == now,
            final(self).block_duration_spec() == old(self).block_duration_spec(),
            final(self).last_block_spec() == (0nat, 0nat, 0nat),
            !final(self).report_ready_spec(),
    {
        self.ups_count = 0;
        self.fps_count = 0;
        self.last_timing_block_start = now;
        self.last_ups_count = 0;
        self.last_fps_count = 0;
        self.last_block_length = 0;
        self.report_ready = false;
    }

    /// Counts one update at `now`, then closes the window if it has run its length.
    pub fn update(&mut self, now: u64)
        requires
            old(self).wf(),
        ensures
            final(self).wf(),
            Self::counted(*old(self), old(self).ups_count_spec() + 1, old(self).fps_count_spec(), now, *final(self)),
    {
        if self.ups_count < u64::MAX {
            self.ups_count = self.ups_count + 1;
        }
        self.check_for_time_block_end(now);
    }

    /// Counts one render at `now`, then closes the window if it has run its length.
    pub fn render(&mut self, now: u64)
        requires
            old(self).wf(),
        ensures
            final(self).wf(),
            Self::counted(*old(self), old(self).ups_count_spec(), old(self).fps_count_spec() + 1, now, *final(self)),
    {
        if self.fps_count < u64::MAX {
            self.fps_count = self.fps_count + 1;
        }
        self.check_for_time_block_end(now);
    }

    /// After counting up to `ups` updates and `fps` renders at `now`, `before` became `after`:
    /// if the window has run its length, its counts and length are kept as the last window's
    /// and a new window starts at `now`; else the counts simply stand. Counts stop at
    /// `u64::MAX`.
    pub open spec fn counted(before: TimingStats, ups: nat, fps: nat, now: u64, after: TimingStats) -> bool {
        let ups = if ups > u64::MAX { u64::MAX as nat } else { ups };
        let fps = if fps > u64::MAX { u64::MAX as nat } else { fps };
        let elapsed = if now >= before.block_start_spec() { now - before.block_start_spec() } else { 0 };
        &&& after.block_duration_spec() == before.block_duration_spec()
        &&& if elapsed >= before.block_duration_spec() {
            &&& after.last_block_spec() == (ups, fps, elapsed as nat)
            &&& after.ups_count_spec() == 0
            &&& after.fps_count_spec() == 0
            &&& after.block_start_spec() == now
            &&& after.report_ready_spec()
        } else {
            &&& after.last_block_spec() == before.last_block_spec()
            &&& after.ups_count_spec() == ups
            &&& after.fps_count_spec() == fps
            &&& after.block_start_spec() == before.block_start_spec()
            &&& after.report_ready_spec() == before.report_ready_spec()
        }
    }

    /// `before` became `after` by counting a render at `now` if `render`, and by nothing else.
    pub open spec fn counted_render(before: TimingStats, render: bool, now: u64, after: TimingStats) -> bool {
        if render {
            Self::counted(before, before.ups_count_spec(), before.fps_count_spec() + 1, now, after)
        } else {
            after == before
        }
    }

    /// `before` became `after` by counting an update at `now` if `update`, and by nothing else.
    pub open spec fn counted_update(before: TimingStats, update: bool, now: u64, after: TimingStats) -> bool {
        if update {
            Self::counted(before, before.ups_count_spec() + 1, before.fps_count_spec(), now, after)
        } else {
            after == before
        }
    }

    /// `before` became `after` by counting, at `now`, a render if `render` and then an update if
    /// `update`.
    pub open spec fn counted_twice(before: TimingStats, render: bool, update: bool, now: u64, after: TimingStats) -> bool {
        exists|mid: TimingStats|
            #[trigger] Self::counted_render(before, render, now, mid) && Self::counted_update(mid, update, now, after)
    }

    fn check_for_time_block_end(&mut self, now: u64)
        requires
            old(self).wf(),
        ensures
            final(self).wf(),
            Self::counted(*old(self), old(self).ups_count_spec(), old(self).fps_count_spec(), now, *final(self)),
    {
        let time_since_last = now.saturating_sub(self.last_timing_block_start);
        if time_since_last >= self.timing_block_duration {
            self.last_ups_count = self.ups_count;
            self.last_fps_count = self.fps_count;
            self.last_block_length = time_since_last;
            self.ups_count = 0;
            self.fps_count = 0;
            self.last_timing_block_start = now;
            self.report_ready = true;
        }
    }

    /// Whether a window closed since the last call; the rates of that window can then be read
    /// from [`TimingStats::ups_millis`] and [`TimingStats::fps_millis`].
    pub fn take_report(&mut self) -> (r: bool)
        ensures
            r == old(self).report_ready_spec(),
            !final(self).report_ready_spec(),
            final(self).ups_count_spec() == old(self).ups_count_spec(),
            final(self).fps_count_spec() == old(self).fps_count_spec(),
            final(self).block_start_spec() == old(self).block_start_spec(),
            final(self).block_duration_spec() == old(self).block_duration_spec(),
            final(self).last_block_spec() == old(self).last_block_spec(),
            old(self).wf() ==> final(self).wf(),
    {
        let r = self.report_ready;
        self.report_ready = false;
        r
    }
}

fn scaled_rate(count: u64, nanos: u64) -> (r: u64)
    ensures
        r == rate_millis(count as nat, nanos as nat),
{
    if nanos == 0 {
        return 0;
    }
    let scaled: u128 = (count as u128) * 1_000_000_000_000u128;
    let q: u128 = scaled / (nanos as u128);
    if q > u64::MAX as u128 {
        u64::MAX
    } else {
        q as u64
    }
}

} // verus!
