use vstd::prelude::*;

verus! {

/// Game tics per second.
pub const CLOCK_HZ: u64 = 35;

/// Samples in the rolling frame-time average.
pub const AVG_TICKS_MAXSAMPLES: usize = 16;

/// The sum of a sample window.
pub open spec fn spec_sum(s: Seq<u64>) -> int
    decreases s.len(),
{
    if s.len() == 0 {
        0
    } else {
        spec_sum(s.drop_last()) + s.last()
    }
}

/// The game clock: real time accumulates in microseconds, and the tic
/// counter is always the floor of the timestamp times the tic rate. A
/// rolling window of the last sixteen frame intervals feeds the FPS
/// estimate.
pub struct Clock {
    /// Microseconds since the start of the game.
    pub timestamp_micros: u64,
    /// Whole 35 Hz tics elapsed since the start of the game.
    pub ticks: u64,
    /// Circular buffer position.
    pub index: usize,
    /// Sum of the sample window, in microseconds.
    pub rolling_sum: u64,
    /// The sample window.
    pub list: Vec<u64>,
}

impl Clock {
    /// The tic counter tracks the timestamp exactly, and the rolling sum
    /// tracks the window. The timestamp bound keeps every product of the
    /// tic rate inside u64.
    pub open spec fn wf(self) -> bool {
        &&& self.ticks == self.timestamp_micros * 35 / 1_000_000
        &&& self.list@.len() == 16
        &&& self.index < 16
        &&& self.rolling_sum == spec_sum(self.list@)
        &&& self.timestamp_micros <= 0x2_0000_0000_0000
        &&& forall|i: int| 0 <= i < 16 ==> #[trigger] self.list@[i] <= 0x2_0000_0000_0000
    }

    /// A clock at time zero.
    pub fn new() -> (r: Clock)
        ensures
            r.wf(),
            r.timestamp_micros == 0,
            r.ticks == 0,
    {
        let mut list: Vec<u64> = Vec::new();
        let mut i: usize = 0;
        while i < AVG_TICKS_MAXSAMPLES
            invariant
                i <= 16,
                list@.len() == i,
                forall|j: int| 0 <= j < i ==> #[trigger] list@[j] == 0,
            decreases 16 - i,
        {
            list.push(0);
            i = i + 1;
        }
        proof {
            lemma_sum_zero(list@);
        }
        Clock { timestamp_micros: 0, ticks: 0, index: 0, rolling_sum: 0, list }
    }

    /// Advance the clock by an elapsed real-time interval: the timestamp
    /// grows by the interval, the tic counter stays the exact floor of
    /// timestamp times 35, and the interval replaces the oldest sample of
    /// the rolling window.
    pub fn add_elapsed_interval(&mut self, interval_micros: u64)
        requires
            old(self).wf(),
            old(self).timestamp_micros + interval_micros <= 0x2_0000_0000_0000,
        ensures
            final(self).wf(),
            final(self).timestamp_micros == old(self).timestamp_micros + interval_micros,
            final(self).ticks == (old(self).timestamp_micros + interval_micros) * 35
                / 1_000_000,
            final(self).list@ == old(self).list@.update(
                old(self).index as int,
                interval_micros,
            ),
            final(self).index == (old(self).index + 1) % 16,
    {
        self.timestamp_micros = self.timestamp_micros + interval_micros;
        self.ticks = self.timestamp_micros * 35 / 1_000_000;
        let old_sample = self.list[self.index];
        proof {
            lemma_sum_update(self.list@, self.index as int, interval_micros);
            lemma_sum_bounded(self.list@);
            lemma_sum_element_le(self.list@, self.index as int);
        }
        self.rolling_sum = self.rolling_sum - old_sample + interval_micros;
        self.list.set(self.index, interval_micros);
        self.index = self.index + 1;
        if self.index == AVG_TICKS_MAXSAMPLES {
            self.index = 0;
        }
    }

    /// The average frame interval over the window, in microseconds.
    pub fn avg_frame_micros(&self) -> (r: u64)
        requires
            self.wf(),
        ensures
            r == spec_sum(self.list@) / 16,
    {
        self.rolling_sum / 16
    }
}

/// A window of zeros sums to zero.
proof fn lemma_sum_zero(s: Seq<u64>)
    requires
        forall|j: int| 0 <= j < s.len() ==> #[trigger] s[j] == 0,
    ensures
        spec_sum(s) == 0,
    decreases s.len(),
{
    if s.len() > 0 {
        lemma_sum_zero(s.drop_last());
    }
}

/// Replacing one sample changes the sum by the difference.
proof fn lemma_sum_update(s: Seq<u64>, i: int, v: u64)
    requires
        0 <= i < s.len(),
    ensures
        spec_sum(s.update(i, v)) == spec_sum(s) - s[i] + v,
    decreases s.len(),
{
    if s.len() > 0 {
        if i == s.len() - 1 {
            assert(s.update(i, v).drop_last() =~= s.drop_last());
        } else {
            assert(s.update(i, v).drop_last() =~= s.drop_last().update(i, v));
            lemma_sum_update(s.drop_last(), i, v);
        }
    }
}

/// Every sample is at most the bound, so the sum stays small.
proof fn lemma_sum_bounded(s: Seq<u64>)
    requires
        forall|i: int| 0 <= i < s.len() ==> #[trigger] s[i] <= 0x2_0000_0000_0000,
    ensures
        0 <= spec_sum(s) <= s.len() * 0x2_0000_0000_0000,
    decreases s.len(),
{
    if s.len() > 0 {
        lemma_sum_bounded(s.drop_last());
    }
}

/// Each sample is at most the whole window's sum.
proof fn lemma_sum_element_le(s: Seq<u64>, i: int)
    requires
        0 <= i < s.len(),
    ensures
        s[i] <= spec_sum(s),
    decreases s.len(),
{
    lemma_sum_nonneg(s.drop_last());
    if i < s.len() - 1 {
        lemma_sum_element_le(s.drop_last(), i);
    }
}

/// A window of unsigned samples never sums below zero.
proof fn lemma_sum_nonneg(s: Seq<u64>)
    ensures
        spec_sum(s) >= 0,
    decreases s.len(),
{
    if s.len() > 0 {
        lemma_sum_nonneg(s.drop_last());
    }
}

/// Game clock law: over any elapsed interval, the number of tics fired is
/// the difference of the floors — `floor((t + dt)·35) − floor(t·35)`,
/// with time in microseconds.
pub proof fn lemma_game_clock(before: Clock, after: Clock, dt: int)
    requires
        before.wf(),
        after.wf(),
        after.timestamp_micros == before.timestamp_micros + dt,
    ensures
        after.ticks - before.ticks == (before.timestamp_micros + dt) * 35 / 1_000_000
            - before.timestamp_micros * 35 / 1_000_000,
{
}

} // verus!
