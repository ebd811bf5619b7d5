//! The readings of a host's GPUs, kept for a while.

use crate::outside;
use crate::shared::{GpuHistory, GpuHostStatus, GpuSample, StatusV};
use std::collections::VecDeque;
use vstd::prelude::*;

verus! {

/// How many readings are kept of the last minutes.
pub const SHORT_CAP: usize = 60;

/// How many readings are kept of the last hour.
pub const LONG_CAP: usize = 60;

/// How many milliseconds lie between two readings of the last hour.
pub const LONG_INTERVAL_MS: u64 = 60_000;

/// The seconds since 1970. Which moment it is, nothing says.
pub fn unix_now() -> u64 {
    outside::clock_secs()
}

/// The reading in a status, taken at `now` where the status does not say when.
pub open spec fn sample_at(gpu: StatusV, now: u64) -> GpuSample {
    GpuSample {
        ts_unix: match gpu.sampled_at_unix {
            Some(t) => t,
            None => now,
        },
        utilization_pct: gpu.utilization_pct,
        memory_used_mb: gpu.memory_used_mb,
        memory_utilization_pct: gpu.memory_utilization_pct,
        temperature_c: gpu.temperature_c,
        power_draw_w: gpu.power_draw_w,
    }
}

/// The reading in a status, taken now where the status does not say when.
pub fn sample_from_status(gpu: &GpuHostStatus) -> (r: GpuSample)
    ensures
        r == sample_at(gpu@, r.ts_unix),
{
    GpuSample {
        ts_unix: match gpu.sampled_at_unix {
            Some(t) => t,
            None => unix_now(),
        },
        utilization_pct: gpu.utilization_pct,
        memory_used_mb: gpu.memory_used_mb,
        memory_utilization_pct: gpu.memory_utilization_pct,
        temperature_c: gpu.temperature_c,
        power_draw_w: gpu.power_draw_w,
    }
}

/// The readings `s` with `x` behind them; the first one leaves where there are
/// `cap` already.
pub open spec fn ring_push(s: Seq<GpuSample>, cap: int, x: GpuSample) -> Seq<GpuSample> {
    if s.len() >= cap {
        s.skip(1).push(x)
    } else {
        s.push(x)
    }
}

fn push_ring(buf: &mut VecDeque<GpuSample>, cap: usize, sample: GpuSample)
    requires
        cap > 0,
    ensures
        final(buf)@ == ring_push(old(buf)@, cap as int, sample),
{
    if buf.len() >= cap {
        let _ = buf.pop_front();
        assert(buf@ =~= old(buf)@.skip(1));
    }
    buf.push_back(sample);
}

/// The readings of a host's GPUs.
#[derive(Debug)]
pub struct GpuHistoryTracker {
    pub short: VecDeque<GpuSample>,
    pub long: VecDeque<GpuSample>,
    /// When the last reading of the last hour was taken, in milliseconds.
    pub last_long_at: Option<u64>,
}

/// Whether a reading at `now` is one for the last hour.
pub open spec fn long_due(last: Option<u64>, now: u64) -> bool {
    match last {
        Some(t) => now - t >= LONG_INTERVAL_MS,
        None => true,
    }
}

/// Whether `after` is `before` with the reading of `gpu` at `now`.
pub open spec fn records(
    before: GpuHistoryTracker,
    gpu: StatusV,
    now: u64,
    after: GpuHistoryTracker,
) -> bool {
    &&& after.short@.len() > 0
    &&& {
        let x = after.short@.last();
        let due = long_due(before.last_long_at, now);
        &&& x == sample_at(gpu, x.ts_unix)
        &&& after.short@ == ring_push(before.short@, SHORT_CAP as int, x)
        &&& after.long@ == if due {
            ring_push(before.long@, LONG_CAP as int, x)
        } else {
            before.long@
        }
        &&& after.last_long_at == if due {
            Some(now)
        } else {
            before.last_long_at
        }
    }
}

impl GpuHistoryTracker {
    /// Whether no more readings are kept than there is room for.
    pub open spec fn wf(self) -> bool {
        self.short@.len() <= SHORT_CAP && self.long@.len() <= LONG_CAP
    }

    /// No readings.
    pub fn new() -> (r: Self)
        ensures
            r.wf(),
            r.short@ == Seq::<GpuSample>::empty(),
            r.long@ == Seq::<GpuSample>::empty(),
            r.last_long_at is None,
    {
        GpuHistoryTracker { short: VecDeque::new(), long: VecDeque::new(), last_long_at: None }
    }

    /// Keeps the reading in `gpu`, at `now` milliseconds of a clock that never
    /// goes back. A host without a GPU gives none.
    pub fn record(&mut self, gpu: &GpuHostStatus, now: u64)
        ensures
            old(self).wf() ==> final(self).wf(),
            !gpu.available ==> *final(self) == *old(self),
            gpu.available ==> records(*old(self), gpu@, now, *final(self)),
    {
        if !gpu.available {
            return;
        }
        let sample = sample_from_status(gpu);
        push_ring(&mut self.short, SHORT_CAP, sample);
        let due = match self.last_long_at {
            Some(t) => now >= t && now - t >= LONG_INTERVAL_MS,
            None => true,
        };
        if due {
            push_ring(&mut self.long, LONG_CAP, sample);
            self.last_long_at = Some(now);
        }
    }

    /// The readings, oldest first.
    pub fn snapshot(&self) -> (r: GpuHistory)
        ensures
            r.short@ == self.short@,
            r.long@ == self.long@,
    {
        GpuHistory { short: listed(&self.short), long: listed(&self.long) }
    }
}

impl Default for GpuHistoryTracker {
    fn default() -> (r: Self)
        ensures
            r.wf(),
            r.short@ == Seq::<GpuSample>::empty(),
            r.long@ == Seq::<GpuSample>::empty(),
            r.last_long_at is None,
    {
        GpuHistoryTracker::new()
    }
}

fn listed(buf: &VecDeque<GpuSample>) -> (r: Vec<GpuSample>)
    ensures
        r@ == buf@,
{
    let mut out: Vec<GpuSample> = Vec::new();
    let n: usize = buf.len();
    for i in 0..n
        invariant
            n == buf@.len(),
            out@ == buf@.take(i as int),
    {
        out.push(buf[i]);
        assert(out@ =~= buf@.take(i as int + 1));
    }
    assert(buf@.take(n as int) =~= buf@);
    out
}

/// The readings that are kept of `xs`, taken one after the other.
pub open spec fn kept(xs: Seq<GpuSample>, cap: int) -> Seq<GpuSample>
    decreases xs.len(),
{
    if xs.len() == 0 {
        Seq::empty()
    } else {
        ring_push(kept(xs.drop_last(), cap), cap, xs.last())
    }
}

/// Of readings that were taken one after the other, the last ones are kept, as
/// many as there is room for, in their order.
pub proof fn law_last_readings_are_kept(xs: Seq<GpuSample>, cap: int)
    requires
        cap > 0,
    ensures
        kept(xs, cap) == if xs.len() > cap {
            xs.skip(xs.len() - cap)
        } else {
            xs
        },
    decreases xs.len(),
{
    if xs.len() == 0 {
        assert(kept(xs, cap) =~= xs);
    } else {
        let before = xs.drop_last();
        law_last_readings_are_kept(before, cap);
        if before.len() > cap {
            assert(before.skip(before.len() - cap).skip(1).push(xs.last()) =~= xs.skip(
                xs.len() - cap,
            ));
        } else if before.len() == cap {
            assert(before.skip(1).push(xs.last()) =~= xs.skip(1));
        } else {
            assert(before.push(xs.last()) =~= xs);
        }
    }
}

/// A reading is kept as it was taken: load, memory, heat and power, and the time that it
/// gives.
pub proof fn law_reading_is_kept_as_taken(gpu: StatusV, now: u64)
    ensures
        sample_at(gpu, now).utilization_pct == gpu.utilization_pct,
        sample_at(gpu, now).memory_used_mb == gpu.memory_used_mb,
        sample_at(gpu, now).memory_utilization_pct == gpu.memory_utilization_pct,
        sample_at(gpu, now).temperature_c == gpu.temperature_c,
        sample_at(gpu, now).power_draw_w == gpu.power_draw_w,
        gpu.sampled_at_unix matches Some(t) ==> sample_at(gpu, now).ts_unix == t,
        gpu.sampled_at_unix is None ==> sample_at(gpu, now).ts_unix == now,
{
}

/// A reading is the latest that is kept, behind those before it; only the oldest makes
/// room for it. It is kept for the last hour too, where the latest of those is long ago.
pub proof fn law_reading_is_kept(
    before: GpuHistoryTracker,
    gpu: StatusV,
    now: u64,
    after: GpuHistoryTracker,
)
    requires
        before.wf(),
        records(before, gpu, now, after),
    ensures
        after.short@.last().utilization_pct == gpu.utilization_pct,
        after.short@.last().temperature_c == gpu.temperature_c,
        before.short@.len() < SHORT_CAP ==> after.short@.drop_last() == before.short@,
        before.short@.len() == SHORT_CAP ==> after.short@.drop_last() == before.short@.skip(1),
        before.last_long_at is None ==> after.long@.len() > 0 && after.long@.last()
            == after.short@.last() && after.last_long_at == Some(now),
        before.last_long_at matches Some(t) ==> {
            &&& now < t + LONG_INTERVAL_MS ==> after.long@ == before.long@ && after.last_long_at
                == Some(t)
            &&& now >= t + LONG_INTERVAL_MS ==> after.long@.len() > 0 && after.long@.last()
                == after.short@.last() && after.last_long_at == Some(now)
        },
{
    let x = after.short@.last();
    assert(before.short@.push(x).drop_last() =~= before.short@);
    assert(before.short@.skip(1).push(x).drop_last() =~= before.short@.skip(1));
    assert(before.long@.push(x).last() == x);
    assert(before.long@.skip(1).push(x).last() == x);
}

} // verus!
