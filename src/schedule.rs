//! The fixed-rate clock of the poll loop and the bookkeeping of each tick's export.
//!
//! Each tick's boundary is one period after the previous tick's start. After a tick the
//! loop sleeps only for what remains until that boundary, so ticks that fit in their
//! period start one period apart without drift. A slow tick shortens the following
//! sleep to nothing: the next tick starts as soon as it ends, none is skipped, and the
//! ticks after it are again one full period apart, with no burst to catch up.

use vstd::prelude::*;

verus! {

/// The sink's answer to a batched write.
#[derive(Clone, Copy, Debug, PartialEq, Eq, Structural)]
pub enum SinkError {
    WriteFailed,
}

/// A failed export, as a tick reports it.
#[derive(Clone, Copy, Debug, PartialEq, Eq, Structural)]
pub enum ExportError {
    WriteFailed,
}

/// The boundary one period after `boundary`, held at the largest time representable.
pub open spec fn next_boundary(boundary: u64, period_ms: u64) -> u64 {
    if boundary + period_ms > u64::MAX {
        u64::MAX
    } else {
        (boundary + period_ms) as u64
    }
}

/// How long to sleep at `now_ms` to wake at `boundary`.
pub open spec fn sleep_until(boundary: u64, now_ms: u64) -> u64 {
    if boundary > now_ms {
        (boundary - now_ms) as u64
    } else {
        0
    }
}

/// What a finished tick tells the loop.
#[derive(Clone, Copy, Debug)]
pub struct TickReport {
    /// Milliseconds to sleep before the next tick starts.
    pub sleep_ms: u64,
    /// The outcome of this tick's export.
    pub export: Result<(), ExportError>,
}

pub struct PollScheduler {
    period_ms: u64,
    next_boundary_ms: u64,
    ticks: u64,
    failed_exports: u64,
}

pub struct SchedulerView {
    pub period_ms: u64,
    pub next_boundary_ms: u64,
    pub ticks: u64,
    pub failed_exports: u64,
}

impl View for PollScheduler {
    type V = SchedulerView;

    closed spec fn view(&self) -> SchedulerView {
        SchedulerView {
            period_ms: self.period_ms,
            next_boundary_ms: self.next_boundary_ms,
            ticks: self.ticks,
            failed_exports: self.failed_exports,
        }
    }
}

/// The export outcome that a sink answer makes.
pub open spec fn export_of(sink: Result<(), SinkError>) -> Result<(), ExportError> {
    match sink {
        Ok(_) => Ok(()),
        Err(_) => Err(ExportError::WriteFailed),
    }
}

/// The scheduler after a tick that ends at `now_ms` with the sink's answer `sink`.
/// The next boundary is one period after this tick's, or the tick's end where the tick
/// ran past it.
pub open spec fn after_tick(s: SchedulerView, now_ms: u64, sink: Result<(), SinkError>) -> SchedulerView {
    SchedulerView {
        period_ms: s.period_ms,
        next_boundary_ms: if now_ms > next_boundary(s.next_boundary_ms, s.period_ms) {
            now_ms
        } else {
            next_boundary(s.next_boundary_ms, s.period_ms)
        },
        ticks: if s.ticks == u64::MAX { s.ticks } else { (s.ticks + 1) as u64 },
        failed_exports: if sink is Err && s.failed_exports < u64::MAX {
            (s.failed_exports + 1) as u64
        } else {
            s.failed_exports
        },
    }
}

impl PollScheduler {
    /// A scheduler whose first tick starts at `start_ms`, then one every `period_ms`.
    pub fn new(start_ms: u64, period_ms: u64) -> (r: PollScheduler)
        requires
            period_ms > 0,
        ensures
            r@ == (SchedulerView {
                period_ms,
                next_boundary_ms: start_ms,
                ticks: 0,
                failed_exports: 0,
            }),
    {
        PollScheduler { period_ms, next_boundary_ms: start_ms, ticks: 0, failed_exports: 0 }
    }

    pub fn period_ms(&self) -> (r: u64)
        ensures
            r == self@.period_ms,
    {
        self.period_ms
    }

    /// The start of the tick that has not yet finished.
    pub fn current_boundary_ms(&self) -> (r: u64)
        ensures
            r == self@.next_boundary_ms,
    {
        self.next_boundary_ms
    }

    pub fn ticks(&self) -> (r: u64)
        ensures
            r == self@.ticks,
    {
        self.ticks
    }

    pub fn failed_exports(&self) -> (r: u64)
        ensures
            r == self@.failed_exports,
    {
        self.failed_exports
    }

    /// Closes the tick that ends at `now_ms`, whose export the sink answered with `sink`
    /// (an empty batch is written too). The next boundary is one period after
    /// this tick's, or `now_ms` where the tick ran past that, whatever the export's
    /// outcome; the sleep reaches it.
    pub fn finish_tick(&mut self, now_ms: u64, sink: Result<(), SinkError>) -> (r: TickReport)
        ensures
            final(self)@ == after_tick(old(self)@, now_ms, sink),
            r.sleep_ms == sleep_until(final(self)@.next_boundary_ms, now_ms),
            r.export == export_of(sink),
    {
        let boundary = self.next_boundary_ms.saturating_add(self.period_ms);
        self.next_boundary_ms = if now_ms > boundary { now_ms } else { boundary };
        self.ticks = self.ticks.saturating_add(1);
        let export = match sink {
            Ok(_) => Ok(()),
            Err(_) => {
                self.failed_exports = self.failed_exports.saturating_add(1);
                Err(ExportError::WriteFailed)
            },
        };
        let sleep_ms = if self.next_boundary_ms > now_ms {
            self.next_boundary_ms - now_ms
        } else {
            0
        };
        TickReport { sleep_ms, export }
    }
}

/// The scheduler and the start of the next tick after ticks whose work lasts
/// `works[k]` milliseconds each, the first starting at the scheduler's boundary and
/// every export succeeding.
pub open spec fn run_ticks(s: SchedulerView, works: Seq<nat>) -> (SchedulerView, int)
    decreases works.len(),
{
    if works.len() == 0 {
        (s, s.next_boundary_ms as int)
    } else {
        let (t, start) = run_ticks(s, works.drop_last());
        let end = start + works.last();
        let after = after_tick(t, end as u64, Ok(()));
        (after, end + sleep_until(after.next_boundary_ms, end as u64))
    }
}

/// Ticks whose work fits in a period start exactly one period apart: after `n` of
/// them, `n` periods have elapsed since the first started.
pub proof fn ticks_keep_fixed_rate(s: SchedulerView, works: Seq<nat>)
    requires
        forall|k: int| 0 <= k < works.len() ==> works[k] <= s.period_ms,
        s.next_boundary_ms + works.len() * s.period_ms + s.period_ms <= u64::MAX,
        s.ticks + works.len() <= u64::MAX,
    ensures
        run_ticks(s, works).1 == s.next_boundary_ms + works.len() * s.period_ms,
        run_ticks(s, works).0.next_boundary_ms == s.next_boundary_ms + works.len() * s.period_ms,
        run_ticks(s, works).0.ticks == s.ticks + works.len(),
        run_ticks(s, works).0.period_ms == s.period_ms,
    decreases works.len(),
{
    let n = works.len() as int;
    if n > 0 {
        assert((n - 1) * s.period_ms + s.period_ms == n * s.period_ms) by (nonlinear_arith);
        ticks_keep_fixed_rate(s, works.drop_last());
    }
}

/// A tick that overruns its period is not skipped: the next tick starts as soon as it
/// ends, and when that tick takes no time, the one after it starts a full period later.
pub proof fn slow_tick_not_skipped(s: SchedulerView, work: nat, sink: Result<(), SinkError>)
    requires
        work > s.period_ms,
        s.next_boundary_ms + work + s.period_ms <= u64::MAX,
    ensures
        ({
            let end = (s.next_boundary_ms + work) as u64;
            let slow = after_tick(s, end, sink);
            let quick = after_tick(slow, end, Ok(()));
            &&& slow.next_boundary_ms == end
            &&& sleep_until(slow.next_boundary_ms, end) == 0
            &&& slow.ticks == after_tick(s, end, sink).ticks
            &&& quick.next_boundary_ms == end + s.period_ms
            &&& sleep_until(quick.next_boundary_ms, end) == s.period_ms
        }),
{
}

/// A failed export leaves the schedule as a successful one does: the next tick comes at
/// the same time and its export is attempted afresh.
pub proof fn export_failure_keeps_schedule(s: SchedulerView, now_ms: u64)
    ensures
        after_tick(s, now_ms, Err(SinkError::WriteFailed)).next_boundary_ms == after_tick(
            s,
            now_ms,
            Ok(()),
        ).next_boundary_ms,
        after_tick(s, now_ms, Err(SinkError::WriteFailed)).ticks == after_tick(
            s,
            now_ms,
            Ok(()),
        ).ticks,
        after_tick(s, now_ms, Err(SinkError::WriteFailed)).period_ms == s.period_ms,
        export_of(Ok(())) == Ok::<(), ExportError>(()),
{
}

} // verus!
