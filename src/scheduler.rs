use vstd::prelude::*;
use crate::error::{ConfigError, ConnectivityError};
use crate::run_opts::RunOpts;

verus! {

/// Where a timed run stands.
#[derive(Debug, Clone, Copy, PartialEq, Eq, Structural)]
pub enum Phase {
    Idle,
    Running,
    Completed,
    Failed,
}

/// What the driver of a run reports back to the scheduler.
#[derive(Debug, Clone, Copy, PartialEq, Eq, Structural)]
pub enum Event {
    /// The driver is ready to begin the first period.
    Started,
    /// Every submission of the current period was dispatched, between the two
    /// instants (milliseconds on the driver's clock); `failed` of them were
    /// rejected and recorded as failures.
    PeriodDispatched { started_ms: u64, finished_ms: u64, failed: u64 },
    /// No submission at all could be made in the current period, for `error`.
    ConnectivityLost { error: ConnectivityError },
}

/// What the scheduler asks of the driver.
#[derive(Debug, Clone, Copy, PartialEq, Eq, Structural)]
pub enum Action {
    /// Submit `count` transactions for period `period` now.
    Dispatch { period: u64, count: u64 },
    /// Wait `sleep_ms`, then submit `count` transactions for period `period`.
    SleepThenDispatch { sleep_ms: u64, period: u64, count: u64 },
    /// The run is complete.
    Complete { submitted: u64, failed: u64 },
    /// The run failed for `error` after `periods_done` whole periods.
    Abort { periods_done: u64, submitted: u64, error: ConnectivityError },
    /// The event does not fit the current phase; nothing changed.
    Ignore,
}

/// Paces a fixed number of periods of a fixed length.
#[derive(Debug, Clone, Copy, PartialEq, Eq, Structural)]
pub struct TimedSpammer {
    pub period_ms: u64,
}

impl TimedSpammer {
    pub fn new(period_ms: u64) -> (r: TimedSpammer)
        ensures
            r.period_ms == period_ms,
    {
        TimedSpammer { period_ms }
    }
}

/// Milliseconds elapsed between two instants; an instant that runs backwards
/// counts as no time at all.
pub open spec fn elapsed_spec(started_ms: u64, finished_ms: u64) -> int {
    if finished_ms >= started_ms { finished_ms - started_ms } else { 0 }
}

/// The wait before the next period: the rest of the period, or nothing when
/// the period overran, so that the next one starts at once and none is skipped.
pub open spec fn pacing_spec(period_ms: u64, started_ms: u64, finished_ms: u64) -> int {
    if elapsed_spec(started_ms, finished_ms) >= period_ms {
        0
    } else {
        period_ms - elapsed_spec(started_ms, finished_ms)
    }
}

pub fn pacing_delay(period_ms: u64, started_ms: u64, finished_ms: u64) -> (r: u64)
    ensures
        r == pacing_spec(period_ms, started_ms, finished_ms),
        r <= period_ms,
{
    let elapsed: u64 = if finished_ms >= started_ms { finished_ms - started_ms } else { 0 };
    if elapsed >= period_ms {
        0
    } else {
        period_ms - elapsed
    }
}

/// The period-by-period state of one timed run.
#[derive(Debug, Clone, Copy, PartialEq, Eq, Structural)]
pub struct Scheduler {
    pub txs_per_period: u64,
    pub periods: u64,
    pub period_ms: u64,
    pub phase: Phase,
    /// Periods whose submissions were all dispatched.
    pub periods_done: u64,
    /// Collector invocations so far: one per dispatched submission.
    pub collected: u64,
    /// Submissions among them that were rejected.
    pub failed: u64,
    /// When the last whole period finished dispatching; the next period's
    /// submissions may start no earlier.
    pub last_finished_ms: u64,
}

impl Scheduler {
    pub open spec fn wf(&self) -> bool {
        &&& self.txs_per_period >= 1
        &&& self.periods >= 1
        &&& self.periods * self.txs_per_period <= u64::MAX
        &&& self.periods_done <= self.periods
        &&& self.collected == self.periods_done * self.txs_per_period
        &&& self.failed <= self.collected
        &&& (self.phase == Phase::Idle ==> self.periods_done == 0)
        &&& (self.phase == Phase::Running ==> self.periods_done < self.periods)
        &&& (self.phase == Phase::Completed ==> self.periods_done == self.periods)
    }

    /// A scheduler that has not started.
    pub open spec fn fresh(&self, opts: RunOpts, spammer: TimedSpammer) -> bool {
        &&& self.txs_per_period == opts.txs_per_period
        &&& self.periods == opts.periods
        &&& self.period_ms == spammer.period_ms
        &&& self.phase == Phase::Idle
        &&& self.periods_done == 0
        &&& self.collected == 0
        &&& self.failed == 0
        &&& self.last_finished_ms == 0
    }

    /// A report of the current period counts when no more submissions failed
    /// than were made, and its window starts no earlier than the previous
    /// period finished and ends no earlier than it starts.
    pub open spec fn accepts_report(&self, started_ms: u64, finished_ms: u64, failed: u64) -> bool {
        failed <= self.txs_per_period && self.last_finished_ms <= started_ms && started_ms <= finished_ms
    }

    /// The scheduler after `e`.
    pub open spec fn next_state(self, e: Event) -> Scheduler {
        match (self.phase, e) {
            (Phase::Idle, Event::Started) => Scheduler { phase: Phase::Running, ..self },
            (Phase::Running, Event::PeriodDispatched { started_ms, finished_ms, failed }) =>
                if self.accepts_report(started_ms, finished_ms, failed) {
                    let done = (self.periods_done + 1) as u64;
                    Scheduler {
                        phase: if done == self.periods { Phase::Completed } else { Phase::Running },
                        periods_done: done,
                        collected: (self.collected + self.txs_per_period) as u64,
                        failed: (self.failed + failed) as u64,
                        last_finished_ms: finished_ms,
                        ..self
                    }
                } else {
                    self
                },
            (Phase::Running, Event::ConnectivityLost { error }) => Scheduler { phase: Phase::Failed, ..self },
            _ => self,
        }
    }

    /// What the scheduler asks for after `e`.
    pub open spec fn next_action(self, e: Event) -> Action {
        let s = self.next_state(e);
        match (self.phase, e) {
            (Phase::Idle, Event::Started) => Action::Dispatch { period: 0, count: self.txs_per_period },
            (Phase::Running, Event::PeriodDispatched { started_ms, finished_ms, failed }) =>
                if !self.accepts_report(started_ms, finished_ms, failed) {
                    Action::Ignore
                } else if s.phase == Phase::Completed {
                    Action::Complete { submitted: s.collected, failed: s.failed }
                } else {
                    Action::SleepThenDispatch {
                        sleep_ms: pacing_spec(self.period_ms, started_ms, finished_ms) as u64,
                        period: s.periods_done,
                        count: self.txs_per_period,
                    }
                },
            (Phase::Running, Event::ConnectivityLost { error }) =>
                Action::Abort { periods_done: self.periods_done, submitted: self.collected, error },
            _ => Action::Ignore,
        }
    }

    /// A scheduler for `opts`, paced by `spammer`; fails on options that a run
    /// cannot take.
    pub fn new(opts: &RunOpts, spammer: TimedSpammer) -> (r: Result<Scheduler, ConfigError>)
        ensures
            r is Ok <==> opts.valid(),
            r is Ok ==> r->Ok_0.wf() && r->Ok_0.fresh(*opts, spammer),
            r is Err ==> opts.validate_spec() == Err::<(), ConfigError>(r->Err_0),
    {
        match opts.validate() {
            Err(e) => Err(e),
            Ok(()) => Ok(Scheduler {
                txs_per_period: opts.txs_per_period,
                periods: opts.periods,
                period_ms: spammer.period_ms,
                phase: Phase::Idle,
                periods_done: 0,
                collected: 0,
                failed: 0,
                last_finished_ms: 0,
            }),
        }
    }

    /// Takes one event from the driver and says what to do next.
    pub fn step(&mut self, e: Event) -> (a: Action)
        requires
            old(self).wf(),
        ensures
            final(self).wf(),
            *final(self) == old(self).next_state(e),
            a == old(self).next_action(e),
    {
        match (self.phase, e) {
            (Phase::Idle, Event::Started) => {
                self.phase = Phase::Running;
                Action::Dispatch { period: 0, count: self.txs_per_period }
            },
            (Phase::Running, Event::PeriodDispatched { started_ms, finished_ms, failed }) => {
                if failed > self.txs_per_period || started_ms < self.last_finished_ms
                    || finished_ms < started_ms {
                    return Action::Ignore;
                }
                proof {
                    lemma_next_count_fits(self.periods_done as int, self.periods as int, self.txs_per_period as int);
                }
                self.periods_done = self.periods_done + 1;
                self.collected = self.collected + self.txs_per_period;
                self.failed = self.failed + failed;
                self.last_finished_ms = finished_ms;
                if self.periods_done == self.periods {
                    self.phase = Phase::Completed;
                    Action::Complete { submitted: self.collected, failed: self.failed }
                } else {
                    Action::SleepThenDispatch {
                        sleep_ms: pacing_delay(self.period_ms, started_ms, finished_ms),
                        period: self.periods_done,
                        count: self.txs_per_period,
                    }
                }
            },
            (Phase::Running, Event::ConnectivityLost { error }) => {
                self.phase = Phase::Failed;
                Action::Abort { periods_done: self.periods_done, submitted: self.collected, error }
            },
            _ => Action::Ignore,
        }
    }
}

/// The scheduler after each event of `evs` in turn.
pub open spec fn run(s: Scheduler, evs: Seq<Event>) -> Scheduler
    decreases evs.len(),
{
    if evs.len() == 0 {
        s
    } else {
        run(s.next_state(evs[0]), evs.drop_first())
    }
}

/// A report of a whole period of which at most `n` submissions failed, and
/// whose window does not run backwards.
pub open spec fn period_report(e: Event, n: u64) -> bool {
    match e {
        Event::PeriodDispatched { started_ms, finished_ms, failed } => failed <= n && started_ms <= finished_ms,
        _ => false,
    }
}

pub open spec fn report_started(e: Event) -> u64 {
    match e {
        Event::PeriodDispatched { started_ms, finished_ms, failed } => started_ms,
        _ => 0,
    }
}

pub open spec fn report_finished(e: Event) -> u64 {
    match e {
        Event::PeriodDispatched { started_ms, finished_ms, failed } => finished_ms,
        _ => 0,
    }
}

/// Period reports in time order: each period starts no earlier than `from`
/// and than the one before it finished.
pub open spec fn reports_in_order(reports: Seq<Event>, from: u64, n: u64) -> bool {
    &&& forall|i: int| 0 <= i < reports.len() ==> period_report(#[trigger] reports[i], n)
    &&& reports.len() > 0 ==> from <= report_started(reports[0])
    &&& forall|i: int| 0 < i < reports.len() ==>
        report_finished(reports[i - 1]) <= report_started(#[trigger] reports[i])
}

proof fn lemma_run_running(s: Scheduler, evs: Seq<Event>)
    requires
        s.wf(),
        s.phase == Phase::Running,
        evs.len() == s.periods - s.periods_done,
        reports_in_order(evs, s.last_finished_ms, s.txs_per_period),
    ensures
        run(s, evs).phase == Phase::Completed,
        run(s, evs).collected == s.periods * s.txs_per_period,
        run(s, evs).periods_done == s.periods,
    decreases evs.len(),
{
    lemma_next_count_fits(s.periods_done as int, s.periods as int, s.txs_per_period as int);
    assert(period_report(evs[0], s.txs_per_period));
    let t = s.next_state(evs[0]);
    assert(t.periods_done == s.periods_done + 1);
    assert(t.collected == t.periods_done * t.txs_per_period);
    assert(run(s, evs) == run(t, evs.drop_first()));
    if evs.len() == 1 {
        assert(evs.drop_first().len() == 0);
    } else {
        let rest = evs.drop_first();
        assert forall|i: int| 0 <= i < rest.len() implies period_report(#[trigger] rest[i], t.txs_per_period) by {
            assert(rest[i] == evs[i + 1]);
        }
        assert forall|i: int| 0 < i < rest.len() implies
            report_finished(rest[i - 1]) <= report_started(#[trigger] rest[i]) by {
            assert(rest[i] == evs[i + 1]);
            assert(rest[i - 1] == evs[i]);
        }
        assert(rest[0] == evs[1]);
        lemma_run_running(t, rest);
    }
}

/// A run whose every period is dispatched in full, one period after the
/// other in time, completes whatever number of its submissions fail, and
/// the collector is invoked exactly `periods * txs_per_period` times: once
/// per submission of every period.
pub proof fn lemma_full_run_invokes_collector_per_submission(
    opts: RunOpts,
    spammer: TimedSpammer,
    s: Scheduler,
    reports: Seq<Event>,
)
    requires
        s.wf(),
        s.fresh(opts, spammer),
        reports.len() == opts.periods,
        reports_in_order(reports, 0, opts.txs_per_period),
    ensures
        run(s, seq![Event::Started] + reports).phase == Phase::Completed,
        run(s, seq![Event::Started] + reports).collected == opts.periods * opts.txs_per_period,
{
    let evs = seq![Event::Started] + reports;
    assert(evs[0] == Event::Started);
    assert(evs.drop_first() == reports);
    assert(run(s, evs) == run(s.next_state(Event::Started), reports));
    lemma_run_running(s.next_state(Event::Started), reports);
}

proof fn lemma_next_count_fits(d: int, p: int, n: int)
    requires
        0 <= d < p,
        n >= 1,
    ensures
        (d + 1) * n <= p * n,
        (d + 1) * n == d * n + n,
{
    assert((d + 1) * n <= p * n) by (nonlinear_arith)
        requires d + 1 <= p, n >= 1;
    assert((d + 1) * n == d * n + n) by (nonlinear_arith);
}

} // verus!
