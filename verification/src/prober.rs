//! The decisions of the health prober.
//!
//! Probing itself waits on the network and on the clock, so the loop that
//! does it is the host's. What the loop decides is here: when a round of
//! probes is due, what a probe result does to a backend's health, and when
//! the prober ends. The host hands each event to `Prober::step` and performs
//! the action that comes back.

use vstd::prelude::*;

verus! {

/// How often the backends are probed and how long one probe may take, in
/// milliseconds. A probe always ends before the next round is due: the
/// timeout is strictly shorter than the interval.
#[derive(Clone, Copy, Debug, PartialEq, Eq)]
pub struct ProbeSchedule {
    interval_ms: u64,
    timeout_ms: u64,
}

impl ProbeSchedule {
    #[verifier::type_invariant]
    spec fn well_formed(self) -> bool {
        self.timeout_ms < self.interval_ms
    }

    /// The interval between two rounds of probes.
    pub closed spec fn interval(self) -> u64 {
        self.interval_ms
    }

    /// The time that one probe may take.
    pub closed spec fn timeout(self) -> u64 {
        self.timeout_ms
    }

    /// A schedule with the given interval and timeout; `None` unless the
    /// timeout is strictly shorter than the interval.
    pub fn new(interval_ms: u64, timeout_ms: u64) -> (schedule: Option<ProbeSchedule>)
        ensures
            schedule is Some <==> timeout_ms < interval_ms,
            schedule matches Some(s) ==> s.interval() == interval_ms && s.timeout() == timeout_ms,
    {
        if timeout_ms < interval_ms {
            Some(ProbeSchedule { interval_ms, timeout_ms })
        } else {
            None
        }
    }

    /// The interval between two rounds of probes, in milliseconds.
    pub fn interval_ms(&self) -> (interval: u64)
        ensures
            interval == self.interval(),
            self.timeout() < interval,
    {
        proof {
            use_type_invariant(self);
        }
        self.interval_ms
    }

    /// The time that one probe may take, in milliseconds.
    pub fn timeout_ms(&self) -> (timeout: u64)
        ensures
            timeout == self.timeout(),
            timeout < self.interval(),
    {
        proof {
            use_type_invariant(self);
        }
        self.timeout_ms
    }
}

/// How one probe ended.
#[derive(Clone, Copy, Debug, PartialEq, Eq)]
pub enum ProbeOutcome {
    /// The backend answered in time.
    Reachable,
    /// The backend could not be reached.
    Unreachable,
    /// The backend did not answer before the timeout.
    TimedOut,
}

/// One observation of one backend. It is used once, to set the backend's
/// health, and not kept.
#[derive(Clone, Copy, Debug, PartialEq, Eq)]
pub struct ProbeResult {
    /// The position of the probed backend in the pool.
    pub backend: usize,
    /// Whether the probe succeeded.
    pub success: bool,
    /// When the probe ended, in milliseconds on the host's clock.
    pub timestamp_ms: u64,
}

impl ProbeResult {
    /// The result of a probe of `backend` that ended as `outcome` at
    /// `timestamp_ms`. Only a backend that answered in time counts as a
    /// success.
    pub fn observed(backend: usize, outcome: ProbeOutcome, timestamp_ms: u64) -> (result:
        ProbeResult)
        ensures
            result.backend == backend,
            result.success == (outcome == ProbeOutcome::Reachable),
            result.timestamp_ms == timestamp_ms,
    {
        let success = match outcome {
            ProbeOutcome::Reachable => true,
            ProbeOutcome::Unreachable => false,
            ProbeOutcome::TimedOut => false,
        };
        ProbeResult { backend, success, timestamp_ms }
    }
}

/// What happened, as the host tells the prober.
#[derive(Clone, Copy, Debug, PartialEq, Eq)]
pub enum ProberEvent {
    /// The host woke up; its clock reads `now_ms`.
    Wake { now_ms: u64 },
    /// A probe ended.
    Probed(ProbeResult),
    /// The host is shutting down.
    Shutdown,
}

/// What the host is to do next.
#[derive(Clone, Copy, Debug, PartialEq, Eq)]
pub enum ProberAction {
    /// Probe each of the first `backends` positions of the pool now, each on
    /// its own and none waiting for another, give each `timeout_ms`, and wake
    /// the prober again at `next_wake_ms`.
    ProbeAll { backends: usize, timeout_ms: u64, next_wake_ms: u64 },
    /// No round is due yet: wake the prober again at `until_ms`.
    Sleep { until_ms: u64 },
    /// Mark the backend at position `backend` as `healthy` says.
    SetHealth { backend: usize, healthy: bool },
    /// Cancel the probes in flight and end the loop.
    Stop,
    /// Nothing.
    Nothing,
}

/// What a prober is, to its contracts.
pub struct ProberView {
    /// The interval between two rounds, in milliseconds.
    pub interval_ms: u64,
    /// The time that one probe may take, in milliseconds.
    pub timeout_ms: u64,
    /// The number of backends that are probed.
    pub backends: usize,
    /// When the next round is due, in milliseconds on the host's clock.
    pub next_round_ms: u64,
    /// Whether the prober is still running.
    pub running: bool,
}

/// The time `interval_ms` after `now_ms`, or the largest time that the clock
/// can show where that lies beyond it.
pub open spec fn round_after(now_ms: u64, interval_ms: u64) -> u64 {
    if now_ms + interval_ms > u64::MAX {
        u64::MAX
    } else {
        (now_ms + interval_ms) as u64
    }
}

impl ProberView {
    /// The prober after `event`.
    pub open spec fn after(self, event: ProberEvent) -> ProberView {
        if !self.running {
            self
        } else {
            match event {
                ProberEvent::Wake { now_ms } => if now_ms >= self.next_round_ms {
                    ProberView { next_round_ms: round_after(now_ms, self.interval_ms), ..self }
                } else {
                    self
                },
                ProberEvent::Probed(_) => self,
                ProberEvent::Shutdown => ProberView { running: false, ..self },
            }
        }
    }

    /// What the host is to do about `event`.
    pub open spec fn action(self, event: ProberEvent) -> ProberAction {
        if !self.running {
            ProberAction::Nothing
        } else {
            match event {
                ProberEvent::Wake { now_ms } => if now_ms >= self.next_round_ms {
                    ProberAction::ProbeAll {
                        backends: self.backends,
                        timeout_ms: self.timeout_ms,
                        next_wake_ms: round_after(now_ms, self.interval_ms),
                    }
                } else {
                    ProberAction::Sleep { until_ms: self.next_round_ms }
                },
                ProberEvent::Probed(result) => if result.backend < self.backends {
                    ProberAction::SetHealth { backend: result.backend, healthy: result.success }
                } else {
                    ProberAction::Nothing
                },
                ProberEvent::Shutdown => ProberAction::Stop,
            }
        }
    }

    /// The prober after `events`, in order.
    pub open spec fn after_all(self, events: Seq<ProberEvent>) -> ProberView
        decreases events.len(),
    {
        if events.len() == 0 {
            self
        } else {
            self.after_all(events.drop_last()).after(events.last())
        }
    }
}

/// The health prober's state: its schedule, the number of backends it
/// probes, when the next round is due, and whether it still runs.
pub struct Prober {
    schedule: ProbeSchedule,
    backends: usize,
    next_round_ms: u64,
    running: bool,
}

impl View for Prober {
    type V = ProberView;

    closed spec fn view(&self) -> ProberView {
        ProberView {
            interval_ms: self.schedule.interval(),
            timeout_ms: self.schedule.timeout(),
            backends: self.backends,
            next_round_ms: self.next_round_ms,
            running: self.running,
        }
    }
}

impl Prober {
    /// A running prober for `backends` backends, whose first round is due at
    /// once.
    pub fn new(schedule: ProbeSchedule, backends: usize) -> (prober: Prober)
        ensures
            prober@ == (ProberView {
                interval_ms: schedule.interval(),
                timeout_ms: schedule.timeout(),
                backends,
                next_round_ms: 0,
                running: true,
            }),
            prober@.timeout_ms < prober@.interval_ms,
    {
        proof {
            use_type_invariant(&schedule);
        }
        Prober { schedule, backends, next_round_ms: 0, running: true }
    }

    /// Whether the prober is still running.
    pub fn is_running(&self) -> (running: bool)
        ensures
            running == self@.running,
    {
        self.running
    }

    /// When the next round is due, in milliseconds on the host's clock.
    pub fn next_round_ms(&self) -> (due: u64)
        ensures
            due == self@.next_round_ms,
    {
        self.next_round_ms
    }

    /// Takes in `event` and says what the host is to do.
    ///
    /// While the prober runs: a wake-up at or after the time the next round
    /// is due starts a round and sets the round after it one interval later;
    /// an earlier wake-up sends the host back to sleep. A probe result
    /// becomes the health of its backend, at once and whatever the results
    /// before it were. A shutdown stops the prober. Once stopped, it answers
    /// every event with `Nothing`.
    pub fn step(&mut self, event: ProberEvent) -> (action: ProberAction)
        ensures
            final(self)@ == old(self)@.after(event),
            action == old(self)@.action(event),
    {
        if !self.running {
            return ProberAction::Nothing;
        }
        match event {
            ProberEvent::Wake { now_ms } => {
                if now_ms >= self.next_round_ms {
                    let interval_ms = self.schedule.interval_ms();
                    let next_wake_ms = if now_ms > u64::MAX - interval_ms {
                        u64::MAX
                    } else {
                        now_ms + interval_ms
                    };
                    self.next_round_ms = next_wake_ms;
                    ProberAction::ProbeAll {
                        backends: self.backends,
                        timeout_ms: self.schedule.timeout_ms(),
                        next_wake_ms,
                    }
                } else {
                    ProberAction::Sleep { until_ms: self.next_round_ms }
                }
            },
            ProberEvent::Probed(result) => {
                if result.backend < self.backends {
                    ProberAction::SetHealth { backend: result.backend, healthy: result.success }
                } else {
                    ProberAction::Nothing
                }
            },
            ProberEvent::Shutdown => {
                self.running = false;
                ProberAction::Stop
            },
        }
    }
}

/// Nothing but a shutdown ends the prober: after any run of events that
/// holds no shutdown, whatever the probes in it reported, a running prober
/// still runs, with the schedule and the backends it had.
pub proof fn lemma_only_shutdown_stops(prober: ProberView, events: Seq<ProberEvent>)
    requires
        prober.running,
        forall|i: int| 0 <= i < events.len() ==> !(#[trigger] events[i] is Shutdown),
    ensures
        prober.after_all(events).running,
        prober.after_all(events).interval_ms == prober.interval_ms,
        prober.after_all(events).timeout_ms == prober.timeout_ms,
        prober.after_all(events).backends == prober.backends,
    decreases events.len(),
{
    if events.len() > 0 {
        lemma_only_shutdown_stops(prober, events.drop_last());
    }
}

/// A stopped prober stays stopped and asks for nothing more.
pub proof fn lemma_stopped_is_final(prober: ProberView, event: ProberEvent)
    requires
        !prober.running,
    ensures
        prober.after(event) == prober,
        prober.action(event) == ProberAction::Nothing,
{
}

} // verus!
