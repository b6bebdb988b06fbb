//! The scheduler: exactly one cycle, or daemon-mode recurring cycles at
//! a fixed interval with an immediate first tick.
//!
//! The scheduler only decides; the caller performs each tick it hands
//! out, waiting for the full duration of a `Wait` tick after the
//! previous cycle has completed and before asking for the next tick.
//! Under that discipline each daemon cycle after the first starts only
//! once the interval has elapsed since the previous cycle completed.

use vstd::prelude::*;

use crate::addr::IpAddress;

verus! {

/// Where the scheduler stands between ticks.
#[derive(Clone, Copy, Debug, PartialEq, Eq, Structural)]
pub enum SchedPhase {
    /// No cycle has been asked for yet.
    Initial,
    /// A cycle was handed out and has completed.
    Ran,
    /// The inter-cycle wait was handed out.
    Waited,
    /// No further cycle will run.
    Finished,
}

/// What the caller must do next: run one cycle, wait this many time
/// units, or stop.
#[derive(Clone, Copy, Debug, PartialEq, Eq, Structural)]
pub enum Tick {
    Run,
    Wait(u64),
    Stop,
}

/// Drives one-shot or daemon-mode operation, and remembers the last
/// resolved address to notice changes.
#[derive(Debug)]
pub struct Scheduler {
    /// Daemon mode: cycles recur until the process is terminated.
    pub daemon: bool,
    /// Time units between a cycle's completion and the next cycle's
    /// start.  Meaningful only in daemon mode.
    pub interval: u64,
    /// Where the scheduler stands.
    pub phase: SchedPhase,
    /// The address the previous cycle resolved, if any.
    pub prev: Option<IpAddress>,
}

/// The tick the scheduler hands out in a state, and the state that
/// follows it.
pub open spec fn next_spec(s: Scheduler) -> (SchedPhase, Tick) {
    match s.phase {
        SchedPhase::Initial => (SchedPhase::Ran, Tick::Run),
        SchedPhase::Ran => if s.daemon {
            (SchedPhase::Waited, Tick::Wait(s.interval))
        } else {
            (SchedPhase::Finished, Tick::Stop)
        },
        SchedPhase::Waited => (SchedPhase::Ran, Tick::Run),
        SchedPhase::Finished => (SchedPhase::Finished, Tick::Stop),
    }
}

impl Scheduler {
    /// A scheduler that has run nothing yet.
    pub fn new(daemon: bool, interval: u64) -> (s: Scheduler)
        ensures
            s.daemon == daemon,
            s.interval == interval,
            s.phase is Initial,
            s.prev is None,
    {
        Scheduler { daemon, interval, phase: SchedPhase::Initial, prev: None }
    }

    /// Hands out the next tick.  The first tick is always `Run`, with no
    /// wait before it; in daemon mode every later `Run` is preceded by a
    /// `Wait` of the full interval; without daemon mode the single cycle
    /// is followed by `Stop`.
    pub fn next(&mut self) -> (t: Tick)
        ensures
            (final(self).phase, t) == next_spec(*old(self)),
            final(self).daemon == old(self).daemon,
            final(self).interval == old(self).interval,
            final(self).prev == old(self).prev,
    {
        let t = match self.phase {
            SchedPhase::Initial => {
                self.phase = SchedPhase::Ran;
                Tick::Run
            },
            SchedPhase::Ran => {
                if self.daemon {
                    self.phase = SchedPhase::Waited;
                    Tick::Wait(self.interval)
                } else {
                    self.phase = SchedPhase::Finished;
                    Tick::Stop
                }
            },
            SchedPhase::Waited => {
                self.phase = SchedPhase::Ran;
                Tick::Run
            },
            SchedPhase::Finished => Tick::Stop,
        };
        t
    }

    /// Notes the address a cycle resolved.  Reports whether it differs
    /// from the previous cycle's; the report is informational and never
    /// alters dispatch.
    pub fn observe(&mut self, addr: IpAddress) -> (changed: bool)
        ensures
            changed == (old(self).prev matches Some(p) && p != addr),
            final(self).prev == Some(addr),
            final(self).daemon == old(self).daemon,
            final(self).interval == old(self).interval,
            final(self).phase == old(self).phase,
    {
        let changed = match self.prev {
            Some(p) => p != addr,
            None => false,
        };
        self.prev = Some(addr);
        changed
    }
}

/// Builds the scheduler for the requested execution mode.  Daemon mode
/// demands a configured re-sync interval; without it the application
/// cannot run.  In one-shot mode the interval is never consulted.
pub fn plan_scheduler(cfg: &crate::cfg::Config, run: &crate::cli::Runtime) -> (r: Result<
    Scheduler,
    crate::err::Error,
>)
    ensures
        match r {
            Ok(s) => {
                &&& s.daemon == run.daemon
                &&& s.phase is Initial
                &&& s.prev is None
                &&& (run.daemon ==> (cfg.daemon matches Some(d) && s.interval == d.timeout))
            },
            Err(e) => run.daemon && cfg.daemon is None && e == crate::err::Error::Other,
        },
{
    if run.daemon {
        match &cfg.daemon {
            Some(d) => Ok(Scheduler::new(true, d.timeout)),
            None => Err(crate::err::Error::Other),
        }
    } else {
        Ok(Scheduler::new(false, 0))
    }
}

/// The very first tick runs a cycle at once: no wait precedes it.
pub proof fn lemma_first_tick_immediate(s: Scheduler)
    requires
        s.phase is Initial,
    ensures
        next_spec(s).1 is Run,
{
}

/// In daemon mode, after a cycle has completed, the scheduler hands out
/// a wait of the full interval and only then the next cycle: the next
/// cycle starts no sooner than `interval` time units after the previous
/// cycle's completion.
pub proof fn lemma_daemon_spacing(s: Scheduler)
    requires
        s.daemon,
        s.phase is Ran,
    ensures
        next_spec(s).1 == Tick::Wait(s.interval),
        ({
            let s1 = Scheduler { phase: next_spec(s).0, ..s };
            next_spec(s1).1 is Run
        }),
{
}

/// Without daemon mode exactly one cycle runs: once it has completed,
/// the scheduler stops.
pub proof fn lemma_single_cycle(s: Scheduler)
    requires
        !s.daemon,
        s.phase is Ran,
    ensures
        next_spec(s).1 is Stop,
        next_spec(s).0 is Finished,
{
}

} // verus!
