//! Scheduling calls to an engine: a budget of calls at a time, retries where they are safe, and a
//! circuit breaker. Times are milliseconds of one clock.

use vstd::prelude::*;
use crate::inference::contract::{
    fault, inference_error, Fault, InferenceDecision, InferenceError, InferenceErrorKind,
};
use crate::inference::parse::fault_option;
use crate::inference::request::{InferenceInput3p, InferenceInput4p};

verus! {

/// Stage of a riichi that is declared first and discarded then.
#[derive(Debug, Clone, Copy, PartialEq, Eq, Structural)]
pub enum DriverStage {
    /// The decision itself.
    Primary,
    /// Which tile to discard, once riichi is declared.
    RiichiSecondStage,
}

/// What a stage gives: a decision, or that riichi is declared.
#[derive(Debug)]
pub enum StageDecision {
    Decision(InferenceDecision),
    DeclareReach,
}

/// How an engine is doing, for scheduling only.
#[derive(Debug)]
pub enum DriverHealth {
    Healthy,
    Unhealthy(String),
    Unknown,
}

/// Something that decides for a seat.
pub trait InferenceDriver {
    fn infer_4p(&self, input: &InferenceInput4p<'_>) -> Result<InferenceDecision, InferenceError>;

    fn infer_3p(&self, input: &InferenceInput3p<'_>) -> Result<InferenceDecision, InferenceError>;

    /// Gets ready ahead of the first decision.
    fn warmup(&self) -> (r: Result<(), InferenceError>)
        default_ensures
            r is Ok,
    {
        Ok(())
    }

    fn health(&self) -> (r: DriverHealth)
        default_ensures
            r == DriverHealth::Unknown,
    {
        DriverHealth::Unknown
    }

    /// Most calls at a time.
    fn max_concurrency(&self) -> (r: usize)
        default_ensures
            r == 1,
    {
        1
    }

    /// Shuts down as well as it can.
    fn drain(&self) {
    }

    fn infer_stage_4p(&self, input: &InferenceInput4p<'_>, stage: DriverStage) -> (r: Result<StageDecision, InferenceError>)
        default_ensures
            match r {
                Ok(StageDecision::Decision(d)) => call_ensures(
                    Self::infer_4p,
                    (self, input),
                    Ok::<InferenceDecision, InferenceError>(d),
                ),
                Ok(StageDecision::DeclareReach) => false,
                Err(e) => call_ensures(Self::infer_4p, (self, input), Err::<InferenceDecision, InferenceError>(e)),
            },
    {
        match self.infer_4p(input) {
            Ok(d) => Ok(StageDecision::Decision(d)),
            Err(e) => Err(e),
        }
    }

    fn infer_stage_3p(&self, input: &InferenceInput3p<'_>, stage: DriverStage) -> (r: Result<StageDecision, InferenceError>)
        default_ensures
            match r {
                Ok(StageDecision::Decision(d)) => call_ensures(
                    Self::infer_3p,
                    (self, input),
                    Ok::<InferenceDecision, InferenceError>(d),
                ),
                Ok(StageDecision::DeclareReach) => false,
                Err(e) => call_ensures(Self::infer_3p, (self, input), Err::<InferenceDecision, InferenceError>(e)),
            },
    {
        match self.infer_3p(input) {
            Ok(d) => Ok(StageDecision::Decision(d)),
            Err(e) => Err(e),
        }
    }

    /// A stage that has to be done by a time; a driver that cannot keep to it ignores it.
    fn infer_stage_4p_within(&self, input: &InferenceInput4p<'_>, stage: DriverStage, deadline: Option<u64>) -> (r: Result<
        StageDecision,
        InferenceError,
    >)
        default_ensures
            call_ensures(Self::infer_stage_4p, (self, input, stage), r),
    {
        self.infer_stage_4p(input, stage)
    }

    fn infer_stage_3p_within(&self, input: &InferenceInput3p<'_>, stage: DriverStage, deadline: Option<u64>) -> (r: Result<
        StageDecision,
        InferenceError,
    >)
        default_ensures
            call_ensures(Self::infer_stage_3p, (self, input, stage), r),
    {
        self.infer_stage_3p(input, stage)
    }
}

// Deadlines.

/// Time left for a call: up to the deadline, and no more than the cap.
pub open spec fn time_left(deadline: Option<u64>, now: u64, cap: u64) -> u64 {
    match deadline {
        None => cap,
        Some(d) => if d <= now {
            0
        } else if d - now < cap {
            (d - now) as u64
        } else {
            cap
        },
    }
}

/// No call takes longer than its cap or runs past its deadline; one whose deadline has passed gets
/// no time at all.
pub proof fn calls_keep_to_their_deadline(deadline: Option<u64>, now: u64, cap: u64)
    ensures
        time_left(deadline, now, cap) <= cap,
        deadline is Some && now <= deadline->0 ==> now + time_left(deadline, now, cap) <= deadline->0,
        deadline is Some && deadline->0 <= now ==> time_left(deadline, now, cap) == 0,
{
}

/// Time left for a call. None is left once the deadline has passed.
pub fn call_timeout_from_deadline(deadline: Option<u64>, now: u64, cap: u64) -> (r: u64)
    ensures
        r == time_left(deadline, now, cap),
        r <= cap,
        deadline is Some ==> now + r <= deadline->0 || r == 0,
{
    match deadline {
        None => cap,
        Some(d) => {
            if d <= now {
                0
            } else if d - now < cap {
                d - now
            } else {
                cap
            }
        },
    }
}

/// Time left for a call, or that the deadline has passed before it was made.
pub fn call_budget(deadline: Option<u64>, now: u64, cap: u64) -> (r: Result<u64, InferenceError>)
    ensures
        match r {
            Ok(t) => t == time_left(deadline, now, cap) && t > 0,
            Err(e) => time_left(deadline, now, cap) == 0 && e@ == fault(
                InferenceErrorKind::Timeout,
                "decision deadline exhausted before driver call"@,
            ),
        },
{
    let t = call_timeout_from_deadline(deadline, now, cap);
    if t == 0 {
        Err(inference_error(InferenceErrorKind::Timeout, "decision deadline exhausted before driver call"))
    } else {
        Ok(t)
    }
}

// Providers.

/// How calls to a provider are scheduled.
#[derive(Debug, Clone, Copy, PartialEq, Eq, Structural)]
pub struct ProviderPolicy {
    /// Most calls at a time; 0 leaves it to the engine.
    pub max_concurrency: usize,
    /// Most retries of a call that failed before anything was sent.
    pub max_retries: usize,
    /// Failures in a row that open the breaker.
    pub trip_threshold: usize,
    /// Time for which an open breaker lets nothing through.
    pub cooldown: u64,
}

impl Default for ProviderPolicy {
    fn default() -> (r: Self)
        ensures
            r == (ProviderPolicy { max_concurrency: 0, max_retries: 0, trip_threshold: 5, cooldown: 10000 }),
    {
        ProviderPolicy { max_concurrency: 0, max_retries: 0, trip_threshold: 5, cooldown: 10000 }
    }
}

/// What is known of a provider's calls.
#[derive(Debug, Clone, Copy, PartialEq, Eq, Structural)]
pub struct ProviderMetrics {
    pub calls: usize,
    pub failures: usize,
    pub rejected_open: usize,
    pub circuit_open: bool,
}

/// The breaker: closed, open until a time, or half-open with a probe in flight.
#[derive(Debug, Clone, Copy, PartialEq, Eq, Structural)]
pub struct BreakerState {
    pub consecutive_failures: usize,
    pub open_until: Option<u64>,
    pub half_open_inflight: bool,
}

/// What happens to a call at the breaker.
#[derive(Debug, Clone, Copy, PartialEq, Eq, Structural)]
pub enum Admission {
    /// It goes through.
    Pass,
    /// It goes through as the one probe of a half-open breaker.
    Probe,
    /// The breaker is open.
    Open,
    /// The breaker is half-open and its probe is in flight.
    ProbeInFlight,
}

impl BreakerState {
    pub open spec fn closed() -> BreakerState {
        BreakerState { consecutive_failures: 0, open_until: None, half_open_inflight: false }
    }

    pub open spec fn is_open(self, now: u64) -> bool {
        self.open_until is Some && now < self.open_until->0
    }

    pub open spec fn admission(self, now: u64) -> Admission {
        match self.open_until {
            None => Admission::Pass,
            Some(until) => if now < until {
                Admission::Open
            } else if self.half_open_inflight {
                Admission::ProbeInFlight
            } else {
                Admission::Probe
            },
        }
    }

    pub open spec fn after_admission(self, now: u64) -> BreakerState {
        if self.admission(now) == Admission::Probe {
            BreakerState { half_open_inflight: true, ..self }
        } else {
            self
        }
    }

    pub open spec fn after_failure(self, policy: ProviderPolicy, now: u64) -> BreakerState {
        let n = self.consecutive_failures + 1;
        BreakerState {
            consecutive_failures: n as usize,
            open_until: if n >= policy.trip_threshold { Some((now + policy.cooldown) as u64) } else { self.open_until },
            half_open_inflight: false,
        }
    }
}

/// What a refused call is answered.
pub open spec fn refusal(a: Admission) -> Option<Fault> {
    match a {
        Admission::Open => Some(fault(InferenceErrorKind::EngineUnavailable, "provider circuit open"@)),
        Admission::ProbeInFlight => Some(
            fault(InferenceErrorKind::EngineUnavailable, "provider half-open probe already in flight"@),
        ),
        _ => None,
    }
}

/// Whether a call that failed is made again: only where nothing was sent, as often as the policy
/// allows, and before the deadline.
pub open spec fn is_retried(policy: ProviderPolicy, kind: InferenceErrorKind, attempt: usize, now: u64, deadline: Option<u64>) -> bool {
    kind == InferenceErrorKind::PreSendUnavailable && attempt < policy.max_retries && (deadline is None || now < deadline->0)
}

/// The scheduling of a provider: its budget of calls, its breaker and its counts.
#[derive(Debug)]
pub struct ProviderSchedule {
    pub policy: ProviderPolicy,
    pub concurrency: usize,
    pub permits: usize,
    pub breaker: BreakerState,
    pub calls: usize,
    pub failures: usize,
    pub rejected_open: usize,
}

pub open spec fn bumped(n: usize) -> usize {
    if n == usize::MAX { 0 } else { (n + 1) as usize }
}

fn bump(n: usize) -> (r: usize)
    ensures
        r == bumped(n),
{
    if n == usize::MAX {
        0
    } else {
        n + 1
    }
}

impl ProviderSchedule {
    /// No more calls than the budget are under way.
    pub open spec fn is_sound(&self) -> bool {
        self.concurrency >= 1 && self.permits <= self.concurrency
    }

    /// A provider whose engine allows some calls at a time.
    pub fn new(policy: ProviderPolicy, inner_max_concurrency: usize) -> (r: Self)
        ensures
            r.is_sound(),
            r.policy == policy,
            r.concurrency == if policy.max_concurrency != 0 {
                policy.max_concurrency
            } else if inner_max_concurrency == 0 {
                1
            } else {
                inner_max_concurrency
            },
            r.permits == r.concurrency,
            r.breaker == BreakerState::closed(),
            r.calls == 0 && r.failures == 0 && r.rejected_open == 0,
    {
        let concurrency = if policy.max_concurrency != 0 {
            policy.max_concurrency
        } else if inner_max_concurrency == 0 {
            1
        } else {
            inner_max_concurrency
        };
        ProviderSchedule {
            policy,
            concurrency,
            permits: concurrency,
            breaker: BreakerState { consecutive_failures: 0, open_until: None, half_open_inflight: false },
            calls: 0,
            failures: 0,
            rejected_open: 0,
        }
    }

    /// Takes a place in the budget if one is free.
    pub fn acquire(&mut self) -> (r: bool)
        requires
            old(self).is_sound(),
        ensures
            final(self).is_sound(),
            r == (old(self).permits > 0),
            *final(self) == (ProviderSchedule {
                permits: if r { (old(self).permits - 1) as usize } else { old(self).permits },
                ..*old(self)
            }),
    {
        if self.permits == 0 {
            false
        } else {
            self.permits = self.permits - 1;
            true
        }
    }

    /// How long a call may go on waiting for a place: without a limit, for some time, or no longer.
    pub fn wait_budget(&self, deadline: Option<u64>, now: u64) -> (r: Result<Option<u64>, InferenceError>)
        ensures
            match r {
                Ok(None) => deadline is None,
                Ok(Some(t)) => deadline is Some && t > 0 && now + t == deadline->0,
                Err(e) => deadline is Some && deadline->0 <= now && e@ == fault(
                    InferenceErrorKind::Timeout,
                    "provider concurrency wait exceeded decision deadline"@,
                ),
            },
    {
        match deadline {
            None => Ok(None),
            Some(d) => {
                if d <= now {
                    Err(
                        inference_error(
                            InferenceErrorKind::Timeout,
                            "provider concurrency wait exceeded decision deadline",
                        ),
                    )
                } else {
                    Ok(Some(d - now))
                }
            },
        }
    }

    /// Gives a place in the budget back.
    pub fn release(&mut self)
        requires
            old(self).is_sound(),
            old(self).permits < old(self).concurrency,
        ensures
            final(self).is_sound(),
            *final(self) == (ProviderSchedule { permits: (old(self).permits + 1) as usize, ..*old(self) }),
    {
        self.permits = self.permits + 1;
    }

    /// Asks the breaker whether a call goes through, and counts the call or the refusal.
    pub fn begin_call(&mut self, now: u64) -> (r: Result<(), InferenceError>)
        ensures
            fault_option(r) == refusal(old(self).breaker.admission(now)),
            *final(self) == (ProviderSchedule {
                breaker: old(self).breaker.after_admission(now),
                calls: if r is Ok { bumped(old(self).calls) } else { old(self).calls },
                rejected_open: if r is Ok { old(self).rejected_open } else { bumped(old(self).rejected_open) },
                ..*old(self)
            }),
    {
        match self.breaker.open_until {
            None => {},
            Some(until) => {
                if now < until {
                    self.rejected_open = bump(self.rejected_open);
                    return Err(inference_error(InferenceErrorKind::EngineUnavailable, "provider circuit open"));
                }
                if self.breaker.half_open_inflight {
                    self.rejected_open = bump(self.rejected_open);
                    return Err(
                        inference_error(
                            InferenceErrorKind::EngineUnavailable,
                            "provider half-open probe already in flight",
                        ),
                    );
                }
                self.breaker.half_open_inflight = true;
            },
        }
        self.calls = bump(self.calls);
        Ok(())
    }

    /// A call went well: the breaker closes.
    pub fn on_success(&mut self)
        ensures
            *final(self) == (ProviderSchedule { breaker: BreakerState::closed(), ..*old(self) }),
    {
        self.breaker.consecutive_failures = 0;
        self.breaker.open_until = None;
        self.breaker.half_open_inflight = false;
    }

    /// A call failed for good: enough failures in a row open the breaker.
    pub fn on_failure(&mut self, now: u64)
        requires
            old(self).breaker.consecutive_failures < usize::MAX,
            now + old(self).policy.cooldown <= u64::MAX,
        ensures
            *final(self) == (ProviderSchedule {
                breaker: old(self).breaker.after_failure(old(self).policy, now),
                failures: bumped(old(self).failures),
                ..*old(self)
            }),
    {
        self.failures = bump(self.failures);
        self.breaker.consecutive_failures = self.breaker.consecutive_failures + 1;
        self.breaker.half_open_inflight = false;
        if self.breaker.consecutive_failures >= self.policy.trip_threshold {
            self.breaker.open_until = Some(now + self.policy.cooldown);
        }
    }

    /// Whether a call that failed is made again.
    pub fn retries(&self, kind: InferenceErrorKind, attempt: usize, now: u64, deadline: Option<u64>) -> (r: bool)
        ensures
            r == is_retried(self.policy, kind, attempt, now, deadline),
    {
        let in_time = match deadline {
            None => true,
            Some(d) => now < d,
        };
        kind == InferenceErrorKind::PreSendUnavailable && attempt < self.policy.max_retries && in_time
    }

    fn circuit_open(&self, now: u64) -> (r: bool)
        ensures
            r == self.breaker.is_open(now),
    {
        match self.breaker.open_until {
            Some(until) => now < until,
            None => false,
        }
    }

    pub fn metrics(&self, now: u64) -> (r: ProviderMetrics)
        ensures
            r == (ProviderMetrics {
                calls: self.calls,
                failures: self.failures,
                rejected_open: self.rejected_open,
                circuit_open: self.breaker.is_open(now),
            }),
    {
        ProviderMetrics {
            calls: self.calls,
            failures: self.failures,
            rejected_open: self.rejected_open,
            circuit_open: self.circuit_open(now),
        }
    }

    /// How the provider is doing, given how its engine is.
    pub fn health(&self, now: u64, inner: DriverHealth) -> (r: DriverHealth)
        ensures
            if self.breaker.is_open(now) {
                r is Unhealthy && r->Unhealthy_0@ == "provider circuit open"@
            } else {
                r == inner
            },
    {
        if self.circuit_open(now) {
            DriverHealth::Unhealthy(crate::text::owned("provider circuit open"))
        } else {
            inner
        }
    }
}

// Laws of the breaker.

/// The breaker after some failures in a row.
pub open spec fn after_failures(b: BreakerState, policy: ProviderPolicy, times: Seq<u64>) -> BreakerState
    decreases times.len(),
{
    if times.len() == 0 {
        b
    } else {
        after_failures(b, policy, times.drop_last()).after_failure(policy, times.last())
    }
}

/// A closed breaker opens with exactly as many failures in a row as the threshold says, and
/// then stays open for the cooldown after the last of them.
pub proof fn failures_in_a_row_open_the_breaker(policy: ProviderPolicy, times: Seq<u64>)
    requires
        times.len() <= usize::MAX,
        forall|i: int| 0 <= i < times.len() ==> #[trigger] times[i] + policy.cooldown <= u64::MAX,
    ensures
        ({
            let b = after_failures(BreakerState::closed(), policy, times);
            &&& b.consecutive_failures == times.len()
            &&& times.len() == 0 || times.len() < policy.trip_threshold ==> b.open_until is None
            &&& times.len() > 0 && times.len() >= policy.trip_threshold ==> b.open_until == Some(
                (times.last() + policy.cooldown) as u64,
            )
        }),
    decreases times.len(),
{
    if times.len() > 0 {
        let rest = times.drop_last();
        assert forall|i: int| 0 <= i < rest.len() implies #[trigger] rest[i] + policy.cooldown <= u64::MAX by {
            assert(rest[i] == times[i]);
        }
        failures_in_a_row_open_the_breaker(policy, rest);
    }
}

/// An open breaker lets nothing through before its time.
pub proof fn open_breakers_let_nothing_through(b: BreakerState, now: u64)
    requires
        b.is_open(now),
    ensures
        refusal(b.admission(now)) is Some,
        b.after_admission(now) == b,
{
}

/// After the cooldown one call goes through, and no other until it has ended.
pub proof fn half_open_breakers_let_one_probe_through(b: BreakerState, now: u64, later: u64)
    requires
        b.open_until is Some,
        b.open_until->0 <= now <= later,
        !b.half_open_inflight,
    ensures
        b.admission(now) == Admission::Probe,
        b.after_admission(now).admission(later) == Admission::ProbeInFlight,
        b.after_admission(now).after_admission(later) == b.after_admission(now),
{
}

/// A timeout is never retried, nor any other error after which something may have been sent.
pub proof fn only_unsent_calls_are_retried(policy: ProviderPolicy, kind: InferenceErrorKind, attempt: usize, now: u64, deadline: Option<u64>)
    requires
        is_retried(policy, kind, attempt, now, deadline),
    ensures
        kind == InferenceErrorKind::PreSendUnavailable,
        attempt < policy.max_retries,
{
}

} // verus!
