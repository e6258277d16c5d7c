//! Retry-then-fallback routing of one payment.
//!
//! The router is a state machine: it names the processor to call next, and is
//! fed the outcome of each call. The default processor is retried on timeouts
//! up to a retry budget, with Fibonacci backoff delays capped at a maximum; a
//! definitive rejection by the default processor diverts to the fallback at
//! once; the fallback is called at most once, and any failure there ends the
//! attempt with no record. The caller performs the calls and the waiting; the
//! machine makes every decision.

use vstd::prelude::*;
use crate::models::ServerPayment;

verus! {

/// First backoff delay against the default processor, in milliseconds.
pub const BACKOFF_BASE_MS: u64 = 20;

/// Cap on any single backoff delay, in milliseconds.
pub const BACKOFF_MAX_DELAY_MS: u64 = 1000;

/// How one processor call ended, as the router classifies it: accepted,
/// timed out, or failed definitively (any non-timeout failure).
#[derive(Clone, Copy, PartialEq, Eq, Structural, Debug)]
pub enum AttemptOutcome {
    Accepted,
    TimedOut,
    Rejected,
}

/// How a whole routing attempt ends: a record to store in the named
/// partition, or a silent drop with nothing written.
#[derive(Clone, Copy, PartialEq, Eq, Structural, Debug)]
pub enum RouteOutcome {
    Stored(ServerPayment),
    Dropped,
}

/// What the router is doing: waiting for the outcome of a call to the named
/// processor, or finished.
#[derive(Clone, Copy, PartialEq, Eq, Structural, Debug)]
pub enum RouterStatus {
    Calling(ServerPayment),
    Finished(RouteOutcome),
}

/// The smaller of two naturals.
pub open spec fn min_nat(a: nat, b: nat) -> nat {
    if a <= b {
        a
    } else {
        b
    }
}

/// `a + b`, stuck at `u64::MAX` instead of wrapping.
pub open spec fn sat_add_u64(a: u64, b: u64) -> u64 {
    if a + b > u64::MAX {
        u64::MAX
    } else {
        (a + b) as u64
    }
}

/// The pure Fibonacci delay sequence starting from `base`:
/// `base, base, 2*base, 3*base, 5*base, ...`.
pub open spec fn spec_fib_delay(base: nat, i: nat) -> nat
    decreases i,
{
    if i <= 1 {
        base
    } else {
        spec_fib_delay(base, (i - 1) as nat) + spec_fib_delay(base, (i - 2) as nat)
    }
}

/// Fibonacci backoff state: the delay to use now, the one after it, and the
/// cap applied to every delay handed out.
#[derive(Clone, Copy, PartialEq, Eq, Structural, Debug)]
pub struct FibonacciBackoff {
    pub curr_ms: u64,
    pub next_ms: u64,
    pub max_delay_ms: u64,
}

impl FibonacciBackoff {
    /// A fresh schedule: the first two delays both equal `base_ms`.
    pub open spec fn spec_new(base_ms: u64, max_delay_ms: u64) -> Self {
        FibonacciBackoff { curr_ms: base_ms, next_ms: base_ms, max_delay_ms }
    }

    /// The delay the schedule hands out in its current state.
    pub open spec fn spec_delay(self) -> u64 {
        if self.curr_ms > self.max_delay_ms {
            self.max_delay_ms
        } else {
            self.curr_ms
        }
    }

    /// The state after handing a delay out: the pair advances one Fibonacci
    /// step, saturating rather than overflowing.
    pub open spec fn spec_advanced(self) -> Self {
        FibonacciBackoff {
            curr_ms: self.next_ms,
            next_ms: sat_add_u64(self.curr_ms, self.next_ms),
            max_delay_ms: self.max_delay_ms,
        }
    }

    pub fn new(base_ms: u64, max_delay_ms: u64) -> (b: Self)
        ensures
            b == Self::spec_new(base_ms, max_delay_ms),
    {
        FibonacciBackoff { curr_ms: base_ms, next_ms: base_ms, max_delay_ms }
    }

    /// Hand out the next delay (capped at `max_delay_ms`) and advance the
    /// schedule one Fibonacci step.
    pub fn next_delay(&mut self) -> (delay_ms: u64)
        ensures
            delay_ms == old(self).spec_delay(),
            *final(self) == old(self).spec_advanced(),
    {
        let delay = if self.curr_ms > self.max_delay_ms {
            self.max_delay_ms
        } else {
            self.curr_ms
        };
        let sum = if self.curr_ms > u64::MAX - self.next_ms {
            u64::MAX
        } else {
            self.curr_ms + self.next_ms
        };
        self.curr_ms = self.next_ms;
        self.next_ms = sum;
        delay
    }
}

/// The routing state machine for one payment.
#[derive(Clone, Copy, PartialEq, Eq, Structural, Debug)]
pub struct Router {
    pub status: RouterStatus,
    pub retries_left: u64,
    pub backoff: FibonacciBackoff,
}

impl Router {
    /// A fresh attempt: about to call the default processor, with
    /// `retry_budget` timeout retries left and a fresh backoff schedule.
    pub open spec fn spec_new(retry_budget: u64) -> Router {
        Router {
            status: RouterStatus::Calling(ServerPayment::Default),
            retries_left: retry_budget,
            backoff: FibonacciBackoff::spec_new(BACKOFF_BASE_MS, BACKOFF_MAX_DELAY_MS),
        }
    }

    pub fn new(retry_budget: u64) -> (r: Router)
        ensures
            r == Router::spec_new(retry_budget),
    {
        Router {
            status: RouterStatus::Calling(ServerPayment::Default),
            retries_left: retry_budget,
            backoff: FibonacciBackoff::new(BACKOFF_BASE_MS, BACKOFF_MAX_DELAY_MS),
        }
    }

    /// One transition of the machine on the outcome of the pending call.
    ///
    /// Against the default processor: acceptance finishes toward `default`;
    /// a definitive rejection diverts to the fallback without retrying; a
    /// timeout retries the default while budget is left (advancing the
    /// backoff), and diverts to the fallback once it is spent. Against the
    /// fallback: acceptance finishes toward `fallback`; anything else drops
    /// the payment. A finished machine does not move.
    pub open spec fn spec_step(self, o: AttemptOutcome) -> Router {
        match self.status {
            RouterStatus::Calling(ServerPayment::Default) => match o {
                AttemptOutcome::Accepted => Router {
                    status: RouterStatus::Finished(RouteOutcome::Stored(ServerPayment::Default)),
                    ..self
                },
                AttemptOutcome::Rejected => Router {
                    status: RouterStatus::Calling(ServerPayment::Fallback),
                    ..self
                },
                AttemptOutcome::TimedOut => {
                    if self.retries_left > 0 {
                        Router {
                            status: RouterStatus::Calling(ServerPayment::Default),
                            retries_left: (self.retries_left - 1) as u64,
                            backoff: self.backoff.spec_advanced(),
                        }
                    } else {
                        Router { status: RouterStatus::Calling(ServerPayment::Fallback), ..self }
                    }
                },
            },
            RouterStatus::Calling(ServerPayment::Fallback) => match o {
                AttemptOutcome::Accepted => Router {
                    status: RouterStatus::Finished(RouteOutcome::Stored(ServerPayment::Fallback)),
                    ..self
                },
                _ => Router { status: RouterStatus::Finished(RouteOutcome::Dropped), ..self },
            },
            RouterStatus::Finished(_) => self,
        }
    }

    /// The backoff delay the machine asks the caller to wait before its next
    /// call: nonzero only when a timeout is being retried against the
    /// default processor.
    pub open spec fn spec_step_delay(self, o: AttemptOutcome) -> u64 {
        if self.status == RouterStatus::Calling(ServerPayment::Default)
            && o == AttemptOutcome::TimedOut && self.retries_left > 0 {
            self.backoff.spec_delay()
        } else {
            0
        }
    }

    /// Feed the machine the outcome of the pending processor call. Returns
    /// the backoff delay in milliseconds to wait before the next call (zero
    /// when there is nothing to wait for).
    pub fn record_outcome(&mut self, o: AttemptOutcome) -> (delay_ms: u64)
        ensures
            *final(self) == old(self).spec_step(o),
            delay_ms == old(self).spec_step_delay(o),
    {
        match self.status {
            RouterStatus::Calling(ServerPayment::Default) => match o {
                AttemptOutcome::Accepted => {
                    self.status = RouterStatus::Finished(
                        RouteOutcome::Stored(ServerPayment::Default),
                    );
                    0
                },
                AttemptOutcome::Rejected => {
                    self.status = RouterStatus::Calling(ServerPayment::Fallback);
                    0
                },
                AttemptOutcome::TimedOut => {
                    if self.retries_left > 0 {
                        self.retries_left = self.retries_left - 1;
                        self.backoff.next_delay()
                    } else {
                        self.status = RouterStatus::Calling(ServerPayment::Fallback);
                        0
                    }
                },
            },
            RouterStatus::Calling(ServerPayment::Fallback) => {
                match o {
                    AttemptOutcome::Accepted => {
                        self.status = RouterStatus::Finished(
                            RouteOutcome::Stored(ServerPayment::Fallback),
                        );
                    },
                    _ => {
                        self.status = RouterStatus::Finished(RouteOutcome::Dropped);
                    },
                }
                0
            },
            RouterStatus::Finished(_) => 0,
        }
    }
}

/// Rank of a router state for termination: the default phase can only move
/// toward the fallback phase, and the fallback phase only toward finishing.
pub open spec fn spec_rank(r: Router) -> int {
    match r.status {
        RouterStatus::Calling(ServerPayment::Default) => 2,
        RouterStatus::Calling(ServerPayment::Fallback) => 1,
        RouterStatus::Finished(_) => 0,
    }
}

/// The state the machine reaches when every call to the default processor
/// ends as `d` and every call to the fallback ends as `f`.
pub open spec fn spec_run(r: Router, d: AttemptOutcome, f: AttemptOutcome) -> Router
    decreases spec_rank(r), r.retries_left,
{
    match r.status {
        RouterStatus::Finished(_) => r,
        RouterStatus::Calling(p) => {
            let o = if p == ServerPayment::Default {
                d
            } else {
                f
            };
            spec_run(r.spec_step(o), d, f)
        },
    }
}

/// How many calls such a run makes to the default processor.
pub open spec fn spec_run_default_attempts(r: Router, d: AttemptOutcome, f: AttemptOutcome) -> nat
    decreases spec_rank(r), r.retries_left,
{
    match r.status {
        RouterStatus::Finished(_) => 0,
        RouterStatus::Calling(p) => {
            let o = if p == ServerPayment::Default {
                d
            } else {
                f
            };
            (if p == ServerPayment::Default {
                1nat
            } else {
                0nat
            }) + spec_run_default_attempts(r.spec_step(o), d, f)
        },
    }
}

/// The backoff delays such a run asks the caller to wait, in order.
pub open spec fn spec_run_delays(r: Router, d: AttemptOutcome, f: AttemptOutcome) -> Seq<u64>
    decreases spec_rank(r), r.retries_left,
{
    match r.status {
        RouterStatus::Finished(_) => Seq::empty(),
        RouterStatus::Calling(p) => {
            let o = if p == ServerPayment::Default {
                d
            } else {
                f
            };
            let rest = spec_run_delays(r.spec_step(o), d, f);
            if p == ServerPayment::Default && o == AttemptOutcome::TimedOut && r.retries_left
                > 0 {
                seq![r.spec_step_delay(o)] + rest
            } else {
                rest
            }
        },
    }
}

/// Routing determinism under success: while the default processor accepts
/// every payment, a routing attempt stores its record in the `default`
/// partition — never in `fallback` — after a single call, whatever the
/// fallback would have answered.
pub proof fn lemma_default_success_routes_default(r: Router, f: AttemptOutcome)
    requires
        r.status == RouterStatus::Calling(ServerPayment::Default),
    ensures
        spec_run(r, AttemptOutcome::Accepted, f).status == RouterStatus::Finished(
            RouteOutcome::Stored(ServerPayment::Default),
        ),
        spec_run_default_attempts(r, AttemptOutcome::Accepted, f) == 1,
        spec_run_delays(r, AttemptOutcome::Accepted, f) == Seq::<u64>::empty(),
{
    reveal_with_fuel(spec_run, 3);
    reveal_with_fuel(spec_run_default_attempts, 3);
    reveal_with_fuel(spec_run_delays, 3);
    let stepped = r.spec_step(AttemptOutcome::Accepted);
    assert(stepped.status == RouterStatus::Finished(RouteOutcome::Stored(ServerPayment::Default)));
}

/// Fallback correctness: while the default processor rejects every payment
/// definitively and the fallback accepts, a routing attempt stores its record
/// in the `fallback` partition, after exactly one call to the default
/// processor — a definitive rejection is never retried — and without waiting.
pub proof fn lemma_definitive_error_falls_back(r: Router)
    requires
        r.status == RouterStatus::Calling(ServerPayment::Default),
    ensures
        spec_run(r, AttemptOutcome::Rejected, AttemptOutcome::Accepted).status
            == RouterStatus::Finished(RouteOutcome::Stored(ServerPayment::Fallback)),
        spec_run_default_attempts(r, AttemptOutcome::Rejected, AttemptOutcome::Accepted) == 1,
        spec_run_delays(r, AttemptOutcome::Rejected, AttemptOutcome::Accepted) == Seq::<
            u64,
        >::empty(),
{
    reveal_with_fuel(spec_run, 4);
    reveal_with_fuel(spec_run_default_attempts, 4);
    reveal_with_fuel(spec_run_delays, 4);
    let s1 = r.spec_step(AttemptOutcome::Rejected);
    let s2 = s1.spec_step(AttemptOutcome::Accepted);
    assert(s1.status == RouterStatus::Calling(ServerPayment::Fallback));
    assert(s2.status == RouterStatus::Finished(RouteOutcome::Stored(ServerPayment::Fallback)));
}

/// Drop on double failure: while both processors fail definitively, a routing
/// attempt ends dropped — there is no record to write anywhere.
pub proof fn lemma_double_definitive_drops(r: Router)
    requires
        r.status == RouterStatus::Calling(ServerPayment::Default),
    ensures
        spec_run(r, AttemptOutcome::Rejected, AttemptOutcome::Rejected).status
            == RouterStatus::Finished(RouteOutcome::Dropped),
{
    reveal_with_fuel(spec_run, 4);
    let s1 = r.spec_step(AttemptOutcome::Rejected);
    let s2 = s1.spec_step(AttemptOutcome::Rejected);
    assert(s2.status == RouterStatus::Finished(RouteOutcome::Dropped));
}

/// Retry exhaustion, the counting half: while the default processor times out
/// on every call and the fallback accepts, the run calls the default
/// processor once per unit of remaining budget plus once, and only then
/// stores toward `fallback`.
pub proof fn lemma_retry_exhaustion(r: Router)
    requires
        r.status == RouterStatus::Calling(ServerPayment::Default),
    ensures
        spec_run(r, AttemptOutcome::TimedOut, AttemptOutcome::Accepted).status
            == RouterStatus::Finished(RouteOutcome::Stored(ServerPayment::Fallback)),
        spec_run_default_attempts(r, AttemptOutcome::TimedOut, AttemptOutcome::Accepted)
            == r.retries_left + 1,
    decreases r.retries_left,
{
    reveal_with_fuel(spec_run, 4);
    reveal_with_fuel(spec_run_default_attempts, 4);
    let d = AttemptOutcome::TimedOut;
    let f = AttemptOutcome::Accepted;
    let s1 = r.spec_step(d);
    if r.retries_left > 0 {
        lemma_retry_exhaustion(s1);
    } else {
        let s2 = s1.spec_step(f);
        assert(s2.status == RouterStatus::Finished(RouteOutcome::Stored(ServerPayment::Fallback)));
    }
}

/// Retry exhaustion, the backoff half: in the same run the waits form the
/// Fibonacci sequence continued from the backoff state, each capped at the
/// schedule's maximum — one wait per retry.
proof fn lemma_timeout_run_delays(r: Router, base: nat, k: nat)
    requires
        r.status == RouterStatus::Calling(ServerPayment::Default),
        r.backoff.curr_ms == min_nat(spec_fib_delay(base, k), u64::MAX as nat),
        r.backoff.next_ms == min_nat(spec_fib_delay(base, k + 1), u64::MAX as nat),
    ensures
        spec_run_delays(r, AttemptOutcome::TimedOut, AttemptOutcome::Accepted).len()
            == r.retries_left,
        forall|i: int|
            0 <= i < r.retries_left ==> spec_run_delays(
                r,
                AttemptOutcome::TimedOut,
                AttemptOutcome::Accepted,
            )[i] == min_nat(spec_fib_delay(base, (k + i) as nat), r.backoff.max_delay_ms as nat),
    decreases r.retries_left,
{
    reveal_with_fuel(spec_run_delays, 4);
    let d = AttemptOutcome::TimedOut;
    let f = AttemptOutcome::Accepted;
    let s1 = r.spec_step(d);
    if r.retries_left == 0 {
        let s2 = s1.spec_step(f);
        assert(spec_run_delays(s2, d, f) == Seq::<u64>::empty());
        assert(spec_run_delays(r, d, f) =~= Seq::<u64>::empty());
    } else {
        // The advanced pair is again a capped Fibonacci pair, one step on.
        assert(spec_fib_delay(base, k + 2) == spec_fib_delay(base, k) + spec_fib_delay(
            base,
            k + 1,
        ));
        assert(s1.backoff.curr_ms == min_nat(spec_fib_delay(base, k + 1), u64::MAX as nat));
        assert(s1.backoff.next_ms == min_nat(spec_fib_delay(base, k + 2), u64::MAX as nat));
        lemma_timeout_run_delays(s1, base, k + 1);
        let ds = spec_run_delays(r, d, f);
        let rest = spec_run_delays(s1, d, f);
        assert(ds == seq![r.spec_step_delay(d)] + rest);
        assert(r.spec_step_delay(d) == min_nat(
            spec_fib_delay(base, k),
            r.backoff.max_delay_ms as nat,
        ));
        assert forall|i: int| 0 <= i < r.retries_left implies ds[i] == min_nat(
            spec_fib_delay(base, (k + i) as nat),
            r.backoff.max_delay_ms as nat,
        ) by {
            if i > 0 {
                assert(ds[i] == rest[i - 1]);
            }
        }
    }
}

/// Retry exhaustion for a fresh routing attempt: with the default processor
/// timing out on every call and the fallback accepting, a fresh router with
/// budget `b` calls the default processor `b + 1` times, waits the Fibonacci
/// delays `20, 20, 40, 60, ...` milliseconds (each capped at 1000) between
/// them, and only then stores toward `fallback`.
pub proof fn lemma_retry_exhaustion_from_start(retry_budget: u64)
    ensures
        spec_run(Router::spec_new(retry_budget), AttemptOutcome::TimedOut, AttemptOutcome::Accepted)
            .status == RouterStatus::Finished(RouteOutcome::Stored(ServerPayment::Fallback)),
        spec_run_default_attempts(
            Router::spec_new(retry_budget),
            AttemptOutcome::TimedOut,
            AttemptOutcome::Accepted,
        ) == retry_budget + 1,
        spec_run_delays(
            Router::spec_new(retry_budget),
            AttemptOutcome::TimedOut,
            AttemptOutcome::Accepted,
        ).len() == retry_budget,
        forall|i: int|
            0 <= i < retry_budget ==> spec_run_delays(
                Router::spec_new(retry_budget),
                AttemptOutcome::TimedOut,
                AttemptOutcome::Accepted,
            )[i] == min_nat(
                spec_fib_delay(BACKOFF_BASE_MS as nat, i as nat),
                BACKOFF_MAX_DELAY_MS as nat,
            ),
{
    let r = Router::spec_new(retry_budget);
    lemma_retry_exhaustion(r);
    assert(spec_fib_delay(BACKOFF_BASE_MS as nat, 0) == BACKOFF_BASE_MS as nat);
    assert(spec_fib_delay(BACKOFF_BASE_MS as nat, 1) == BACKOFF_BASE_MS as nat);
    lemma_timeout_run_delays(r, BACKOFF_BASE_MS as nat, 0);
}

} // verus!
