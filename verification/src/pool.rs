//! Worker-pool admission over the ingress queue.
//!
//! Payments are accepted into an unbounded first-in-first-out queue without
//! ever pushing back on the submitter — memory alone bounds it, a documented
//! design choice — while the number of routing attempts running at once is
//! capped at `max_in_flight`. An attempt starts only when the queue holds a
//! payment, the pool is below its cap and no shutdown was requested; a
//! shutdown stops new starts but does not touch attempts already running.

use vstd::prelude::*;
use crate::models::PaymentsRequest;

verus! {

/// Default cap on concurrently-running routing attempts.
pub const DEFAULT_MAX_IN_FLIGHT: u64 = 20;

/// Admission state of the worker pool: the queued payments in arrival order,
/// and how many routing attempts run right now.
pub struct WorkerPool {
    pub queue: Vec<PaymentsRequest>,
    pub in_flight: u64,
    pub max_in_flight: u64,
    pub shutting_down: bool,
}

/// Mathematical state of the pool, as its contracts speak of it.
pub struct PoolModel {
    pub queue: Seq<PaymentsRequest>,
    pub in_flight: nat,
    pub max_in_flight: nat,
    pub shutting_down: bool,
}

impl View for WorkerPool {
    type V = PoolModel;

    open spec fn view(&self) -> PoolModel {
        PoolModel {
            queue: self.queue@,
            in_flight: self.in_flight as nat,
            max_in_flight: self.max_in_flight as nat,
            shutting_down: self.shutting_down,
        }
    }
}

/// The events the pool reacts to: a payment arrives, a start of a routing
/// attempt is attempted, a running attempt finishes, shutdown is requested.
pub enum PoolEvent {
    Enqueue(PaymentsRequest),
    TryStart,
    FinishAttempt,
    RequestShutdown,
}

/// Effect of one event on the pool state. A start only happens when the
/// queue holds a payment, the pool is below its cap and no shutdown was
/// requested; a finish only when something runs; every other case leaves the
/// state alone.
pub open spec fn spec_pool_step(m: PoolModel, e: PoolEvent) -> PoolModel {
    match e {
        PoolEvent::Enqueue(p) => PoolModel { queue: m.queue.push(p), ..m },
        PoolEvent::TryStart => {
            if !m.shutting_down && m.in_flight < m.max_in_flight && m.queue.len() > 0 {
                PoolModel { queue: m.queue.drop_first(), in_flight: m.in_flight + 1, ..m }
            } else {
                m
            }
        },
        PoolEvent::FinishAttempt => {
            if m.in_flight > 0 {
                PoolModel { in_flight: (m.in_flight - 1) as nat, ..m }
            } else {
                m
            }
        },
        PoolEvent::RequestShutdown => PoolModel { shutting_down: true, ..m },
    }
}

/// The pool state after a whole sequence of events, in order.
pub open spec fn spec_pool_run(m: PoolModel, events: Seq<PoolEvent>) -> PoolModel
    decreases events.len(),
{
    if events.len() == 0 {
        m
    } else {
        spec_pool_run(spec_pool_step(m, events[0]), events.drop_first())
    }
}

/// Every event sequence keeps the pool under its cap: the cap itself never
/// changes and the in-flight count never exceeds it.
pub proof fn lemma_admission_cap_run(m: PoolModel, events: Seq<PoolEvent>)
    requires
        m.in_flight <= m.max_in_flight,
    ensures
        spec_pool_run(m, events).in_flight <= spec_pool_run(m, events).max_in_flight,
        spec_pool_run(m, events).max_in_flight == m.max_in_flight,
    decreases events.len(),
{
    if events.len() > 0 {
        lemma_admission_cap_run(spec_pool_step(m, events[0]), events.drop_first());
    }
}

/// Admission cap: starting under the cap, at no point along any event
/// sequence — however many payments the queue holds — does the number of
/// running routing attempts exceed the cap.
pub proof fn lemma_admission_cap(m: PoolModel, events: Seq<PoolEvent>)
    requires
        m.in_flight <= m.max_in_flight,
    ensures
        forall|i: int|
            0 <= i <= events.len() ==> #[trigger] spec_pool_run(m, events.take(i)).in_flight
                <= m.max_in_flight,
{
    assert forall|i: int| 0 <= i <= events.len() implies #[trigger] spec_pool_run(
        m,
        events.take(i),
    ).in_flight <= m.max_in_flight by {
        lemma_admission_cap_run(m, events.take(i));
    }
}

impl WorkerPool {
    /// The admission cap holds: never more running attempts than the cap.
    pub open spec fn wf(self) -> bool {
        self.in_flight <= self.max_in_flight
    }

    pub fn new(max_in_flight: u64) -> (p: Self)
        requires
            max_in_flight >= 1,
        ensures
            p.wf(),
            p.queue@ == Seq::<PaymentsRequest>::empty(),
            p.in_flight == 0,
            p.max_in_flight == max_in_flight,
            !p.shutting_down,
    {
        WorkerPool { queue: Vec::new(), in_flight: 0, max_in_flight, shutting_down: false }
    }

    /// Accept a payment into the queue. Never fails and never blocks the
    /// submitter, whatever the pool is doing; the queue is unbounded.
    pub fn enqueue(&mut self, payment: PaymentsRequest)
        ensures
            final(self)@ == spec_pool_step(old(self)@, PoolEvent::Enqueue(payment)),
            final(self).queue@ == old(self).queue@.push(payment),
            final(self).in_flight == old(self).in_flight,
            final(self).max_in_flight == old(self).max_in_flight,
            final(self).shutting_down == old(self).shutting_down,
    {
        self.queue.push(payment);
    }

    /// Start one routing attempt if admission allows it: returns the oldest
    /// queued payment and counts it in flight exactly when the queue is
    /// non-empty, the pool is below its cap and no shutdown was requested;
    /// otherwise returns nothing and changes nothing. The cap is never
    /// exceeded, however full the queue is.
    pub fn try_start(&mut self) -> (started: Option<PaymentsRequest>)
        requires
            old(self).wf(),
        ensures
            final(self).wf(),
            final(self)@ == spec_pool_step(old(self)@, PoolEvent::TryStart),
            final(self).in_flight <= final(self).max_in_flight,
            final(self).max_in_flight == old(self).max_in_flight,
            final(self).shutting_down == old(self).shutting_down,
            ({
                let can_start = !old(self).shutting_down && old(self).in_flight < old(
                    self,
                ).max_in_flight && old(self).queue@.len() > 0;
                if can_start {
                    &&& started == Option::Some(old(self).queue@[0])
                    &&& final(self).queue@ == old(self).queue@.drop_first()
                    &&& final(self).in_flight == old(self).in_flight + 1
                } else {
                    &&& started is None
                    &&& final(self).queue@ == old(self).queue@
                    &&& final(self).in_flight == old(self).in_flight
                }
            }),
    {
        if self.shutting_down || self.in_flight >= self.max_in_flight || self.queue.len() == 0 {
            None
        } else {
            let payment = self.queue.remove(0);
            self.in_flight = self.in_flight + 1;
            assert(self.queue@ =~= old(self).queue@.drop_first());
            Some(payment)
        }
    }

    /// One running attempt finished (however it ended): it no longer counts
    /// against the cap.
    pub fn finish_attempt(&mut self)
        requires
            old(self).in_flight > 0,
        ensures
            final(self)@ == spec_pool_step(old(self)@, PoolEvent::FinishAttempt),
            final(self).in_flight == old(self).in_flight - 1,
            final(self).queue@ == old(self).queue@,
            final(self).max_in_flight == old(self).max_in_flight,
            final(self).shutting_down == old(self).shutting_down,
            old(self).wf() ==> final(self).wf(),
    {
        self.in_flight = self.in_flight - 1;
    }

    /// Stop admitting new work. Queued payments stay queued and running
    /// attempts keep running to their natural end.
    pub fn request_shutdown(&mut self)
        ensures
            final(self)@ == spec_pool_step(old(self)@, PoolEvent::RequestShutdown),
            final(self).shutting_down,
            final(self).queue@ == old(self).queue@,
            final(self).in_flight == old(self).in_flight,
            final(self).max_in_flight == old(self).max_in_flight,
            old(self).wf() ==> final(self).wf(),
    {
        self.shutting_down = true;
    }
}

} // verus!
