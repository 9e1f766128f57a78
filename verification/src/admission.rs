//! Admission control: a bound on the size of a request and on the number of
//! requests in flight. Requests over the budget wait in arrival order; none is
//! turned away for want of a slot.

use crate::error::{PipelineError, PipelineErrorView};
use std::collections::VecDeque;
use vstd::prelude::*;

verus! {

/// Largest request body that is admitted, in bytes.
pub const MAX_PAYLOAD_SIZE: usize = 10 * 1024 * 1024;

/// Number of requests that may be in flight at once.
pub const MAX_CONCURRENT_REQUESTS: usize = 100;

/// The two bounds of the admission controller.
#[derive(Clone, Copy, Debug, PartialEq, Eq, Structural)]
pub struct Limits {
    /// The concurrency budget.
    pub max_concurrent: usize,
    /// The largest admitted payload, in bytes.
    pub max_payload: usize,
}

impl Default for Limits {
    fn default() -> (limits: Limits)
        ensures
            limits.max_concurrent == MAX_CONCURRENT_REQUESTS,
            limits.max_payload == MAX_PAYLOAD_SIZE,
    {
        Limits { max_concurrent: MAX_CONCURRENT_REQUESTS, max_payload: MAX_PAYLOAD_SIZE }
    }
}

/// What the controller decides when a request arrives.
#[derive(Clone, Copy, Debug, PartialEq, Eq, Structural)]
pub enum Decision {
    /// A slot is free: the request proceeds at once.
    Proceed,
    /// The budget is used up: the request waits its turn.
    Wait,
    /// The payload is too large: the request is refused and takes no slot.
    Reject,
}

/// Mathematical model of an [`AdmissionController`].
pub struct AdmissionView {
    /// The concurrency budget.
    pub capacity: nat,
    /// The largest admitted payload, in bytes.
    pub max_payload: nat,
    /// Number of requests that hold a slot.
    pub active: nat,
    /// The requests that wait for a slot, oldest first.
    pub waiting: Seq<u64>,
}

impl AdmissionView {
    /// A controller with the given bounds and no request.
    pub open spec fn initial(capacity: nat, max_payload: nat) -> AdmissionView {
        AdmissionView { capacity, max_payload, active: 0, waiting: Seq::empty() }
    }

    /// The budget is never exceeded, and nobody waits while a slot is free.
    pub open spec fn well_formed(self) -> bool {
        &&& self.active <= self.capacity
        &&& self.waiting.len() > 0 ==> self.active == self.capacity
    }

    /// No request holds a slot and none waits.
    pub open spec fn idle(self) -> bool {
        self.active == 0 && self.waiting.len() == 0
    }

    /// What is decided for a request with a payload of `payload_len` bytes.
    pub open spec fn decide(self, payload_len: nat) -> Decision {
        if payload_len > self.max_payload {
            Decision::Reject
        } else if self.active < self.capacity {
            Decision::Proceed
        } else {
            Decision::Wait
        }
    }

    /// The controller after `request` arrived.
    pub open spec fn arrive(self, request: u64, payload_len: nat) -> AdmissionView {
        match self.decide(payload_len) {
            Decision::Reject => self,
            Decision::Proceed => AdmissionView { active: self.active + 1, ..self },
            Decision::Wait => AdmissionView { waiting: self.waiting.push(request), ..self },
        }
    }

    /// The request that takes over the slot when a holder releases it.
    pub open spec fn next_admitted(self) -> Option<u64> {
        if self.active > 0 && self.waiting.len() > 0 {
            Some(self.waiting.first())
        } else {
            None
        }
    }

    /// The controller after one holder released its slot: the oldest waiting
    /// request takes the slot over, or the slot becomes free.
    pub open spec fn release(self) -> AdmissionView {
        if self.active == 0 {
            self
        } else if self.waiting.len() > 0 {
            AdmissionView { waiting: self.waiting.drop_first(), ..self }
        } else {
            AdmissionView { active: (self.active - 1) as nat, ..self }
        }
    }

    /// The controller after `request` gave up waiting: it has left the queue,
    /// and everything else is as it was. A request that does not wait changes
    /// nothing.
    pub open spec fn withdraw(self, request: u64) -> AdmissionView {
        AdmissionView { waiting: self.waiting.remove_value(request), ..self }
    }

    /// The controller after a waiting request went away. Where its slot had
    /// already come (`slot_came`), the slot is given back as by a release;
    /// otherwise the request leaves the queue.
    pub open spec fn depart(self, request: u64, slot_came: bool) -> AdmissionView {
        if slot_came {
            self.release()
        } else {
            self.withdraw(request)
        }
    }

    /// The controller after the given requests arrived one after another.
    pub open spec fn after_arrivals(self, requests: Seq<u64>, sizes: Seq<nat>) -> AdmissionView
        decreases requests.len(),
    {
        if requests.len() == 0 {
            self
        } else {
            self.after_arrivals(requests.drop_last(), sizes.drop_last()).arrive(
                requests.last(),
                sizes.last(),
            )
        }
    }
}

/// The budget holds in every state. Neither an arrival nor a release nor a
/// request that gives up waiting takes the number of running requests over the
/// budget or leaves a request waiting beside a free slot; the bounds
/// themselves never change; and an arrival is refused for its size alone.
pub proof fn lemma_budget_is_never_exceeded(state: AdmissionView, request: u64, payload_len: nat)
    requires
        state.well_formed(),
    ensures
        state.arrive(request, payload_len).well_formed(),
        state.release().well_formed(),
        state.withdraw(request).well_formed(),
        state.arrive(request, payload_len).capacity == state.capacity,
        state.arrive(request, payload_len).max_payload == state.max_payload,
        state.release().capacity == state.capacity,
        state.release().max_payload == state.max_payload,
        state.withdraw(request).capacity == state.capacity,
        state.withdraw(request).max_payload == state.max_payload,
        state.withdraw(request).active == state.active,
        state.decide(payload_len) == Decision::Reject <==> payload_len > state.max_payload,
{
    state.waiting.index_of_first_ensures(request);
}

/// Whether `after` is the queue `before` without its entry at `at`, where
/// `request` waited first: the entries before it and behind it are all there,
/// in their order.
pub open spec fn is_queue_without(
    before: Seq<u64>,
    after: Seq<u64>,
    request: u64,
    at: int,
) -> bool {
    &&& 0 <= at < before.len()
    &&& before[at] == request
    &&& forall|i: int| 0 <= i < at ==> before[i] != request
    &&& after.len() == before.len() - 1
    &&& forall|i: int| 0 <= i < at ==> after[i] == before[i]
    &&& forall|i: int| at <= i < after.len() ==> after[i] == before[i + 1]
}

/// A request that gives up waiting leaves the queue and disturbs nobody: the
/// requests before it and behind it wait on in the order in which they came.
/// Where no request waits twice, the one that left does not wait any more.
pub proof fn lemma_withdraw_keeps_the_order(state: AdmissionView, request: u64)
    ensures
        !state.waiting.contains(request) ==> state.withdraw(request) == state,
        state.waiting.contains(request) ==> exists|at: int| #[trigger]
            is_queue_without(state.waiting, state.withdraw(request).waiting, request, at),
        state.waiting.no_duplicates() ==> !state.withdraw(request).waiting.contains(request),
{
    let before = state.waiting;
    let after = state.withdraw(request).waiting;
    before.index_of_first_ensures(request);
    match before.index_of_first(request) {
        None => {},
        Some(at) => {
            before.remove_ensures(at);
            assert(is_queue_without(before, after, request, at));
            if before.no_duplicates() && after.contains(request) {
                let k = choose|k: int| 0 <= k < after.len() && after[k] == request;
                let origin = if k < at {
                    k
                } else {
                    k + 1
                };
                assert(before[origin] == request && origin != at);
            }
        },
    }
}

/// Number of the first `arrivals` requests that find a free slot at a
/// controller that was idle.
pub open spec fn admitted_at_once(capacity: nat, arrivals: nat) -> nat {
    if arrivals <= capacity {
        arrivals
    } else {
        capacity
    }
}

/// Requests that arrive at an idle controller take the free slots in arrival
/// order; those that find none wait, oldest first.
pub proof fn lemma_arrivals_fill_then_queue(
    start: AdmissionView,
    requests: Seq<u64>,
    sizes: Seq<nat>,
)
    requires
        start.idle(),
        requests.len() == sizes.len(),
        forall|i: int| 0 <= i < sizes.len() ==> sizes[i] <= start.max_payload,
    ensures
        ({
            let end = start.after_arrivals(requests, sizes);
            let taken = admitted_at_once(start.capacity, requests.len());
            &&& end.capacity == start.capacity
            &&& end.max_payload == start.max_payload
            &&& end.active == taken
            &&& end.waiting == requests.skip(taken as int)
            &&& end.well_formed()
        }),
    decreases requests.len(),
{
    let end = start.after_arrivals(requests, sizes);
    let taken = admitted_at_once(start.capacity, requests.len());
    if requests.len() == 0 {
        assert(end.waiting =~= requests.skip(0));
    } else {
        let earlier = requests.drop_last();
        lemma_arrivals_fill_then_queue(start, earlier, sizes.drop_last());
        let before = start.after_arrivals(earlier, sizes.drop_last());
        let taken_before = admitted_at_once(start.capacity, earlier.len());
        assert(end == before.arrive(requests.last(), sizes.last()));
        if earlier.len() < start.capacity {
            assert(earlier.skip(taken_before as int) =~= Seq::<u64>::empty());
            assert(requests.skip(taken as int) =~= Seq::<u64>::empty());
        } else {
            assert(requests.skip(taken as int) =~= earlier.skip(taken as int).push(
                requests.last(),
            ));
        }
    }
}

/// The budget is exact. Of `capacity + 1` requests that arrive at an idle
/// controller, the first `capacity` proceed at once and the last one waits;
/// none is refused. The one that waits stays first in line whoever else
/// arrives, gets its slot when a holder releases one, and the budget is then
/// full again.
pub proof fn lemma_one_over_budget_waits_for_a_release(
    start: AdmissionView,
    requests: Seq<u64>,
    sizes: Seq<nat>,
)
    requires
        start.idle(),
        requests.len() == start.capacity + 1,
        requests.len() == sizes.len(),
        forall|i: int| 0 <= i < sizes.len() ==> sizes[i] <= start.max_payload,
    ensures
        forall|k: int|
            0 <= k < requests.len() ==> (#[trigger] start.after_arrivals(
                requests.take(k),
                sizes.take(k),
            )).decide(sizes[k]) == if k < start.capacity {
                Decision::Proceed
            } else {
                Decision::Wait
            },
        ({
            let full = start.after_arrivals(requests, sizes);
            &&& full.active == start.capacity
            &&& full.waiting == seq![requests.last()]
            &&& forall|later: u64, size: nat|
                {
                    let crowded = #[trigger] full.arrive(later, size);
                    crowded.active == start.capacity && crowded.waiting.first()
                        == requests.last()
                }
            &&& start.capacity > 0 ==> {
                &&& full.next_admitted() == Some(requests.last())
                &&& full.release().active == start.capacity
                &&& full.release().waiting == Seq::<u64>::empty()
            }
        }),
{
    assert forall|k: int| 0 <= k < requests.len() implies (#[trigger] start.after_arrivals(
        requests.take(k),
        sizes.take(k),
    )).decide(sizes[k]) == if k < start.capacity {
        Decision::Proceed
    } else {
        Decision::Wait
    } by {
        lemma_arrivals_fill_then_queue(start, requests.take(k), sizes.take(k));
    }
    lemma_arrivals_fill_then_queue(start, requests, sizes);
    let full = start.after_arrivals(requests, sizes);
    assert(full.waiting =~= seq![requests.last()]);
    assert(full.waiting.drop_first() =~= Seq::<u64>::empty());
}

/// The permit for one slot of the budget. It is handed out by the controller
/// and given back to it when the request has finished, however it ended.
#[derive(Debug)]
pub struct AdmissionToken {
    request: u64,
}

impl AdmissionToken {
    /// The request that the slot was granted to.
    pub closed spec fn holder(self) -> u64 {
        self.request
    }

    /// The request that the slot was granted to.
    pub fn request(&self) -> (request: u64)
        ensures
            request == self.holder(),
    {
        self.request
    }
}

/// The answer to an arriving request.
#[derive(Debug)]
pub enum Admission {
    /// The request holds a slot and proceeds.
    Granted(AdmissionToken),
    /// The request waits; its token comes out of a later `release`.
    Queued,
    /// The request is refused.
    Rejected(PipelineError),
}

/// Bounds the payload size and the number of requests in flight.
pub struct AdmissionController {
    limits: Limits,
    active: usize,
    waiting: VecDeque<u64>,
}

impl View for AdmissionController {
    type V = AdmissionView;

    closed spec fn view(&self) -> AdmissionView {
        AdmissionView {
            capacity: self.limits.max_concurrent as nat,
            max_payload: self.limits.max_payload as nat,
            active: self.active as nat,
            waiting: self.waiting@,
        }
    }
}

impl AdmissionController {
    /// A controller with the given bounds, and no request yet.
    pub fn new(limits: Limits) -> (controller: AdmissionController)
        ensures
            controller@ == AdmissionView::initial(
                limits.max_concurrent as nat,
                limits.max_payload as nat,
            ),
            controller@.well_formed(),
    {
        AdmissionController { limits, active: 0, waiting: VecDeque::new() }
    }

    /// The bounds that the controller enforces.
    pub fn limits(&self) -> (limits: Limits)
        ensures
            limits.max_concurrent == self@.capacity,
            limits.max_payload == self@.max_payload,
    {
        self.limits
    }

    /// Number of requests that hold a slot.
    pub fn in_flight(&self) -> (n: usize)
        ensures
            n == self@.active,
    {
        self.active
    }

    /// Number of requests that wait for a slot.
    pub fn queued(&self) -> (n: usize)
        ensures
            n == self@.waiting.len(),
    {
        self.waiting.len()
    }

    /// Registers an arriving request.
    ///
    /// A payload over the limit is refused before any slot is touched. Otherwise
    /// the request is granted a slot if one is free, and queued behind the
    /// earlier arrivals if none is: it is never refused for want of a slot.
    pub fn arrive(&mut self, request: u64, payload_len: usize) -> (admission: Admission)
        ensures
            final(self)@ == old(self)@.arrive(request, payload_len as nat),
            old(self)@.well_formed() ==> final(self)@.well_formed(),
            match old(self)@.decide(payload_len as nat) {
                Decision::Proceed => admission matches Admission::Granted(token) && token.holder()
                    == request,
                Decision::Wait => admission is Queued,
                Decision::Reject => admission matches Admission::Rejected(e) && e@
                    == (PipelineErrorView::PayloadTooLarge {
                    size: payload_len as nat,
                    limit: old(self)@.max_payload,
                }),
            },
    {
        if payload_len > self.limits.max_payload {
            let limit: usize = self.limits.max_payload;
            Admission::Rejected(PipelineError::PayloadTooLarge { size: payload_len, limit })
        } else if self.active < self.limits.max_concurrent {
            self.active = self.active + 1;
            Admission::Granted(AdmissionToken { request })
        } else {
            self.waiting.push_back(request);
            Admission::Queued
        }
    }

    /// Takes a request that gave up waiting out of the queue.
    ///
    /// Where the request waits, it leaves the queue and the others keep their
    /// order; the slots are not touched. Says whether the request was waiting.
    pub fn withdraw(&mut self, request: u64) -> (was_waiting: bool)
        ensures
            final(self)@ == old(self)@.withdraw(request),
            old(self)@.well_formed() ==> final(self)@.well_formed(),
            was_waiting == old(self)@.waiting.contains(request),
            !was_waiting ==> final(self)@ == old(self)@,
            was_waiting ==> exists|at: int| #[trigger]
                is_queue_without(old(self)@.waiting, final(self)@.waiting, request, at),
    {
        proof {
            self.waiting@.index_of_first_ensures(request);
        }
        let mut at: usize = 0;
        while at < self.waiting.len()
            invariant
                *self == *old(self),
                at <= self.waiting@.len(),
                forall|j: int| 0 <= j < at ==> self.waiting@[j] != request,
            decreases self.waiting@.len() - at,
        {
            if self.waiting[at] == request {
                let ghost first = self.waiting@.index_of_first(request);
                proof {
                    self.waiting@.index_of_first_ensures(request);
                    assert(self.waiting@.contains(request));
                    assert(first == Some(at as int));
                }
                let _ = self.waiting.remove(at);
                proof {
                    old(self).waiting@.remove_ensures(at as int);
                    assert(is_queue_without(
                        old(self)@.waiting,
                        self@.waiting,
                        request,
                        at as int,
                    ));
                }
                return true;
            }
            at += 1;
        }
        proof {
            self.waiting@.index_of_first_ensures(request);
            assert(!self.waiting@.contains(request));
        }
        false
    }

    /// Lets a request go that was told to wait and went away.
    ///
    /// `granted` is the token that was handed out for the request by a release
    /// and not picked up, if there is one: its slot is given back, and comes
    /// out again as the token of the next request in line, where one waits.
    /// Without a token the request leaves the queue and no slot is touched.
    pub fn depart(&mut self, request: u64, granted: Option<AdmissionToken>) -> (next: Option<
        AdmissionToken,
    >)
        ensures
            final(self)@ == old(self)@.depart(request, granted is Some),
            old(self)@.well_formed() ==> final(self)@.well_formed(),
            match granted {
                Some(_) => match old(self)@.next_admitted() {
                    Some(heir) => next matches Some(token) && token.holder() == heir,
                    None => next is None,
                },
                None => next is None,
            },
    {
        match granted {
            Some(token) => self.release(token),
            None => {
                let _ = self.withdraw(request);
                None
            },
        }
    }

    /// Takes back the slot of a finished request.
    ///
    /// Where requests wait, the oldest of them takes the slot over and its
    /// token is returned; otherwise the slot becomes free.
    pub fn release(&mut self, token: AdmissionToken) -> (next: Option<AdmissionToken>)
        ensures
            final(self)@ == old(self)@.release(),
            old(self)@.well_formed() ==> final(self)@.well_formed(),
            match old(self)@.next_admitted() {
                Some(request) => next matches Some(granted) && granted.holder() == request,
                None => next is None,
            },
    {
        if self.active == 0 {
            return None;
        }
        match self.waiting.pop_front() {
            Some(request) => {
                proof {
                    assert(self.waiting@ =~= old(self).waiting@.drop_first());
                }
                Some(AdmissionToken { request })
            },
            None => {
                self.active = self.active - 1;
                None
            },
        }
    }
}

} // verus!
