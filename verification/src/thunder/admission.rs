//! How many requests are worked on at a time.

use vstd::prelude::*;

verus! {

/// The requests that a service works on: how many it may, how many it does, and
/// how many it has turned away.
#[verifier::ext_equal]
pub struct PermitState {
    pub capacity: usize,
    pub in_flight: usize,
    pub rejected: u64,
}

/// A service that works on nothing yet.
pub open spec fn all_free(capacity: usize) -> PermitState {
    PermitState { capacity, in_flight: 0, rejected: 0 }
}

/// How many requests more may be worked on.
pub open spec fn free_permits(permits: PermitState) -> int {
    permits.capacity - permits.in_flight
}

/// The permits after a request has come: it takes a permit, or is turned away at once
/// where none is free. The count of those turned away stops at the largest number
/// that it holds.
pub open spec fn after_arrival(permits: PermitState) -> PermitState {
    if free_permits(permits) > 0 {
        PermitState { in_flight: (permits.in_flight + 1) as usize, ..permits }
    } else if permits.rejected < u64::MAX {
        PermitState { rejected: (permits.rejected + 1) as u64, ..permits }
    } else {
        permits
    }
}

/// The permits after a request that was let in has ended: it gives its permit back.
pub open spec fn after_departure(permits: PermitState) -> PermitState {
    PermitState { in_flight: (permits.in_flight - 1) as usize, ..permits }
}

/// Lets requests in as long as the service has the capacity for them.
#[derive(Debug)]
pub struct RequestPermits {
    capacity: usize,
    in_flight: usize,
    rejected: u64,
}

impl View for RequestPermits {
    type V = PermitState;

    closed spec fn view(&self) -> PermitState {
        PermitState {
            capacity: self.capacity,
            in_flight: self.in_flight,
            rejected: self.rejected,
        }
    }
}

impl RequestPermits {
    /// Permits for `capacity` requests at a time.
    pub fn new(capacity: usize) -> (permits: RequestPermits)
        ensures
            permits@ == all_free(capacity),
    {
        RequestPermits { capacity, in_flight: 0, rejected: 0 }
    }

    /// Lets a request in, where a permit is free, or turns it away.
    pub fn enter(&mut self) -> (admitted: bool)
        ensures
            admitted == (free_permits(old(self)@) > 0),
            final(self)@ == after_arrival(old(self)@),
    {
        if self.in_flight < self.capacity {
            self.in_flight = self.in_flight + 1;
            true
        } else {
            if self.rejected < u64::MAX {
                self.rejected = self.rejected + 1;
            }
            false
        }
    }

    /// Takes back the permit of a request that has ended.
    pub fn leave(&mut self)
        requires
            old(self)@.in_flight > 0,
        ensures
            final(self)@ == after_departure(old(self)@),
    {
        self.in_flight = self.in_flight - 1;
    }

    /// How many requests are worked on.
    pub fn in_flight(&self) -> (count: usize)
        ensures
            count == self@.in_flight,
    {
        self.in_flight
    }

    /// How many requests were turned away.
    pub fn rejected(&self) -> (count: u64)
        ensures
            count == self@.rejected,
    {
        self.rejected
    }
}

/// What happens to permits.
pub enum PermitEvent {
    /// A request comes.
    Arrival,
    /// A request that was let in ends.
    Departure,
}

/// The permits after `events`.
pub open spec fn permits_after(capacity: usize, events: Seq<PermitEvent>) -> PermitState
    decreases events.len(),
{
    if events.len() == 0 {
        all_free(capacity)
    } else {
        let before = permits_after(capacity, events.drop_last());
        match events.last() {
            PermitEvent::Arrival => after_arrival(before),
            PermitEvent::Departure => after_departure(before),
        }
    }
}

/// Whether `events` can happen: nothing ends but what was let in.
pub open spec fn is_permit_run(capacity: usize, events: Seq<PermitEvent>) -> bool {
    forall|i: int|
        0 <= i < events.len() && (#[trigger] events[i]) is Departure ==> permits_after(
            capacity,
            events.take(i),
        ).in_flight > 0
}

/// How many requests came.
pub open spec fn arrivals(events: Seq<PermitEvent>) -> nat {
    events.filter(|event: PermitEvent| event is Arrival).len()
}

/// How many requests that were let in have ended.
pub open spec fn departures(events: Seq<PermitEvent>) -> nat {
    events.filter(|event: PermitEvent| event is Departure).len()
}

/// However requests come and end, no more are in flight than the capacity allows,
/// and every request that came is in flight, has ended, or was turned away. So
/// every permit is free again once all that were let in have ended.
pub proof fn law_every_request_is_accounted_for(capacity: usize, events: Seq<PermitEvent>)
    requires
        is_permit_run(capacity, events),
        arrivals(events) <= u64::MAX,
    ensures
        permits_after(capacity, events).capacity == capacity,
        permits_after(capacity, events).in_flight <= capacity,
        arrivals(events) == permits_after(capacity, events).in_flight + departures(events)
            + permits_after(capacity, events).rejected,
    decreases events.len(),
{
    let arrives = |event: PermitEvent| event is Arrival;
    let departs = |event: PermitEvent| event is Departure;
    if events.len() > 0 {
        let front = events.drop_last();
        assert(events =~= front.push(events.last()));
        front.lemma_filter_push(events.last(), arrives);
        front.lemma_filter_push(events.last(), departs);
        assert(is_permit_run(capacity, front)) by {
            assert forall|i: int|
                0 <= i < front.len() && (#[trigger] front[i]) is Departure implies permits_after(
                capacity,
                front.take(i),
            ).in_flight > 0 by {
                assert(events[i] == front[i]);
                assert(events.take(i) =~= front.take(i));
            }
        }
        law_every_request_is_accounted_for(capacity, front);
        assert(events.take(events.len() - 1) =~= front);
        assert(events[events.len() - 1] == events.last());
    } else {
        reveal(Seq::filter);
    }
}

} // verus!
