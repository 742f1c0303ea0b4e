use vstd::prelude::*;

verus! {

/// The counting pool that bounds how many network calls may be outstanding
/// at once. A call acquires a permit before it starts and releases it as soon
/// as the response is in; in every reachable state the number of calls in
/// flight stays at or below the pool's capacity.
pub struct PermitPool {
    capacity: u32,
    in_flight: u32,
}

impl PermitPool {
    pub closed spec fn inv(&self) -> bool {
        self.in_flight <= self.capacity
    }

    pub closed spec fn spec_capacity(&self) -> u32 {
        self.capacity
    }

    pub closed spec fn spec_in_flight(&self) -> u32 {
        self.in_flight
    }

    pub fn new(capacity: u32) -> (r: Self)
        ensures
            r.inv(),
            r.spec_capacity() == capacity,
            r.spec_in_flight() == 0,
    {
        PermitPool { capacity, in_flight: 0 }
    }

    /// Take a permit if one is free; refused exactly when the pool is full.
    pub fn try_acquire(&mut self) -> (granted: bool)
        requires
            old(self).inv(),
        ensures
            final(self).inv(),
            final(self).spec_capacity() == old(self).spec_capacity(),
            granted ==> old(self).spec_in_flight() < old(self).spec_capacity()
                && final(self).spec_in_flight() == old(self).spec_in_flight() + 1,
            !granted ==> old(self).spec_in_flight() == old(self).spec_capacity()
                && final(self).spec_in_flight() == old(self).spec_in_flight(),
    {
        if self.in_flight < self.capacity {
            self.in_flight = self.in_flight + 1;
            true
        } else {
            false
        }
    }

    /// Give a permit back once the response is in.
    pub fn release(&mut self)
        requires
            old(self).inv(),
            old(self).spec_in_flight() > 0,
        ensures
            final(self).inv(),
            final(self).spec_capacity() == old(self).spec_capacity(),
            final(self).spec_in_flight() == old(self).spec_in_flight() - 1,
    {
        self.in_flight = self.in_flight - 1;
    }

    pub fn in_flight(&self) -> (r: u32)
        ensures
            r == self.spec_in_flight(),
    {
        self.in_flight
    }

    pub fn capacity(&self) -> (r: u32)
        ensures
            r == self.spec_capacity(),
    {
        self.capacity
    }
}

/// The concurrency bound: in any state the pool's operations can reach, no
/// more calls are in flight than the pool's capacity allows.
pub proof fn lemma_permit_bound(p: PermitPool)
    requires
        p.inv(),
    ensures
        p.spec_in_flight() <= p.spec_capacity(),
{
}

} // verus!
