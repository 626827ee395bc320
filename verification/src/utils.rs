//! A monotonically increasing counter with a reserved-value set, used by
//! tab-index assignment to hand out indices that skip every explicitly
//! reserved one.

use vstd::prelude::*;

verus! {

/// A counter that skips reserved values.
pub struct SequenceGenerator {
    current: u32,
    reserved: Vec<u32>,
}

impl SequenceGenerator {
    /// The next candidate value the generator will consider.
    pub closed spec fn spec_current(&self) -> u32 {
        self.current
    }

    /// The values reserved so far, in reservation order.
    pub closed spec fn spec_reserved(&self) -> Seq<u32> {
        self.reserved@
    }

    /// A fresh generator: counts from zero, nothing reserved.
    pub fn new() -> (g: SequenceGenerator)
        ensures
            g.spec_current() == 0,
            g.spec_reserved().len() == 0,
    {
        SequenceGenerator { current: 0, reserved: Vec::new() }
    }

    /// Marks a value as taken: `next` will never return it.
    pub fn reserve(&mut self, value: u32)
        ensures
            final(self).spec_current() == old(self).spec_current(),
            final(self).spec_reserved() == old(self).spec_reserved().push(value),
    {
        self.reserved.push(value);
    }

    /// The smallest unreserved value not yet handed out: skips every
    /// reserved value, returns the first free one and moves past it.
    #[verifier::loop_isolation(false)]
    pub fn next(&mut self) -> (r: u32)
        requires
            exists|v: u32|
                old(self).spec_current() <= v < u32::MAX && !old(self).spec_reserved().contains(v),
        ensures
            old(self).spec_current() <= r < u32::MAX,
            !old(self).spec_reserved().contains(r),
            forall|v: u32|
                old(self).spec_current() <= v < r ==> old(self).spec_reserved().contains(v),
            final(self).spec_current() == r + 1,
            final(self).spec_reserved() == old(self).spec_reserved(),
    {
        let ghost free = choose|v: u32|
            old(self).spec_current() <= v < u32::MAX && !old(self).spec_reserved().contains(v);
        while contains_val(&self.reserved, self.current)
            invariant
                old(self).spec_current() <= self.current <= free,
                self.reserved@ == old(self).spec_reserved(),
                forall|v: u32|
                    old(self).spec_current() <= v < self.current ==> old(
                        self,
                    ).spec_reserved().contains(v),
            decreases free - self.current,
        {
            self.current = self.current + 1;
        }
        let next = self.current;
        self.current = self.current + 1;
        next
    }
}

/// Whether a vector holds a value.
#[verifier::loop_isolation(false)]
fn contains_val(v: &Vec<u32>, x: u32) -> (r: bool)
    ensures
        r == v@.contains(x),
{
    let mut i: usize = 0;
    while i < v.len()
        invariant
            i <= v@.len(),
            forall|j: int| 0 <= j < i ==> v@[j] != x,
        decreases v@.len() - i,
    {
        if v[i] == x {
            proof {
                assert(v@[i as int] == x);
            }
            return true;
        }
        i = i + 1;
    }
    proof {
        assert(!v@.contains(x));
    }
    false
}

} // verus!
