use vstd::prelude::*;

verus! {

/// Marks work that must be used before it is dropped.
pub struct UsageToken {
    pub used: bool,
}

impl UsageToken {
    pub fn new() -> (r: Self)
        ensures
            !r.used,
    {
        UsageToken { used: false }
    }

    /// Marks the token used.
    pub fn consume(&mut self)
        ensures
            final(self).used,
    {
        self.used = true;
    }
}

/// Counts the guards that are alive for an object: taking a guard adds one,
/// releasing it takes one away.
pub struct LivenessToken {
    pub counter: usize,
}

/// One live use of a `LivenessToken`.
pub struct LivenessGuard {}

impl LivenessToken {
    pub fn new() -> (r: Self)
        ensures
            r.counter == 0,
    {
        LivenessToken { counter: 0 }
    }

    /// Takes a guard: one more live use.
    pub fn guard(&mut self) -> (r: LivenessGuard)
        requires
            old(self).counter < usize::MAX,
        ensures
            final(self).counter == old(self).counter + 1,
    {
        self.counter = self.counter + 1;
        LivenessGuard {  }
    }

    /// Gives a guard back: one live use fewer.
    pub fn release(&mut self, guard: LivenessGuard)
        requires
            old(self).counter > 0,
        ensures
            final(self).counter == old(self).counter - 1,
    {
        let LivenessGuard {  } = guard;
        self.counter = self.counter - 1;
    }
}

} // verus!
