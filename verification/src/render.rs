use vstd::prelude::*;

verus! {

/// A staleness mark for one drawn instance: set when the instance moved and
/// its on-screen data must be rebuilt, cleared when the rebuild is done.
pub struct ReCalculate(bool);

impl ReCalculate {
    /// Whether a rebuild is pending.
    pub closed spec fn pending(self) -> bool {
        self.0
    }

    pub fn new() -> (r: Self)
        ensures
            r.pending(),
    {
        ReCalculate(true)
    }

    pub fn inner(&self) -> (b: &bool)
        ensures
            *b == self.pending(),
    {
        &self.0
    }

    pub fn moved(&mut self)
        ensures
            final(self).pending(),
    {
        self.0 = true;
    }

    pub fn finish(&mut self)
        ensures
            !final(self).pending(),
    {
        self.0 = false;
    }
}

} // verus!
