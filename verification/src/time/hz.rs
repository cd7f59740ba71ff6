use vstd::prelude::*;

verus! {

/// A frequency in hertz, never zero.
#[derive(Clone, Copy, Debug, PartialEq, Eq, Structural)]
pub struct Hz(u64);

impl View for Hz {
    type V = u64;

    closed spec fn view(&self) -> u64 {
        self.0
    }
}

impl Hz {
    /// A frequency is never zero.
    #[verifier::type_invariant]
    closed spec fn nonzero(self) -> bool {
        self.0 != 0
    }

    /// The frequency of `hz` hertz, `None` for zero.
    pub fn new(hz: u64) -> (r: Option<Self>)
        ensures
            hz == 0 ==> r is None,
            hz != 0 ==> (r matches Some(f) && f@ == hz),
    {
        if hz == 0 {
            None
        } else {
            Some(Hz(hz))
        }
    }

    /// The frequency in hertz.
    pub fn get(&self) -> (r: u64)
        ensures
            r == self@,
            r > 0,
    {
        proof {
            use_type_invariant(self);
        }
        self.0
    }
}

} // verus!
