use vstd::prelude::*;

verus! {

/// A value of the time stamp counter of the processor.
#[derive(Clone, Copy, Debug, PartialEq, Eq, Structural, PartialOrd, Ord)]
pub struct Tsc(i64);

/// The difference of two values of the time stamp counter.
#[derive(Clone, Copy, Debug, PartialEq, Eq, Structural, PartialOrd, Ord)]
pub struct TscDuration(i64);

impl View for Tsc {
    type V = i64;

    closed spec fn view(&self) -> i64 {
        self.0
    }
}

impl View for TscDuration {
    type V = i64;

    closed spec fn view(&self) -> i64 {
        self.0
    }
}

impl Tsc {
    /// The counter value `tsc`.
    pub fn new(tsc: i64) -> (r: Self)
        ensures
            r@ == tsc,
    {
        Tsc(tsc)
    }

    /// The counter value.
    pub fn get(&self) -> (r: i64)
        ensures
            r == self@,
    {
        self.0
    }

    /// The counter ticks from this value to the current one, `now`.
    pub fn elapsed(&self, now: Tsc) -> (r: TscDuration)
        requires
            i64::MIN <= now@ - self@ <= i64::MAX,
        ensures
            r@ == now@ - self@,
    {
        TscDuration(now.0 - self.0)
    }

    /// The counter ticks from this value to the current one, `now`, which becomes this value:
    /// the length of a lap that ends now and starts the next one.
    pub fn lap(&mut self, now: Tsc) -> (r: TscDuration)
        requires
            i64::MIN <= now@ - old(self)@ <= i64::MAX,
        ensures
            r@ == now@ - old(self)@,
            *final(self) == now,
    {
        let start = self.0;
        self.0 = now.0;
        TscDuration(now.0 - start)
    }
}

impl TscDuration {
    /// The duration of `tsc` counter ticks.
    pub fn new(tsc: i64) -> (r: Self)
        ensures
            r@ == tsc,
    {
        TscDuration(tsc)
    }

    /// The number of counter ticks.
    pub fn get(&self) -> (r: i64)
        ensures
            r == self@,
    {
        self.0
    }
}

/// A counter value made up for tests.
pub fn forge_tsc(tsc: i64) -> (r: Tsc)
    ensures
        r@ == tsc,
{
    Tsc(tsc)
}

} // verus!
