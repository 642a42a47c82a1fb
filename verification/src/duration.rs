//! How long a card's status effect lasts: a period name and an optional
//! amount of that period.

use vstd::prelude::*;

verus! {

/// A status-effect duration, as card definitions state it.
#[derive(PartialEq, Eq, Debug)]
pub struct Duration {
    period: String,
    amount: Option<i32>,
}

impl Duration {
    /// The period name.
    pub closed spec fn spec_period(self) -> Seq<char> {
        self.period@
    }

    /// The amount of the period, if the definition gave one.
    pub closed spec fn spec_amount(self) -> Option<i32> {
        self.amount
    }

    /// A duration of `amount` times `period`.
    pub fn new(period: String, amount: Option<i32>) -> (d: Duration)
        ensures
            d.spec_period() == period@,
            d.spec_amount() == amount,
    {
        Duration { period, amount }
    }
}

} // verus!
