//! Status effects a card or player can carry, each with its duration.

use vstd::prelude::*;

use crate::duration::Duration;

verus! {

/// A status effect and how long it lasts.
#[derive(PartialEq, Eq, Debug)]
pub enum Status {
    Frozen { duration: Duration },
    Silenced { duration: Duration },
}

} // verus!
