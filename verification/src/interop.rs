//! What a lookup answers to the host's name service switch.

use vstd::prelude::*;

verus! {

/// The outcome of a lookup, in the terms of the name service switch.
#[derive(Debug, Clone, PartialEq, Eq)]
pub enum Response<R> {
    /// The lookup could not be made now and may succeed later.
    TryAgain,
    /// The service is not available.
    Unavail,
    /// The lookup was made and found nothing.
    NotFound,
    /// The lookup found this.
    Success(R),
    /// The switch is to stop here.
    Return,
}

} // verus!
