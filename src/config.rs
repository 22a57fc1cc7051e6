use std::time::Duration;
use vstd::prelude::*;

verus! {

/// Settings of the view transfer protocol.
#[derive(Debug)]
pub struct ViewTransferConfig {
    /// Time after which a round without an agreed view is run again.
    pub timeout_duration: Duration,
}

impl ViewTransferConfig {
    pub fn new(timeout_duration: Duration) -> (r: Self)
        ensures
            r.timeout_duration == timeout_duration,
    {
        ViewTransferConfig { timeout_duration }
    }
}

} // verus!
