use vstd::prelude::*;

verus! {

/// The Supertrend strategy: long while the indicator trends up, short while
/// it trends down.
pub struct SupertrendStrategy {}

impl SupertrendStrategy {
    /// A strategy handle; it holds no state.
    pub fn new() -> (strategy: SupertrendStrategy)
        ensures
            strategy == (SupertrendStrategy {}),
    {
        SupertrendStrategy {}
    }
}

} // verus!
