use vstd::prelude::*;

verus! {

/// Mining parameters, fixed once built.
#[derive(Debug, Clone)]
pub struct Config {
    /// A nonce is accepted when the value read from its block's digest is
    /// strictly below this.
    pub ceiling: i32,
    /// The least time, in seconds, that one mining round takes.
    pub delay_seconds: u64,
}

impl Config {
    /// The largest ceiling (nearly every nonce is accepted) and one second.
    pub fn default() -> (r: Config)
        ensures
            r.ceiling == i32::MAX,
            r.delay_seconds == 1,
    {
        Config { ceiling: i32::MAX, delay_seconds: 1 }
    }

    pub fn new(ceiling: i32, delay_seconds: u64) -> (r: Config)
        ensures
            r.ceiling == ceiling,
            r.delay_seconds == delay_seconds,
    {
        Config { ceiling, delay_seconds }
    }
}

} // verus!
