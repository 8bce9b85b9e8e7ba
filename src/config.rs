use vstd::prelude::*;

verus! {

/// Settings of the authentication rate limiter.
pub struct Config {
    /// Seconds an address's attempt count is remembered.
    pub rate_limit: u64,
    /// How many addresses are remembered at most, if bounded.
    pub ip_limit: Option<usize>,
    /// Attempts allowed per address within the window.
    pub max_try: u64,
}

impl Default for Config {
    fn default() -> (r: Config)
        ensures
            r.rate_limit == 10,
            r.ip_limit == Some(1000usize),
            r.max_try == 3,
    {
        Config { rate_limit: 10, ip_limit: Some(1000), max_try: 3 }
    }
}

/// The decision on an attempt by an address that has made `count` attempts
/// within the window: refused (`None`) once `max_try` is reached, else
/// allowed, with the count to remember.
pub fn next_attempt_count(count: u64, max_try: u64) -> (r: Option<u64>)
    ensures
        count >= max_try ==> r is None,
        count < max_try ==> r == Some((count + 1) as u64),
{
    if count >= max_try {
        None
    } else {
        Some(count + 1)
    }
}

} // verus!
