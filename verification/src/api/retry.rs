//! When a request to a model is sent again.
use vstd::prelude::*;

verus! {

/// How often a request is sent again at most.
pub const MAX_RETRIES: u32 = 3;

/// Whether sending a request again can help: no answer came, there were too many requests, or the
/// server failed.
pub open spec fn can_help(status: Option<u16>) -> bool {
    match status {
        None => true,
        Some(code) => code == 429 || 500 <= code <= 599,
    }
}

/// The milliseconds to wait once a request failed so many times: twice as long each time.
pub open spec fn pause_after(failures: int) -> int
    decreases failures,
{
    if failures <= 1 {
        500
    } else {
        2 * pause_after(failures - 1)
    }
}

/// How long to wait before a request is sent again that has failed `failures` times, the last time
/// with `status`; none where it is not sent again.
pub fn retry_after(failures: u32, status: Option<u16>) -> (r: Option<u64>)
    ensures
        r is Some <==> failures <= MAX_RETRIES && can_help(status),
        r matches Some(millis) ==> millis == pause_after(failures as int),
{
    let helps = match status {
        None => true,
        Some(code) => code == 429 || (500 <= code && code <= 599),
    };
    if !helps || failures > MAX_RETRIES {
        return None;
    }
    let mut millis: u64 = 500;
    let mut n: u32 = 1;
    while n < failures
        invariant
            1 <= n,
            n <= failures || n == 1,
            failures <= MAX_RETRIES,
            millis == pause_after(n as int),
            n == 1 ==> millis == 500,
            n == 2 ==> millis == 1000,
            n == 3 ==> millis == 2000,
        decreases failures - n,
    {
        millis = 2 * millis;
        n = n + 1;
    }
    Some(millis)
}

} // verus!
