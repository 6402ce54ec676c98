//! The retry policy of the forecast download: a decoding failure is retried
//! after an exponentially growing pause, a transport failure is not.
use vstd::prelude::*;

verus! {

/// How many times a download whose body could not be decoded is tried again.
pub const MAX_RETRIES: u32 = 3;

/// What came of one download attempt.
#[derive(PartialEq, Eq, Structural, Clone, Copy, Debug)]
pub enum FetchOutcome {
    /// The body decoded into a forecast.
    Decoded,
    /// The response arrived but its body did not decode.
    DecodeFailed,
    /// The request itself failed (connection, timeout, HTTP status).
    TransportFailed,
}

/// What to do after an attempt.
#[derive(PartialEq, Eq, Structural, Clone, Copy, Debug)]
pub enum FetchStep {
    /// Use the forecast that was decoded.
    Accept,
    /// Sleep this many seconds, then try again.
    RetryAfter { seconds: u64 },
    /// Give up and report the attempt's error.
    Fail,
}

pub open spec fn pow2(n: nat) -> nat
    decreases n,
{
    if n == 0 {
        1
    } else {
        2 * pow2((n - 1) as nat)
    }
}

/// The step after an attempt that followed `retries` earlier retries: accept a
/// decoded forecast; after a decoding failure sleep `2^retries` seconds and
/// retry while fewer than `MAX_RETRIES` retries were made, else give up; give
/// up at once on a transport failure.
pub open spec fn fetch_step(retries: u32, outcome: FetchOutcome) -> FetchStep {
    match outcome {
        FetchOutcome::Decoded => FetchStep::Accept,
        FetchOutcome::DecodeFailed => if retries < MAX_RETRIES {
            FetchStep::RetryAfter { seconds: pow2(retries as nat) as u64 }
        } else {
            FetchStep::Fail
        },
        FetchOutcome::TransportFailed => FetchStep::Fail,
    }
}

proof fn lemma_pow2_monotone(a: nat, b: nat)
    requires
        a <= b,
    ensures
        pow2(a) <= pow2(b),
    decreases b,
{
    if a < b {
        lemma_pow2_monotone(a, (b - 1) as nat);
    }
}

/// The pause in seconds before retry number `retries + 1`.
fn backoff_seconds(retries: u32) -> (r: u64)
    requires
        retries < MAX_RETRIES,
    ensures
        r == pow2(retries as nat),
{
    assert(pow2(2) == 4) by {
        assert(pow2(0) == 1);
        assert(pow2(1) == 2 * pow2(0));
        assert(pow2(2) == 2 * pow2(1));
    }
    let mut r: u64 = 1;
    let mut i: u32 = 0;
    while i < retries
        invariant
            i <= retries < MAX_RETRIES,
            r == pow2(i as nat),
            pow2(2) == 4,
        decreases retries - i,
    {
        proof {
            lemma_pow2_monotone((i + 1) as nat, 2);
            assert(pow2((i + 1) as nat) == 2 * pow2(i as nat));
        }
        r = r * 2;
        i = i + 1;
    }
    r
}

/// Decides what follows a download attempt.
pub fn next_fetch_step(retries: u32, outcome: FetchOutcome) -> (r: FetchStep)
    ensures
        r == fetch_step(retries, outcome),
{
    match outcome {
        FetchOutcome::Decoded => FetchStep::Accept,
        FetchOutcome::DecodeFailed => {
            if retries < MAX_RETRIES {
                FetchStep::RetryAfter { seconds: backoff_seconds(retries) }
            } else {
                FetchStep::Fail
            }
        },
        FetchOutcome::TransportFailed => FetchStep::Fail,
    }
}

} // verus!
