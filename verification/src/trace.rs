//! Latency bands used in per-request log lines, so slow calls can be found
//! by band without reading milliseconds.
use vstd::prelude::*;

verus! {

/// Coarse latency band for one call, by elapsed milliseconds.
pub fn latency_band(ms: u128) -> (band: &'static str)
    ensures
        band@ == (if ms <= 200 { "fast"@ } else if ms <= 1000 { "ok"@ } else if ms <= 3000 {
            "warn"@
        } else if ms <= 10000 { "slow"@ } else { "veryslow"@ }),
{
    if ms <= 200 {
        "fast"
    } else if ms <= 1000 {
        "ok"
    } else if ms <= 3000 {
        "warn"
    } else if ms <= 10000 {
        "slow"
    } else {
        "veryslow"
    }
}

} // verus!
