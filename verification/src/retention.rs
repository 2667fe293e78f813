//! Which log files the retention sweeper deletes: those last written more
//! than sixteen hours before the sweep.
use vstd::prelude::*;

verus! {

/// How long a log file is kept after its last write: sixteen hours, in
/// nanoseconds.
pub const LOG_RETENTION_NANOS: i128 = 57_600_000_000_000;

/// Is a log file last modified at `modified` (nanoseconds from the Unix
/// epoch, negative before it) due for deletion by a sweep at `now`? Only
/// when it is older than the cutoff `now - 16 h`; when that cutoff cannot
/// be formed, nothing is deleted.
pub fn log_expired(now: i128, modified: i128) -> (r: bool)
    ensures
        r == (now - LOG_RETENTION_NANOS >= i128::MIN && modified < now - LOG_RETENTION_NANOS),
{
    if now < i128::MIN + LOG_RETENTION_NANOS {
        return false;
    }
    modified < now - LOG_RETENTION_NANOS
}

} // verus!
