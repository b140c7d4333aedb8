//! What a request for a run may leave out, and what then stands in.

use vstd::prelude::*;
use vstd::string::*;

verus! {

/// CPU time in milliseconds of a request that names none.
pub fn default_time() -> (ms: u64)
    ensures
        ms == 300000,
{
    300000
}

/// Address space in kilobytes of a request that names none.
pub fn default_mem() -> (kb: u64)
    ensures
        kb == 2097152,
{
    2097152
}

/// Number of open files of a request that names none.
pub fn default_nofile() -> (count: u64)
    ensures
        count == 256,
{
    256
}

/// Largest file in kilobytes of a request that names none.
pub fn default_fsize() -> (kb: u64)
    ensures
        kb == 1048576,
{
    1048576
}

/// Working directory of a request that names none. In a session it stands
/// for the session's own.
pub fn default_cwd() -> (cwd: String)
    ensures
        cwd@ == "/"@,
{
    String::from_str("/")
}

/// A limit as it holds for a run: the value given, and `fallback` where
/// that is zero. This is how a request is read whose fields cannot be left
/// out.
pub fn limit_or(given: u64, fallback: u64) -> (limit: u64)
    ensures
        limit == if given > 0 {
            given
        } else {
            fallback
        },
{
    if given > 0 {
        given
    } else {
        fallback
    }
}

} // verus!
