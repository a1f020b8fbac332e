//! What the library asks of the file system and the clock. Both answers
//! depend on the machine, so nothing is promised of them; the functions that
//! use them state what holds whatever they answer.
use vstd::prelude::*;

verus! {

/// Asks `std::path::Path::exists` whether something is at `path`. The answer
/// depends on what is on disk, so no clause states it.
#[verifier::external_body]
pub fn path_exists(path: &str) -> bool {
    std::path::Path::new(path).exists()
}

/// `answer` is what `path_exists` answered, in this run, when asked about
/// the path `p`.
pub open spec fn probed_path(p: Seq<char>, answer: bool) -> bool {
    exists|s: &str| s@ == p && #[trigger] call_ensures(path_exists, (s,), answer)
}

/// Asks `std::time::SystemTime::elapsed` how long ago the Unix epoch was,
/// in whole seconds, or 0 when the clock is set before it. The answer
/// depends on the clock, so no clause states it.
#[verifier::external_body]
pub fn unix_time_secs() -> u64 {
    std::time::UNIX_EPOCH.elapsed().map(|d| d.as_secs()).unwrap_or(0)
}

} // verus!
