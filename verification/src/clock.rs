//! The wall clock, read as nanoseconds since the Unix epoch.

use vstd::prelude::*;
use std::time::{SystemTime, UNIX_EPOCH};

verus! {

/// `SystemTime::now()` measured against `UNIX_EPOCH` (`duration_since`), in whole
/// nanoseconds (`Duration::as_nanos`): `(true, d)` where the clock reads `d` nanoseconds
/// at or after the epoch, `(false, d)` where it reads `d` nanoseconds before it (the
/// duration that the `SystemTimeError` carries). Neither call panics. Which time the
/// clock reads is the time: nothing is stated of it.
#[verifier::external_body]
fn read_system_clock() -> (bool, u128) {
    match SystemTime::now().duration_since(UNIX_EPOCH) {
        Ok(d) => (true, d.as_nanos()),
        Err(e) => (false, e.duration().as_nanos()),
    }
}

/// The wall clock, as signed nanoseconds since the Unix epoch; a reading beyond what an
/// `i128` holds is clamped to its bounds.
pub(crate) fn now_nanos() -> i128 {
    let (after, ns) = read_system_clock();
    if after {
        if ns > 0x7fff_ffff_ffff_ffff_ffff_ffff_ffff_ffffu128 {
            i128::MAX
        } else {
            ns as i128
        }
    } else {
        if ns > 0x7fff_ffff_ffff_ffff_ffff_ffff_ffff_ffffu128 {
            i128::MIN
        } else {
            -(ns as i128)
        }
    }
}

} // verus!
