//! The machine's clock.

use vstd::prelude::*;

verus! {

/// Reads the machine's clock once with `chrono::Utc::now` and gives the
/// reading twice over: as the seconds since the epoch that
/// `DateTime::timestamp` counts, and as the RFC 3339 text that
/// `DateTime::to_rfc3339` writes. Nothing is promised of either. On a machine
/// whose clock stands before the epoch `Utc::now` does not return.
#[verifier::external_body]
pub(crate) fn now() -> (res: (i64, String)) {
    let reading = chrono::Utc::now();
    (reading.timestamp(), reading.to_rfc3339())
}

} // verus!
