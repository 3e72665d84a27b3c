//! Small helpers: the clock and address formatting.

use crate::text::{byte_list, byte_list_string};
use crate::types::Pubkey;
use std::time::{SystemTime, UNIX_EPOCH};
use vstd::prelude::*;

verus! {

/// Reads the system clock through `SystemTime::now` and
/// `SystemTime::duration_since`, and hands back the whole seconds and the
/// nanoseconds within the second that have passed since the Unix epoch
/// (`Duration::as_secs`, `Duration::subsec_nanos`). A clock that stands
/// before the epoch reads as zero. Nothing is claimed of the reading but
/// that the second part is below one billion, as `subsec_nanos` documents.
#[verifier::external_body]
pub(crate) fn time_since_epoch() -> (reading: (u64, u32))
    ensures
        reading.1 < 1_000_000_000,
{
    let elapsed = SystemTime::now().duration_since(UNIX_EPOCH).unwrap_or_default();
    (elapsed.as_secs(), elapsed.subsec_nanos())
}

/// Whole seconds since the Unix epoch, by the system clock.
pub fn get_timestamp() -> u64 {
    time_since_epoch().0
}

/// The bytes of an address as a bracketed list of decimal numbers.
pub fn format_pubkey(pubkey: &Pubkey) -> (text: String)
    ensures
        text@ == byte_list(pubkey@),
{
    byte_list_string(pubkey.0.as_slice())
}

} // verus!
