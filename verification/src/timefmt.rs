//! Modification-time rendering for long directory listings.
//!
//! A timestamp is the number of whole seconds since the Unix epoch, or
//! nothing when the filesystem reported a time before the epoch or none at
//! all. The preferred rendering is a short local-time form like
//! `Sep  7 20:11`; when the local calendar cannot place the timestamp, the
//! epoch seconds are printed instead.

use vstd::prelude::*;

use crate::text::{spec_dec, u64_to_dec};

verus! {

/// Relies on chrono: `TimeZone::timestamp_opt` on `Local`,
/// `MappedLocalTime::single` and `DateTime::format` with `"%b %e %H:%M"`.
/// Renders the given epoch seconds in the machine's local time zone, `None`
/// when the timestamp is out of range for the calendar or ambiguous in the
/// zone. The result depends on the machine's time zone, so nothing is
/// stated about it.
#[verifier::external_body]
fn local_short_time(secs: u64) -> (r: Option<String>) {
    let secs = secs as i64;
    chrono::TimeZone::timestamp_opt(&chrono::Local, secs, 0)
        .single()
        .map(|dt| dt.format("%b %e %H:%M").to_string())
}

/// Choose the text for a timestamp once the local-time rendering is known:
/// the rendering itself when there is one, the decimal epoch seconds
/// otherwise.
pub fn pick_mtime_text(secs: u64, local: Option<String>) -> (r: String)
    ensures
        r@ == (match local {
            Some(p) => p@,
            None => spec_dec(secs as nat),
        }),
{
    match local {
        Some(p) => p,
        None => u64_to_dec(secs),
    }
}

/// Format a modification time: `-` when there is none, otherwise the local
/// short form with decimal epoch seconds as fallback.
pub fn format_mtime_impl(t: Option<u64>) -> (r: String)
    ensures
        t is None ==> r@ == "-"@,
{
    match t {
        None => String::from_str("-"),
        Some(secs) => {
            let local = local_short_time(secs);
            pick_mtime_text(secs, local)
        },
    }
}

/// Format a modification time for a long listing.
pub fn format_mtime(t: Option<u64>) -> (r: String)
    ensures
        t is None ==> r@ == "-"@,
{
    format_mtime_impl(t)
}

/// Render epoch seconds as decimal text.
pub fn format_time(secs: u64) -> (r: String)
    ensures
        r@ == spec_dec(secs as nat),
{
    u64_to_dec(secs)
}

} // verus!
