//! Relative-age labels: renders a timestamp (Unix epoch seconds) as a
//! short label relative to the current time.

use vstd::prelude::*;
use crate::digits::{dec_digits, u64_to_dec};

verus! {

/// The label for an activity timestamp `time`, seen at time `now` (both
/// in Unix epoch seconds). An unknown timestamp, or one in the future
/// (clock skew), gives the fixed unknown glyph; otherwise the elapsed
/// seconds are bucketed into minutes, hours, days, 30-day months and
/// 365-day years, truncating.
pub open spec fn relative_label(time: Option<u64>, now: u64) -> Seq<char> {
    match time {
        Option::None => "—"@,
        Option::Some(t) => if now < t {
            "—"@
        } else {
            let s = now - t;
            if s < 60 {
                "just now"@
            } else if s < 3600 {
                dec_digits(s / 60) + "m ago"@
            } else if s < 86400 {
                dec_digits(s / 3600) + "h ago"@
            } else if s < 2592000 {
                dec_digits(s / 86400) + "d ago"@
            } else if s < 31536000 {
                dec_digits(s / 2592000) + "mo ago"@
            } else {
                dec_digits(s / 31536000) + "y ago"@
            }
        },
    }
}

/// Renders `time` as a short relative-age label, seen from `now`.
pub fn format_relative_time(time: Option<u64>, now: u64) -> (r: String)
    ensures
        r@ == relative_label(time, now),
{
    match time {
        Option::None => String::from_str("—"),
        Option::Some(t) => {
            if now < t {
                String::from_str("—")
            } else {
                let s = now - t;
                if s < 60 {
                    String::from_str("just now")
                } else if s < 3600 {
                    let mut out = u64_to_dec(s / 60);
                    out.append("m ago");
                    out
                } else if s < 86400 {
                    let mut out = u64_to_dec(s / 3600);
                    out.append("h ago");
                    out
                } else if s < 2592000 {
                    let mut out = u64_to_dec(s / 86400);
                    out.append("d ago");
                    out
                } else if s < 31536000 {
                    let mut out = u64_to_dec(s / 2592000);
                    out.append("mo ago");
                    out
                } else {
                    let mut out = u64_to_dec(s / 31536000);
                    out.append("y ago");
                    out
                }
            }
        },
    }
}

} // verus!
