//! What the user is told about a run.

use vstd::prelude::*;

use crate::export::ExportStats;
use crate::text::{push_digits, push_padded};

verus! {

use crate::export::Counts;

/// A time span as text: hours and minutes only as far as they are needed.
pub open spec fn elapsed_text(total_seconds: nat, milliseconds: nat) -> Seq<char> {
    let hours = total_seconds / 3600;
    let minutes = (total_seconds % 3600) / 60;
    let seconds = crate::text::decimal(total_seconds % 60) + "."@ + crate::text::padded(
        milliseconds,
        10,
        3,
    ) + "s"@;
    if hours > 0 {
        crate::text::decimal(hours) + "h "@ + crate::text::decimal(minutes) + "m "@ + seconds
    } else if minutes > 0 {
        crate::text::decimal(minutes) + "m "@ + seconds
    } else {
        seconds
    }
}

/// Writes a time span of whole seconds and the milliseconds beyond them.
pub fn format_elapsed(total_seconds: u64, milliseconds: u32) -> (r: String)
    ensures
        r@ == elapsed_text(total_seconds as nat, milliseconds as nat),
{
    let hours: u64 = total_seconds / 3600;
    let minutes: u64 = (total_seconds % 3600) / 60;
    let seconds: u64 = total_seconds % 60;
    let mut out = String::new();
    if hours > 0 {
        push_digits(&mut out, hours, 10);
        out.append("h ");
    }
    if hours > 0 || minutes > 0 {
        push_digits(&mut out, minutes, 10);
        out.append("m ");
    }
    push_digits(&mut out, seconds, 10);
    out.append(".");
    push_padded(&mut out, milliseconds as u64, 10, 3);
    out.append("s");
    assert(out@ == elapsed_text(total_seconds as nat, milliseconds as nat));
    out
}

/// The counts of a run on one line.
pub open spec fn progress_text(stats: Counts) -> Seq<char> {
    "found:"@ + crate::text::decimal(stats.found) + " converted:"@ + crate::text::decimal(
        stats.converted,
    ) + " archived:"@ + crate::text::decimal(stats.archived) + " dup:"@ + crate::text::decimal(
        stats.duplicates,
    ) + " exists:"@ + crate::text::decimal(stats.skipped_existing) + " err:"@
        + crate::text::decimal(stats.errors)
}

/// Writes the counts of a run on one line.
pub fn progress_message(stats: ExportStats) -> (r: String)
    ensures
        r@ == progress_text(stats@),
{
    let mut out = "found:".to_owned();
    push_digits(&mut out, stats.found as u64, 10);
    out.append(" converted:");
    push_digits(&mut out, stats.converted as u64, 10);
    out.append(" archived:");
    push_digits(&mut out, stats.archived as u64, 10);
    out.append(" dup:");
    push_digits(&mut out, stats.duplicates as u64, 10);
    out.append(" exists:");
    push_digits(&mut out, stats.skipped_existing as u64, 10);
    out.append(" err:");
    push_digits(&mut out, stats.errors as u64, 10);
    out
}

/// The message of a panic, whose payload is a string literal, a string, or something else.
pub fn panic_message<'a>(literal: Option<&'a str>, owned: Option<&'a str>) -> (r: &'a str)
    ensures
        r@ == match (literal, owned) {
            (Some(message), _) => message@,
            (None, Some(message)) => message@,
            (None, None) => "unknown panic payload"@,
        },
{
    match literal {
        Some(message) => message,
        None => match owned {
            Some(message) => message,
            None => "unknown panic payload",
        },
    }
}

} // verus!
