//! Laws of what the user is told about a run.

use vstd::prelude::*;

verus! {

use crate::export::Counts;
use crate::report::{elapsed_text, progress_text};
use crate::text::{decimal, padded};

/// A time span of hours, minutes, seconds and milliseconds is told in these. Hours are left out
/// where there are none, and minutes where there are neither.
pub proof fn law_elapsed(hours: nat, minutes: nat, seconds: nat, milliseconds: nat)
    requires
        minutes < 60,
        seconds < 60,
    ensures
        ({
            let text = elapsed_text(3600 * hours + 60 * minutes + seconds, milliseconds);
            let rest = decimal(seconds) + "."@ + padded(milliseconds, 10, 3) + "s"@;
            &&& hours > 0 ==> text == decimal(hours) + "h "@ + decimal(minutes) + "m "@ + rest
            &&& hours == 0 && minutes > 0 ==> text == decimal(minutes) + "m "@ + rest
            &&& hours == 0 && minutes == 0 ==> text == rest
        }),
{
    let total = 3600 * hours + 60 * minutes + seconds;
    assert(total / 3600 == hours);
    assert(total % 3600 == 60 * minutes + seconds);
    assert((total % 3600) / 60 == minutes);
    assert(total % 60 == seconds);
}

/// The line of counts names each count, in this order.
pub proof fn law_progress(stats: Counts)
    ensures
        progress_text(stats) == "found:"@ + decimal(stats.found) + " converted:"@ + decimal(
            stats.converted,
        ) + " archived:"@ + decimal(stats.archived) + " dup:"@ + decimal(stats.duplicates)
            + " exists:"@ + decimal(stats.skipped_existing) + " err:"@ + decimal(stats.errors),
{
}

} // verus!
