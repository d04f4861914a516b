//! Rendering of elapsed time.
use std::time::Duration;
use vstd::prelude::*;

use crate::text::{decimal, decimal_pad2, push_decimal, push_decimal_pad2};

verus! {

/// The whole seconds of a duration, as `Duration::as_secs` gives them.
pub uninterp spec fn duration_whole_secs(d: Duration) -> u64;

/// `Duration::as_secs`: the number of whole seconds in the duration, which
/// depends on the duration alone.
#[verifier::external_body]
pub(crate) fn duration_as_secs(d: &Duration) -> (secs: u64)
    ensures
        secs == duration_whole_secs(*d),
{
    d.as_secs()
}

/// The text `"{h}h {mm}m {ss}s"` for a number of seconds: whole hours, then
/// minutes and seconds of the hour, each padded to two digits.
pub open spec fn hms_text(secs: nat) -> Seq<char> {
    decimal(secs / 3600) + "h "@ + decimal_pad2((secs / 60) % 60) + "m "@ + decimal_pad2(secs % 60)
        + "s"@
}

/// Hours, minutes and seconds of the text make up the whole number of
/// seconds, with minutes and seconds below 60.
pub proof fn lemma_hms_parts(secs: nat)
    ensures
        (secs / 3600) * 3600 + ((secs / 60) % 60) * 60 + secs % 60 == secs,
        (secs / 60) % 60 < 60,
        secs % 60 < 60,
{
    assert((secs / 3600) * 3600 + ((secs / 60) % 60) * 60 + secs % 60 == secs) by (nonlinear_arith);
}

/// The text `"{h}h {mm}m {ss}s"` for a number of seconds.
pub fn seconds_to_string(secs: u64) -> (res: String)
    ensures
        res@ == hms_text(secs as nat),
{
    let mut res = String::new();
    push_decimal(&mut res, secs / 3600);
    res.append("h ");
    push_decimal_pad2(&mut res, (secs / 60) % 60);
    res.append("m ");
    push_decimal_pad2(&mut res, secs % 60);
    res.append("s");
    res
}

/// The text `"{h}h {mm}m {ss}s"` for the whole seconds of a duration.
pub fn duration_to_string(duration: &Duration) -> (res: String)
    ensures
        res@ == hms_text(duration_whole_secs(*duration) as nat),
{
    seconds_to_string(duration_as_secs(duration))
}

} // verus!
