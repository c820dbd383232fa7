//! Progress bars and success-rate colours.

use vstd::prelude::*;

use crate::theme::{Rgb, Theme};

verus! {

/// Default width for inline progress bars.
pub const BAR_WIDTH: usize = 14;

/// The theme colour for a success rate in percent: danger up to 35, warning
/// up to 65, success above.
pub open spec fn rate_colour(theme: Theme, pct: u32) -> Rgb {
    if pct <= 35 {
        theme.danger
    } else if pct <= 65 {
        theme.warning
    } else {
        theme.success
    }
}

/// The theme colour for a success rate in percent.
pub fn rate_color(theme: &Theme, pct: u32) -> (c: Rgb)
    ensures
        c == rate_colour(*theme, pct),
{
    if pct <= 35 {
        theme.danger
    } else if pct <= 65 {
        theme.warning
    } else {
        theme.success
    }
}

/// A success rate of at most 35% shows in the danger colour, one from 36%
/// to 65% in the warning colour, and one above 65% in the success colour.
pub proof fn rate_thresholds(theme: Theme, pct: u32)
    ensures
        pct <= 35 ==> rate_colour(theme, pct) == theme.danger,
        36 <= pct <= 65 ==> rate_colour(theme, pct) == theme.warning,
        pct >= 66 ==> rate_colour(theme, pct) == theme.success,
{
}

} // verus!
