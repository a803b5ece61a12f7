//! Which startup animation the window plays.

use vstd::prelude::*;

verus! {

/// The startup animation: the long one on the very first start, the short one after.
#[derive(Clone, Copy, Debug, PartialEq, Eq, Structural)]
pub enum StartupType {
    First,
    Standard,
}

/// The animation a window plays: `First` on the very first start of the application.
pub fn startup_type(first_startup: bool) -> (r: StartupType)
    ensures
        r == (if first_startup {
            StartupType::First
        } else {
            StartupType::Standard
        }),
{
    if first_startup {
        StartupType::First
    } else {
        StartupType::Standard
    }
}

} // verus!
