//! Defaults of the application's settings.

use vstd::prelude::*;

verus! {

/// What the close button does when the settings do not say: it minimises the
/// window to the tray.
pub fn default_minimize_to_tray() -> (minimize: bool)
    ensures
        minimize,
{
    true
}

} // verus!
