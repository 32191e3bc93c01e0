//! Debouncing of a push button.

use vstd::prelude::*;

verus! {

/// Whether a button counts as pressed, given three samples of its pin taken
/// back to back. Each sample says whether the pin was found at its active
/// level. All three must agree that it was: a single bounce makes the whole
/// reading "not pressed".
pub fn pressed(first: bool, second: bool, third: bool) -> (held: bool)
    ensures
        held == (first && second && third),
{
    first && second && third
}

} // verus!
