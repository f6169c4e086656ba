//! The screens of the program.

use vstd::prelude::*;

verus! {

/// Which of the two screens is shown.
#[derive(Clone, Copy, Debug, PartialEq, Eq, Structural)]
pub enum View {
    Main,
    Profiles,
}

impl Default for View {
    fn default() -> (r: Self)
        ensures
            r == View::Main,
    {
        View::Main
    }
}

} // verus!
