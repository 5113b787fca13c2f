//! Presentation theme flag handed to the excluded display layer.

use vstd::prelude::*;

verus! {

/// Whether the display layer renders in its dark theme.
#[derive(Clone, Copy, Debug, PartialEq, Eq, Structural)]
pub struct ThemeState {
    pub is_dark: bool,
}

impl Default for ThemeState {
    /// The light theme is the starting point.
    fn default() -> (r: Self)
        ensures
            !r.is_dark,
    {
        ThemeState { is_dark: false }
    }
}

impl ThemeState {
    /// A `ThemeState` is always present, so unwrapping it returns it unchanged.
    pub fn unwrap_or_default(self) -> (r: Self)
        ensures
            r == self,
    {
        self
    }
}

} // verus!
