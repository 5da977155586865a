//! The logical value of a module and the errors of the renderer.

use vstd::prelude::*;

verus! {

/// The state of one module of the matrix.
#[derive(Clone, Copy, Debug, PartialEq, Eq, Structural)]
pub enum Color {
    /// A module that is off.
    Light,
    /// A module that is on.
    Dark,
    /// A module that carries an intensity of its own.
    Custom(u8),
}

impl Color {
    /// The intensity that stands for this state, given those of the two plain
    /// states. A custom intensity stands for itself: it is passed through, not
    /// blended with the other two.
    pub open spec fn spec_select(self, dark: u8, light: u8) -> u8 {
        match self {
            Color::Light => light,
            Color::Dark => dark,
            Color::Custom(value) => value,
        }
    }

    /// Picks the intensity of this state.
    #[verifier::when_used_as_spec(spec_select)]
    pub fn select(self, dark: u8, light: u8) -> (value: u8)
        ensures
            value == self.spec_select(dark, light),
    {
        match self {
            Color::Light => light,
            Color::Dark => dark,
            Color::Custom(value) => value,
        }
    }
}

/// Why a renderer could not be made, or an image not be built.
#[derive(Clone, Copy, Debug, PartialEq, Eq, Structural)]
pub enum RenderError {
    /// The matrix has no columns or no rows, or the number of modules is not
    /// the product of the two.
    InvalidMatrix,
    /// A module size or a size to fit is zero, or a canvas was asked for
    /// without columns or rows.
    InvalidDimensions,
}

} // verus!
