//! What every render target offers: writing a fixture state into its buffer,
//! blending two sibling targets, and copying itself.

use vstd::prelude::*;

use crate::model::{PaletteColors, FixtureState, QualifiedFixtureId};

verus! {

/// An output-specific accumulator of channel values.
pub trait RenderTarget: Sized + View {
    /// The target's content after `state` is written for fixture `id`.
    spec fn applied(
        v: Self::V,
        id: QualifiedFixtureId,
        state: FixtureState,
        palette: PaletteColors,
    ) -> Self::V;

    /// The target's content after it is set to the blend of `a` and `b` by `t`.
    spec fn blended(v: Self::V, a: Self::V, b: Self::V, t: int) -> Self::V;

    /// Writes `state` for fixture `id` into the buffer.
    fn apply_state(&mut self, id: &QualifiedFixtureId, state: &FixtureState, palette: &PaletteColors)
        ensures
            final(self)@ == Self::applied(old(self)@, *id, *state, *palette),
    ;

    /// Sets the buffer to the blend of two siblings by `t` (fixed point).
    fn interpolate(&mut self, a: &Self, b: &Self, t: i64)
        ensures
            final(self)@ == Self::blended(old(self)@, a@, b@, t as int),
    ;

    /// A copy of the target.
    fn duplicate(&self) -> (r: Self)
        ensures
            r@ == self@,
    ;
}

} // verus!
