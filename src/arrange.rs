//! The earlier set of tiling policies, without Focus.
use vstd::prelude::*;

use crate::layout::{
    columns, columns_fit, columns_spec, dwindle, dwindle_spec, monocle, monocle_spec,
};
use crate::rect::Bounds;

verus! {

/// The tiling policies of the earlier set.
#[derive(Clone, Copy, Debug, PartialEq, Eq, Structural)]
pub enum Arrange {
    Dwindle,
    Monocle,
    Columns,
}

/// The tiles that `a` gives `n` windows in `b`.
pub open spec fn arrange_spec(a: Arrange, b: Bounds, n: nat) -> Seq<Bounds> {
    match a {
        Arrange::Dwindle => dwindle_spec(b, n),
        Arrange::Monocle => monocle_spec(b, n),
        Arrange::Columns => columns_spec(b, n),
    }
}

/// Dwindle layout of `n` windows in `bounds`, built by cutting the last
/// region in two, again and again.
pub fn spiral_subdivide(bounds: Bounds, n: usize) -> (r: Vec<Bounds>)
    ensures
        r@ == dwindle_spec(bounds, n as nat),
{
    dwindle(bounds, n)
}

impl Arrange {
    /// The tiles for `n` windows in `bounds`, tile `k` for window `k`.
    pub fn arrange(&self, bounds: Bounds, n: usize) -> (r: Vec<Bounds>)
        requires
            *self == Arrange::Columns && n > 0 ==> columns_fit(bounds),
        ensures
            r@ == arrange_spec(*self, bounds, n as nat),
            r@.len() == n,
    {
        match self {
            Arrange::Dwindle => spiral_subdivide(bounds, n),
            Arrange::Monocle => monocle(bounds, n),
            Arrange::Columns => columns(bounds, n),
        }
    }
}

} // verus!
