//! The 2-D vector the simulation state is made of, and its mathematical model.

use vstd::prelude::*;

verus! {

/// A 2-D vector whose components are fixed-point numbers
/// (see [`crate::math::SCALE`]).
#[derive(Clone, Copy, Debug, PartialEq, Eq, Structural)]
pub struct Vec2 {
    pub x: i128,
    pub y: i128,
}

/// The mathematical value of a [`Vec2`]: a pair of unbounded integers.
pub struct Vec2Model {
    pub x: int,
    pub y: int,
}

impl View for Vec2 {
    type V = Vec2Model;

    open spec fn view(&self) -> Vec2Model {
        Vec2Model { x: self.x as int, y: self.y as int }
    }
}

impl Vec2 {
    /// The zero vector.
    pub fn zero() -> (v: Vec2)
        ensures
            v@ == (Vec2Model { x: 0, y: 0 }),
    {
        Vec2 { x: 0, y: 0 }
    }
}

} // verus!
