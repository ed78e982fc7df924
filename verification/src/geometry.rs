use vstd::prelude::*;

verus! {

/// An integer vector in the plane: a grid position or a displacement.
#[derive(Clone, Copy, Debug, PartialEq, Eq, Structural)]
pub struct Pos2D {
    pub x: i32,
    pub y: i32,
}

impl View for Pos2D {
    type V = (int, int);

    open spec fn view(&self) -> (int, int) {
        (self.x as int, self.y as int)
    }
}

impl Pos2D {
    /// The vector with the given coordinates.
    pub fn xy(x: i32, y: i32) -> (p: Self)
        ensures
            p.x == x,
            p.y == y,
    {
        Pos2D { x, y }
    }

    /// Adds `pos` to this vector, coordinate by coordinate.
    pub fn add(&mut self, pos: Pos2D)
        requires
            i32::MIN <= old(self).x + pos.x <= i32::MAX,
            i32::MIN <= old(self).y + pos.y <= i32::MAX,
        ensures
            final(self).x == old(self).x + pos.x,
            final(self).y == old(self).y + pos.y,
    {
        self.x = self.x + pos.x;
        self.y = self.y + pos.y;
    }

    /// The vector that undoes this one when added to it.
    pub fn inv(&self) -> (p: Self)
        requires
            self.x > i32::MIN,
            self.y > i32::MIN,
        ensures
            p.x == -self.x,
            p.y == -self.y,
    {
        Pos2D { x: -self.x, y: -self.y }
    }
}

} // verus!
