use vstd::prelude::*;

verus! {

/// An axis-aligned rectangle: a signed origin and an unsigned size.
#[derive(Debug, Clone, Copy, PartialEq, Eq, Structural)]
pub struct Rect {
    pub x: i32,
    pub y: i32,
    pub width: u32,
    pub height: u32,
}

impl Rect {
    /// The exclusive right edge, `x + width`.
    pub open spec fn right_spec(&self) -> int {
        self.x as int + self.width as int
    }

    /// The exclusive bottom edge, `y + height`.
    pub open spec fn bottom_spec(&self) -> int {
        self.y as int + self.height as int
    }

    /// The point lies in the half-open area `[x, right) × [y, bottom)`.
    pub open spec fn contains_spec(&self, px: int, py: int) -> bool {
        &&& self.x <= px < self.right_spec()
        &&& self.y <= py < self.bottom_spec()
    }

    pub fn new(x: i32, y: i32, width: u32, height: u32) -> (r: Self)
        ensures
            r == (Rect { x, y, width, height }),
    {
        Rect { x, y, width, height }
    }

    pub fn from_size(width: u32, height: u32) -> (r: Self)
        ensures
            r == (Rect { x: 0, y: 0, width, height }),
    {
        Rect { x: 0, y: 0, width, height }
    }

    /// Whether the point lies inside the rectangle.
    pub fn contains(&self, px: i32, py: i32) -> (r: bool)
        ensures
            r == self.contains_spec(px as int, py as int),
    {
        let right = self.x as i64 + self.width as i64;
        let bottom = self.y as i64 + self.height as i64;
        px >= self.x && py >= self.y && (px as i64) < right && (py as i64) < bottom
    }

    pub fn right(&self) -> (r: i32)
        requires
            self.right_spec() <= i32::MAX,
        ensures
            r == self.right_spec(),
    {
        (self.x as i64 + self.width as i64) as i32
    }

    pub fn bottom(&self) -> (r: i32)
        requires
            self.bottom_spec() <= i32::MAX,
        ensures
            r == self.bottom_spec(),
    {
        (self.y as i64 + self.height as i64) as i32
    }
}

} // verus!
