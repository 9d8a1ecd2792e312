//! Logical-coordinate geometry: points and rectangles on the bar strip.
//!
//! Positions are signed logical pixels; sizes are unsigned. Every method
//! states its result exactly, so hit-testing and layout proofs elsewhere
//! rest on these contracts alone.

use vstd::prelude::*;

verus! {

/// A point in logical coordinates.
#[derive(Clone, Copy, Debug, PartialEq, Eq, Structural)]
pub struct Pos {
    pub x: i32,
    pub y: i32,
}

/// Nearness of the pointer to a shape, for proximity-driven
/// decorations.
#[derive(Clone, Copy, Debug, PartialEq, Eq, Structural)]
pub enum Proximity {
    Inside,
    Near,
    Far,
}

/// An axis-aligned rectangle: origin plus extent.
#[derive(Clone, Copy, Debug, PartialEq, Eq, Structural)]
pub struct Rect {
    pub pos: Pos,
    pub width: u32,
    pub height: u32,
}

impl Rect {
    /// The rectangle's extent and edges stay representable in `i32`.
    pub open spec fn spec_wf(self) -> bool {
        &&& self.width <= i32::MAX
        &&& self.height <= i32::MAX
        &&& self.pos.x + self.width <= i32::MAX
        &&& self.pos.y + self.height <= i32::MAX
    }

    pub open spec fn spec_left(self) -> int {
        self.pos.x as int
    }

    pub open spec fn spec_right(self) -> int {
        self.pos.x + self.width
    }

    pub open spec fn spec_top(self) -> int {
        self.pos.y as int
    }

    pub open spec fn spec_bottom(self) -> int {
        self.pos.y + self.height
    }

    /// Containment in the closed rectangle, edges included.
    pub open spec fn spec_contains(self, p: Pos) -> bool {
        self.spec_left() <= p.x <= self.spec_right() && self.spec_top() <= p.y
            <= self.spec_bottom()
    }
}

impl Pos {
    pub fn with_x(self, x: i32) -> (r: Pos)
        ensures
            r == (Pos { x, y: self.y }),
    {
        Pos { x, y: self.y }
    }

    pub fn with_y(self, y: i32) -> (r: Pos)
        ensures
            r == (Pos { x: self.x, y }),
    {
        Pos { x: self.x, y }
    }

    /// True exactly when the point lies in the closed rectangle.
    pub fn within(&self, rect: Rect) -> (r: bool)
        requires
            rect.spec_wf(),
        ensures
            r == rect.spec_contains(*self),
    {
        self.x >= rect.left() && self.y >= rect.top() && self.x <= rect.right() && self.y
            <= rect.bottom()
    }

    /// Componentwise maximum.
    pub fn max(self, other: Pos) -> (r: Pos)
        ensures
            r.x == if self.x >= other.x {
                self.x
            } else {
                other.x
            },
            r.y == if self.y >= other.y {
                self.y
            } else {
                other.y
            },
    {
        Pos {
            x: if self.x >= other.x {
                self.x
            } else {
                other.x
            },
            y: if self.y >= other.y {
                self.y
            } else {
                other.y
            },
        }
    }

    /// Componentwise minimum.
    pub fn min(self, other: Pos) -> (r: Pos)
        ensures
            r.x == if self.x <= other.x {
                self.x
            } else {
                other.x
            },
            r.y == if self.y <= other.y {
                self.y
            } else {
                other.y
            },
    {
        Pos {
            x: if self.x <= other.x {
                self.x
            } else {
                other.x
            },
            y: if self.y <= other.y {
                self.y
            } else {
                other.y
            },
        }
    }
}

impl Rect {
    pub fn left(&self) -> (r: i32)
        ensures
            r == self.spec_left(),
    {
        self.pos.x
    }

    pub fn right(&self) -> (r: i32)
        requires
            self.spec_wf(),
        ensures
            r == self.spec_right(),
    {
        self.pos.x + self.width as i32
    }

    pub fn top(&self) -> (r: i32)
        ensures
            r == self.spec_top(),
    {
        self.pos.y
    }

    pub fn bottom(&self) -> (r: i32)
        requires
            self.spec_wf(),
        ensures
            r == self.spec_bottom(),
    {
        self.pos.y + self.height as i32
    }

    pub fn with_x(self, x: i32) -> (r: Rect)
        ensures
            r == (Rect { pos: Pos { x, y: self.pos.y }, width: self.width, height: self.height }),
    {
        Rect { pos: Pos { x, y: self.pos.y }, width: self.width, height: self.height }
    }

    pub fn with_y(self, y: i32) -> (r: Rect)
        ensures
            r == (Rect { pos: Pos { x: self.pos.x, y }, width: self.width, height: self.height }),
    {
        Rect { pos: Pos { x: self.pos.x, y }, width: self.width, height: self.height }
    }

    pub fn with_width(self, width: u32) -> (r: Rect)
        ensures
            r == (Rect { pos: self.pos, width, height: self.height }),
    {
        Rect { pos: self.pos, width, height: self.height }
    }

    pub fn with_height(self, height: u32) -> (r: Rect)
        ensures
            r == (Rect { pos: self.pos, width: self.width, height }),
    {
        Rect { pos: self.pos, width: self.width, height }
    }

    /// The center, with halves rounded toward the origin.
    pub open spec fn spec_center(self) -> Pos {
        Pos {
            x: (self.pos.x + (self.width as int) / 2) as i32,
            y: (self.pos.y + (self.height as int) / 2) as i32,
        }
    }

    pub fn center(&self) -> (r: Pos)
        requires
            self.spec_wf(),
        ensures
            r == self.spec_center(),
    {
        Pos { x: self.pos.x + (self.width / 2) as i32, y: self.pos.y + (self.height / 2) as i32 }
    }

    /// Horizontal distance from the point to the rectangle: zero
    /// between the edges.
    pub open spec fn spec_dx(self, p: Pos) -> int {
        if p.x < self.spec_left() {
            self.spec_left() - p.x
        } else if p.x > self.spec_right() {
            p.x - self.spec_right()
        } else {
            0
        }
    }

    /// Vertical distance from the point to the rectangle: zero between
    /// the edges.
    pub open spec fn spec_dy(self, p: Pos) -> int {
        if p.y < self.spec_top() {
            self.spec_top() - p.y
        } else if p.y > self.spec_bottom() {
            p.y - self.spec_bottom()
        } else {
            0
        }
    }

    /// How near the pointer is to this shape: inside it, within
    /// `radius` of its edges, or farther out. Button decorations tilt
    /// fully when the pointer is inside, partially while it is near,
    /// and lie flat otherwise.
    pub fn proximity(&self, p: Pos, radius: u32) -> (r: Proximity)
        requires
            self.spec_wf(),
            radius <= 0x7fff_ffff,
        ensures
            r == (if self.spec_contains(p) {
                Proximity::Inside
            } else if self.spec_dx(p) * self.spec_dx(p) + self.spec_dy(p) * self.spec_dy(p)
                < radius * radius {
                Proximity::Near
            } else {
                Proximity::Far
            }),
    {
        if self.left() <= p.x && p.x <= self.right() && self.top() <= p.y && p.y <= self.bottom() {
            return Proximity::Inside;
        }
        let dx: i64 = if p.x < self.left() {
            self.left() as i64 - p.x as i64
        } else if p.x > self.right() {
            p.x as i64 - self.right() as i64
        } else {
            0
        };
        let dy: i64 = if p.y < self.top() {
            self.top() as i64 - p.y as i64
        } else if p.y > self.bottom() {
            p.y as i64 - self.bottom() as i64
        } else {
            0
        };
        proof {
            assert(dx * dx <= 0x1_0000_0000 * 0x1_0000_0000 && dy * dy <= 0x1_0000_0000
                * 0x1_0000_0000 && 0 <= dx * dx && 0 <= dy * dy && radius * radius <= 0x7fff_ffff
                * 0x7fff_ffff) by (nonlinear_arith)
                requires
                    0 <= dx <= 0x1_0000_0000,
                    0 <= dy <= 0x1_0000_0000,
                    0 <= radius <= 0x7fff_ffff,
            ;
        }
        if (dx as i128) * (dx as i128) + (dy as i128) * (dy as i128) < (radius as i128) * (
        radius as i128) {
            Proximity::Near
        } else {
            Proximity::Far
        }
    }

    /// Resizes the rectangle, keeping the center where it is; the origin
    /// moves so the new extent straddles the old center.
    pub fn resize_to(&mut self, width: u32, height: u32)
        requires
            old(self).spec_wf(),
            old(self).spec_center().x - width / 2 >= i32::MIN,
            old(self).spec_center().y - height / 2 >= i32::MIN,
        ensures
            final(self).width == width,
            final(self).height == height,
            final(self).pos.x == old(self).spec_center().x - (width as int) / 2,
            final(self).pos.y == old(self).spec_center().y - (height as int) / 2,
    {
        let center = self.center();
        self.pos.x = center.x - (width / 2) as i32;
        self.pos.y = center.y - (height / 2) as i32;
        self.width = width;
        self.height = height;
    }
}

} // verus!
