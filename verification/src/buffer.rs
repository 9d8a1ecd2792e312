//! Software pixel buffers: an 8-bit coverage mask for glyphs and a
//! BGRX color canvas, with every drawing operation's effect on the
//! pixels stated exactly.
//!
//! Both buffers treat the row `y == 0` and the column `x == 0` as
//! outside the canvas: drawing there is a no-op and reading there
//! yields the blank value, mirroring how the bar reserves its outer
//! edge.

use vstd::prelude::*;

use crate::color::{spec_fade, Color};
use crate::math::Pos;
use crate::math::Rect;

verus! {

/// The point `(x, y)` is strictly inside the drawable area of a
/// `w x h` buffer.
pub open spec fn spec_in_canvas(w: u32, h: u32, x: int, y: int) -> bool {
    0 < x < w && 0 < y < h
}

/// Flat row-major pixel index.
pub open spec fn spec_pixel_index(w: u32, x: int, y: int) -> int {
    y * w + x
}

/// Distinct in-row positions have distinct row-major indices.
proof fn lemma_pixel_index_distinct(w: u32, x1: int, y1: int, x2: int, y2: int)
    requires
        0 <= x1 < w,
        0 <= x2 < w,
        0 <= y1,
        0 <= y2,
        x1 != x2 || y1 != y2,
    ensures
        spec_pixel_index(w, x1, y1) != spec_pixel_index(w, x2, y2),
{
    if y1 < y2 {
        assert(y1 * w + x1 < y2 * w + x2) by (nonlinear_arith)
            requires
                0 <= x1 < w,
                0 <= x2,
                y1 < y2,
        ;
    } else if y2 < y1 {
        assert(y2 * w + x2 < y1 * w + x1) by (nonlinear_arith)
            requires
                0 <= x2 < w,
                0 <= x1,
                y2 < y1,
        ;
    }
}

/// An in-canvas pixel index addresses the buffer's storage.
proof fn lemma_pixel_index_bounds(w: u32, h: u32, x: int, y: int)
    requires
        0 <= x < w,
        0 <= y < h,
    ensures
        0 <= spec_pixel_index(w, x, y),
        spec_pixel_index(w, x, y) < w * h,
{
    assert(0 <= y * w + x && y * w + x < w * h) by (nonlinear_arith)
        requires
            0 <= x < w,
            0 <= y < h,
    ;
}

/// A single-byte-per-pixel coverage buffer, as a glyph rasterizer
/// fills it.
pub struct AlphaBuffer {
    pub data: Vec<u8>,
    pub width: u32,
    pub height: u32,
}

impl AlphaBuffer {
    pub open spec fn spec_wf(self) -> bool {
        &&& self.data@.len() == self.width * self.height
        &&& self.width * self.height <= usize::MAX
        &&& self.width <= i32::MAX
        &&& self.height <= i32::MAX
    }

    /// The stored coverage, or `0` outside the canvas.
    pub open spec fn spec_get(self, x: int, y: int) -> u8 {
        if spec_in_canvas(self.width, self.height, x, y) {
            self.data@[spec_pixel_index(self.width, x, y)]
        } else {
            0
        }
    }

    pub fn new(width: u32, height: u32) -> (r: AlphaBuffer)
        requires
            width * height <= usize::MAX,
            width <= i32::MAX,
            height <= i32::MAX,
        ensures
            r.spec_wf(),
            r.width == width,
            r.height == height,
            forall|x: int, y: int| r.spec_get(x, y) == 0,
    {
        proof {
            assert(0 <= width * height) by (nonlinear_arith);
        }
        let len = width as usize * height as usize;
        let data = vec![0u8; len];
        let r = AlphaBuffer { data, width, height };
        proof {
            assert forall|x: int, y: int| r.spec_get(x, y) == 0 by {
                if spec_in_canvas(width, height, x, y) {
                    lemma_pixel_index_bounds(width, height, x, y);
                }
            }
        }
        r
    }

    /// Stores `alpha` at the position; outside the canvas this is a
    /// no-op.
    pub fn draw_pixel(&mut self, pos: Pos, alpha: u8)
        requires
            old(self).spec_wf(),
        ensures
            final(self).spec_wf(),
            final(self).width == old(self).width,
            final(self).height == old(self).height,
            forall|x: int, y: int|
                #![trigger final(self).spec_get(x, y)]
                final(self).spec_get(x, y) == if x == pos.x && y == pos.y && spec_in_canvas(
                    old(self).width,
                    old(self).height,
                    x,
                    y,
                ) {
                    alpha
                } else {
                    old(self).spec_get(x, y)
                },
    {
        if pos.x > 0 && pos.y > 0 && (pos.x as u32) < self.width && (pos.y as u32) < self.height {
            proof {
                lemma_pixel_index_bounds(self.width, self.height, pos.x as int, pos.y as int);
            }
            let i = (pos.y as u64 * self.width as u64 + pos.x as u64) as usize;
            self.data[i] = alpha;
            proof {
                assert forall|x: int, y: int|
                    self.spec_get(x, y) == if x == pos.x && y == pos.y && spec_in_canvas(
                        old(self).width,
                        old(self).height,
                        x,
                        y,
                    ) {
                        alpha
                    } else {
                        old(self).spec_get(x, y)
                    } by {
                    if x == pos.x && y == pos.y && spec_in_canvas(
                        old(self).width,
                        old(self).height,
                        x,
                        y,
                    ) {
                        assert(self.spec_get(x, y) == alpha);
                    } else if spec_in_canvas(self.width, self.height, x, y) {
                        lemma_pixel_index_bounds(self.width, self.height, x, y);
                        lemma_pixel_index_distinct(self.width, x, y, pos.x as int, pos.y as int);
                        assert(self.spec_get(x, y) == old(self).spec_get(x, y));
                    } else {
                        assert(self.spec_get(x, y) == old(self).spec_get(x, y));
                    }
                }
            }
        }
    }

    /// The stored coverage, or `0` outside the canvas.
    pub fn get_pixel(&self, pos: Pos) -> (r: u8)
        requires
            self.spec_wf(),
        ensures
            r == self.spec_get(pos.x as int, pos.y as int),
    {
        if pos.x > 0 && pos.y > 0 && (pos.x as u32) < self.width && (pos.y as u32) < self.height {
            proof {
                lemma_pixel_index_bounds(self.width, self.height, pos.x as int, pos.y as int);
            }
            let i = (pos.y as u64 * self.width as u64 + pos.x as u64) as usize;
            self.data[i]
        } else {
            0
        }
    }
}

/// A BGRX color canvas: four bytes per pixel, blue, green, red, and a
/// filler byte the drawing operations never touch.
pub struct Buffer {
    pub data: Vec<u8>,
    pub width: u32,
    pub height: u32,
}

impl Buffer {
    pub open spec fn spec_wf(self) -> bool {
        &&& self.data@.len() == self.width * self.height * 4
        &&& self.width * self.height * 4 <= usize::MAX
        &&& self.width <= i32::MAX
        &&& self.height <= i32::MAX
    }

    pub open spec fn spec_byte_index(self, x: int, y: int) -> int {
        spec_pixel_index(self.width, x, y) * 4
    }

    /// The stored color, or black outside the canvas.
    pub open spec fn spec_get(self, x: int, y: int) -> Color {
        if spec_in_canvas(self.width, self.height, x, y) {
            Color {
                b: self.data@[self.spec_byte_index(x, y)],
                g: self.data@[self.spec_byte_index(x, y) + 1],
                r: self.data@[self.spec_byte_index(x, y) + 2],
            }
        } else {
            Color { r: 0, g: 0, b: 0 }
        }
    }

    pub fn new(width: u32, height: u32) -> (r: Buffer)
        requires
            width * height * 4 <= usize::MAX,
            width <= i32::MAX,
            height <= i32::MAX,
        ensures
            r.spec_wf(),
            r.width == width,
            r.height == height,
            forall|x: int, y: int| r.spec_get(x, y) == (Color { r: 0, g: 0, b: 0 }),
    {
        proof {
            assert(0 <= width * height && width * height * 4 == (width * height) * 4)
                by (nonlinear_arith);
        }
        let len = (width as u64 * height as u64 * 4) as usize;
        let data = vec![0u8; len];
        let r = Buffer { data, width, height };
        proof {
            assert forall|x: int, y: int| r.spec_get(x, y) == (Color { r: 0, g: 0, b: 0 }) by {
                if spec_in_canvas(width, height, x, y) {
                    lemma_pixel_index_bounds(width, height, x, y);
                }
            }
        }
        r
    }

    /// Stores the color's channels at the position, leaving the filler
    /// byte alone; outside the canvas this is a no-op.
    pub fn draw_pixel(&mut self, pos: Pos, color: Color)
        requires
            old(self).spec_wf(),
        ensures
            final(self).spec_wf(),
            final(self).width == old(self).width,
            final(self).height == old(self).height,
            forall|x: int, y: int|
                #![trigger final(self).spec_get(x, y)]
                final(self).spec_get(x, y) == if x == pos.x && y == pos.y && spec_in_canvas(
                    old(self).width,
                    old(self).height,
                    x,
                    y,
                ) {
                    color
                } else {
                    old(self).spec_get(x, y)
                },
    {
        if pos.x > 0 && pos.y > 0 && (pos.x as u32) < self.width && (pos.y as u32) < self.height {
            proof {
                lemma_pixel_index_bounds(self.width, self.height, pos.x as int, pos.y as int);
                assert((pos.y * self.width + pos.x) * 4 + 3 < self.width * self.height * 4)
                    by (nonlinear_arith)
                    requires
                        0 <= pos.y * self.width + pos.x < self.width * self.height,
                ;
            }
            let i = ((pos.y as u64 * self.width as u64 + pos.x as u64) * 4) as usize;
            self.data[i] = color.b;
            self.data[i + 1] = color.g;
            self.data[i + 2] = color.r;
            proof {
                assert forall|x: int, y: int|
                    self.spec_get(x, y) == if x == pos.x && y == pos.y && spec_in_canvas(
                        old(self).width,
                        old(self).height,
                        x,
                        y,
                    ) {
                        color
                    } else {
                        old(self).spec_get(x, y)
                    } by {
                    if spec_in_canvas(self.width, self.height, x, y) && (x != pos.x || y
                        != pos.y) {
                        lemma_pixel_index_bounds(self.width, self.height, x, y);
                        lemma_pixel_index_distinct(self.width, x, y, pos.x as int, pos.y as int);
                        assert((spec_pixel_index(self.width, x, y)) * 4 + 3 < self.width
                            * self.height * 4) by (nonlinear_arith)
                            requires
                                0 <= spec_pixel_index(self.width, x, y) < self.width * self.height,
                        ;
                        assert(spec_pixel_index(self.width, x, y) * 4 != spec_pixel_index(
                            self.width,
                            pos.x as int,
                            pos.y as int,
                        ) * 4);
                    }
                }
            }
        }
    }

    /// The stored color, or black outside the canvas.
    pub fn get_pixel(&self, pos: Pos) -> (r: Color)
        requires
            self.spec_wf(),
        ensures
            r == self.spec_get(pos.x as int, pos.y as int),
    {
        if pos.x > 0 && pos.y > 0 && (pos.x as u32) < self.width && (pos.y as u32) < self.height {
            proof {
                lemma_pixel_index_bounds(self.width, self.height, pos.x as int, pos.y as int);
                assert((pos.y * self.width + pos.x) * 4 + 3 < self.width * self.height * 4)
                    by (nonlinear_arith)
                    requires
                        0 <= pos.y * self.width + pos.x < self.width * self.height,
                ;
            }
            let i = ((pos.y as u64 * self.width as u64 + pos.x as u64) * 4) as usize;
            Color { b: self.data[i], g: self.data[i + 1], r: self.data[i + 2] }
        } else {
            Color { r: 0, g: 0, b: 0 }
        }
    }

    /// Paints every canvas pixel with the color.
    pub fn fill(&mut self, color: Color)
        requires
            old(self).spec_wf(),
        ensures
            final(self).spec_wf(),
            final(self).width == old(self).width,
            final(self).height == old(self).height,
            forall|x: int, y: int|
                #![trigger final(self).spec_get(x, y)]
                final(self).spec_get(x, y) == if spec_in_canvas(
                    old(self).width,
                    old(self).height,
                    x,
                    y,
                ) {
                    color
                } else {
                    old(self).spec_get(x, y)
                },
    {
        let ghost orig = *self;
        let w = self.width;
        let h = self.height;
        let mut y: u32 = 0;
        while y < h
            invariant
                self.spec_wf(),
                self.width == w == orig.width,
                self.height == h == orig.height,
                self.data@.len() == orig.data@.len(),
                y <= h,
                forall|xx: int, yy: int|
                    #![trigger self.spec_get(xx, yy)]
                    self.spec_get(xx, yy) == if spec_in_canvas(w, h, xx, yy) && yy < y {
                        color
                    } else {
                        orig.spec_get(xx, yy)
                    },
            decreases h - y,
        {
            let mut x: u32 = 0;
            while x < w
                invariant
                    self.spec_wf(),
                    self.width == w == orig.width,
                    self.height == h == orig.height,
                    x <= w,
                    y < h,
                    forall|xx: int, yy: int|
                        #![trigger self.spec_get(xx, yy)]
                        self.spec_get(xx, yy) == if spec_in_canvas(w, h, xx, yy) && (yy < y || (yy
                            == y && xx < x)) {
                            color
                        } else {
                            orig.spec_get(xx, yy)
                        },
                decreases w - x,
            {
                self.draw_pixel(Pos { x: x as i32, y: y as i32 }, color);
                x = x + 1;
            }
            y = y + 1;
        }
    }

    /// Paints the canvas pixels inside the half-open rectangle
    /// `[left, right) x [top, bottom)`.
    pub fn draw_rect(&mut self, rect: Rect, color: Color)
        requires
            old(self).spec_wf(),
            rect.spec_wf(),
        ensures
            final(self).spec_wf(),
            final(self).width == old(self).width,
            final(self).height == old(self).height,
            forall|x: int, y: int|
                #![trigger final(self).spec_get(x, y)]
                final(self).spec_get(x, y) == if spec_in_canvas(
                    old(self).width,
                    old(self).height,
                    x,
                    y,
                ) && rect.spec_left() <= x < rect.spec_right() && rect.spec_top() <= y
                    < rect.spec_bottom() {
                    color
                } else {
                    old(self).spec_get(x, y)
                },
    {
        let ghost orig = *self;
        let y1 = rect.bottom();
        let x1 = rect.right();
        let mut y = rect.top();
        while y < y1
            invariant
                self.spec_wf(),
                self.width == orig.width,
                self.height == orig.height,
                rect.spec_top() <= y <= y1 || y == rect.spec_top(),
                y1 == rect.spec_bottom(),
                x1 == rect.spec_right(),
                rect.spec_wf(),
                forall|xx: int, yy: int|
                    #![trigger self.spec_get(xx, yy)]
                    self.spec_get(xx, yy) == if spec_in_canvas(orig.width, orig.height, xx, yy)
                        && rect.spec_left() <= xx < rect.spec_right() && rect.spec_top() <= yy < y {
                        color
                    } else {
                        orig.spec_get(xx, yy)
                    },
            decreases y1 - y,
        {
            let mut x = rect.left();
            while x < x1
                invariant
                    self.spec_wf(),
                    self.width == orig.width,
                    self.height == orig.height,
                    rect.spec_left() <= x <= x1 || x == rect.spec_left(),
                    rect.spec_top() <= y < y1,
                    y1 == rect.spec_bottom(),
                    x1 == rect.spec_right(),
                    rect.spec_wf(),
                    forall|xx: int, yy: int|
                        #![trigger self.spec_get(xx, yy)]
                        self.spec_get(xx, yy) == if spec_in_canvas(orig.width, orig.height, xx, yy)
                            && rect.spec_left() <= xx < rect.spec_right() && (rect.spec_top() <= yy
                            < y || (yy == y && rect.spec_left() <= xx < x)) {
                            color
                        } else {
                            orig.spec_get(xx, yy)
                        },
                decreases x1 - x,
            {
                self.draw_pixel(Pos { x, y }, color);
                x = x + 1;
            }
            y = y + 1;
        }
    }

    /// Copies the other buffer onto this one, its origin placed at
    /// `pos`. Pixels outside the other buffer's canvas copy as black,
    /// and targets outside this canvas are dropped.
    pub fn copy_from(&mut self, pos: Pos, other: &Buffer)
        requires
            old(self).spec_wf(),
            other.spec_wf(),
            pos.x + other.width <= i32::MAX,
            pos.y + other.height <= i32::MAX,
        ensures
            final(self).spec_wf(),
            final(self).width == old(self).width,
            final(self).height == old(self).height,
            forall|x: int, y: int|
                #![trigger final(self).spec_get(x, y)]
                final(self).spec_get(x, y) == if spec_in_canvas(
                    old(self).width,
                    old(self).height,
                    x,
                    y,
                ) && pos.x <= x < pos.x + other.width && pos.y <= y < pos.y + other.height {
                    other.spec_get(x - pos.x, y - pos.y)
                } else {
                    old(self).spec_get(x, y)
                },
    {
        let ghost orig = *self;
        let mut x: u32 = 0;
        while x < other.width
            invariant
                self.spec_wf(),
                self.width == orig.width,
                self.height == orig.height,
                other.spec_wf(),
                x <= other.width,
                pos.x + other.width <= i32::MAX,
                pos.y + other.height <= i32::MAX,
                forall|xx: int, yy: int|
                    #![trigger self.spec_get(xx, yy)]
                    self.spec_get(xx, yy) == if spec_in_canvas(orig.width, orig.height, xx, yy)
                        && pos.x <= xx < pos.x + x && pos.y <= yy < pos.y + other.height {
                        other.spec_get(xx - pos.x, yy - pos.y)
                    } else {
                        orig.spec_get(xx, yy)
                    },
            decreases other.width - x,
        {
            let mut y: u32 = 0;
            while y < other.height
                invariant
                    self.spec_wf(),
                    self.width == orig.width,
                    self.height == orig.height,
                    other.spec_wf(),
                    x < other.width,
                    y <= other.height,
                    pos.x + other.width <= i32::MAX,
                    pos.y + other.height <= i32::MAX,
                    forall|xx: int, yy: int|
                        #![trigger self.spec_get(xx, yy)]
                        self.spec_get(xx, yy) == if spec_in_canvas(orig.width, orig.height, xx, yy)
                            && pos.y <= yy < pos.y + other.height && (pos.x <= xx < pos.x + x || (xx
                            == pos.x + x && pos.y <= yy < pos.y + y)) {
                            other.spec_get(xx - pos.x, yy - pos.y)
                        } else {
                            orig.spec_get(xx, yy)
                        },
                decreases other.height - y,
            {
                let p = Pos { x: x as i32, y: y as i32 };
                let v = other.get_pixel(p);
                self.draw_pixel(Pos { x: p.x + pos.x, y: p.y + pos.y }, v);
                y = y + 1;
            }
            x = x + 1;
        }
    }

    /// Blends the color onto this buffer through the other buffer's
    /// coverage mask, its origin placed at `pos`: each covered target
    /// pixel fades from its stored color toward `color` by the mask
    /// value.
    pub fn copy_from_alpha(&mut self, pos: Pos, color: Color, other: &AlphaBuffer)
        requires
            old(self).spec_wf(),
            other.spec_wf(),
            pos.x + other.width <= i32::MAX,
            pos.y + other.height <= i32::MAX,
        ensures
            final(self).spec_wf(),
            final(self).width == old(self).width,
            final(self).height == old(self).height,
            forall|x: int, y: int|
                #![trigger final(self).spec_get(x, y)]
                final(self).spec_get(x, y) == if spec_in_canvas(
                    old(self).width,
                    old(self).height,
                    x,
                    y,
                ) && pos.x <= x < pos.x + other.width && pos.y <= y < pos.y + other.height {
                    spec_fade(color, old(self).spec_get(x, y), other.spec_get(x - pos.x, y - pos.y))
                } else {
                    old(self).spec_get(x, y)
                },
    {
        let ghost orig = *self;
        let mut x: u32 = 0;
        while x < other.width
            invariant
                self.spec_wf(),
                self.width == orig.width,
                self.height == orig.height,
                other.spec_wf(),
                x <= other.width,
                pos.x + other.width <= i32::MAX,
                pos.y + other.height <= i32::MAX,
                forall|xx: int, yy: int|
                    #![trigger self.spec_get(xx, yy)]
                    self.spec_get(xx, yy) == if spec_in_canvas(orig.width, orig.height, xx, yy)
                        && pos.x <= xx < pos.x + x && pos.y <= yy < pos.y + other.height {
                        spec_fade(color, orig.spec_get(xx, yy), other.spec_get(xx - pos.x, yy - pos.y))
                    } else {
                        orig.spec_get(xx, yy)
                    },
            decreases other.width - x,
        {
            let mut y: u32 = 0;
            while y < other.height
                invariant
                    self.spec_wf(),
                    self.width == orig.width,
                    self.height == orig.height,
                    other.spec_wf(),
                    x < other.width,
                    y <= other.height,
                    pos.x + other.width <= i32::MAX,
                    pos.y + other.height <= i32::MAX,
                    forall|xx: int, yy: int|
                        #![trigger self.spec_get(xx, yy)]
                        self.spec_get(xx, yy) == if spec_in_canvas(orig.width, orig.height, xx, yy)
                            && pos.y <= yy < pos.y + other.height && (pos.x <= xx < pos.x + x || (xx
                            == pos.x + x && pos.y <= yy < pos.y + y)) {
                            spec_fade(
                                color,
                                orig.spec_get(xx, yy),
                                other.spec_get(xx - pos.x, yy - pos.y),
                            )
                        } else {
                            orig.spec_get(xx, yy)
                        },
                decreases other.height - y,
            {
                let p = Pos { x: x as i32, y: y as i32 };
                let alpha = other.get_pixel(p);
                let t = Pos { x: p.x + pos.x, y: p.y + pos.y };
                let existing = self.get_pixel(t);
                self.draw_pixel(t, color.fade(existing, alpha));
                y = y + 1;
            }
            x = x + 1;
        }
    }

    /// Blends the color over the stored pixel by `alpha`: `255` stores
    /// the color outright.
    pub fn draw_pixel_alpha(&mut self, pos: Pos, color: Color, alpha: u8)
        requires
            old(self).spec_wf(),
        ensures
            final(self).spec_wf(),
            final(self).width == old(self).width,
            final(self).height == old(self).height,
            forall|x: int, y: int|
                #![trigger final(self).spec_get(x, y)]
                final(self).spec_get(x, y) == if x == pos.x && y == pos.y && spec_in_canvas(
                    old(self).width,
                    old(self).height,
                    x,
                    y,
                ) {
                    spec_fade(color, old(self).spec_get(x, y), alpha)
                } else {
                    old(self).spec_get(x, y)
                },
    {
        proof {
            crate::color::lemma_fade_endpoints(color, old(self).spec_get(pos.x as int, pos.y as int));
        }
        if alpha == 255 {
            self.draw_pixel(pos, color);
        } else {
            let existing = self.get_pixel(pos);
            self.draw_pixel(pos, color.fade(existing, alpha));
        }
    }
}

/// A canvas that grows horizontally when drawn past its right edge;
/// the bar is horizontal, so it never grows vertically. New area is
/// filled with the background color.
pub struct DynamicBuffer {
    pub buf: Buffer,
    pub background: Color,
}

impl DynamicBuffer {
    pub open spec fn spec_wf(self) -> bool {
        self.buf.spec_wf()
    }

    /// Starts empty: zero width, so the first draw allocates.
    pub fn new(height: u32, background: Color) -> (r: DynamicBuffer)
        requires
            height <= i32::MAX,
        ensures
            r.spec_wf(),
            r.buf.width == 0,
            r.buf.height == height,
            r.background == background,
    {
        proof {
            assert(0 * height * 4 == 0) by (nonlinear_arith);
        }
        DynamicBuffer { buf: Buffer::new(0, height), background }
    }

    pub fn width(&self) -> (r: u32)
        ensures
            r == self.buf.width,
    {
        self.buf.width
    }

    pub fn height(&self) -> (r: u32)
        ensures
            r == self.buf.height,
    {
        self.buf.height
    }

    /// Repaints the whole canvas with a new background color and
    /// remembers it for future growth.
    pub fn fill_and_set_background(&mut self, color: Color)
        requires
            old(self).spec_wf(),
        ensures
            final(self).spec_wf(),
            final(self).background == color,
            final(self).buf.width == old(self).buf.width,
            final(self).buf.height == old(self).buf.height,
            forall|x: int, y: int|
                #![trigger final(self).buf.spec_get(x, y)]
                final(self).buf.spec_get(x, y) == if spec_in_canvas(
                    old(self).buf.width,
                    old(self).buf.height,
                    x,
                    y,
                ) {
                    color
                } else {
                    old(self).buf.spec_get(x, y)
                },
    {
        self.background = color;
        self.buf.fill(color);
    }

    /// Grows the canvas to at least `width` columns: existing pixels
    /// keep their colors and new canvas pixels take the background. A
    /// width the canvas already has changes nothing.
    pub fn resize(&mut self, width: u32)
        requires
            old(self).spec_wf(),
            width <= i32::MAX,
            width * old(self).buf.height * 4 <= usize::MAX,
        ensures
            final(self).spec_wf(),
            final(self).background == old(self).background,
            final(self).buf.height == old(self).buf.height,
            final(self).buf.width == if width > old(self).buf.width {
                width
            } else {
                old(self).buf.width
            },
            forall|x: int, y: int|
                #![trigger final(self).buf.spec_get(x, y)]
                final(self).buf.spec_get(x, y) == if x < old(self).buf.width {
                    old(self).buf.spec_get(x, y)
                } else if spec_in_canvas(final(self).buf.width, final(self).buf.height, x, y) {
                    old(self).background
                } else {
                    Color { r: 0, g: 0, b: 0 }
                },
    {
        if width > self.buf.width {
            let h = self.buf.height;
            let old_w = self.buf.width;
            let mut buffer = Buffer::new(width, h);
            buffer.copy_from(Pos { x: 0, y: 0 }, &self.buf);
            buffer.draw_rect(
                Rect { pos: Pos { x: old_w as i32, y: 0 }, width: width - old_w, height: h },
                self.background,
            );
            self.buf = buffer;
            proof {
                assert forall|x: int, y: int|
                    self.buf.spec_get(x, y) == if x < old(self).buf.width {
                        old(self).buf.spec_get(x, y)
                    } else if spec_in_canvas(self.buf.width, self.buf.height, x, y) {
                        old(self).background
                    } else {
                        Color { r: 0, g: 0, b: 0 }
                    } by {
                    if x < old(self).buf.width && !spec_in_canvas(
                        old(self).buf.width,
                        old(self).buf.height,
                        x,
                        y,
                    ) {
                        assert(old(self).buf.spec_get(x, y) == (Color { r: 0, g: 0, b: 0 }));
                    }
                }
            }
        } else {
            proof {
                assert forall|x: int, y: int|
                    self.buf.spec_get(x, y) == if x < old(self).buf.width {
                        old(self).buf.spec_get(x, y)
                    } else if spec_in_canvas(self.buf.width, self.buf.height, x, y) {
                        old(self).background
                    } else {
                        Color { r: 0, g: 0, b: 0 }
                    } by {
                    if !(x < old(self).buf.width) {
                        assert(!spec_in_canvas(self.buf.width, self.buf.height, x, y));
                    }
                }
            }
        }
    }

    /// Draws a rectangle, growing the canvas first so the rectangle's
    /// right edge fits. A rectangle entirely left of the canvas is
    /// dropped.
    pub fn draw_rect(&mut self, rect: Rect, color: Color)
        requires
            old(self).spec_wf(),
            rect.spec_wf(),
            rect.spec_right() * old(self).buf.height * 4 <= usize::MAX,
        ensures
            final(self).spec_wf(),
            final(self).background == old(self).background,
            final(self).buf.height == old(self).buf.height,
            rect.spec_right() < 0 ==> *final(self) == *old(self),
            rect.spec_right() >= 0 ==> final(self).buf.width == if rect.spec_right() > old(
                self,
            ).buf.width {
                rect.spec_right() as u32
            } else {
                old(self).buf.width
            },
            rect.spec_right() >= 0 ==> forall|x: int, y: int|
                #![trigger final(self).buf.spec_get(x, y)]
                final(self).buf.spec_get(x, y) == if spec_in_canvas(
                    final(self).buf.width,
                    final(self).buf.height,
                    x,
                    y,
                ) && rect.spec_left() <= x < rect.spec_right() && rect.spec_top() <= y
                    < rect.spec_bottom() {
                    color
                } else if x < old(self).buf.width {
                    old(self).buf.spec_get(x, y)
                } else if spec_in_canvas(final(self).buf.width, final(self).buf.height, x, y) {
                    old(self).background
                } else {
                    Color { r: 0, g: 0, b: 0 }
                },
    {
        if rect.right() < 0 {
            return ;
        }
        self.resize(rect.right() as u32);
        self.buf.draw_rect(rect, color);
    }
}

} // verus!
