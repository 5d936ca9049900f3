//! The output pixel grid, addressed by the centered canvas coordinate
//! convention: `x` runs over `[-w/2, w/2)` left to right and `y` over
//! `[-h/2, h/2)` bottom to top; the grid itself is stored row-major with
//! row 0 at the top.

use vstd::prelude::*;
use crate::color::Color;

verus! {

#[derive(Debug, Clone)]
pub struct Canvas {
    pub width: u32,
    pub height: u32,
    pub pixels: Vec<Color>,
}

/// The grid's row-major index of the centered coordinate `(x, y)`.
pub open spec fn spec_pixel_index(w: int, h: int, x: int, y: int) -> int {
    (h / 2 - y - 1) * w + (w / 2 + x)
}

/// The centered coordinate `(x, y)` maps into the grid.
pub open spec fn spec_in_canvas(w: int, h: int, x: int, y: int) -> bool {
    0 <= w / 2 + x < w && 0 <= h / 2 - y - 1 < h
}

impl Canvas {
    pub open spec fn wf(self) -> bool {
        self.pixels.len() == self.width * self.height && self.width <= 0x7fffffff
            && self.height <= 0x7fffffff
    }

    /// A grid of the given size with every pixel black.
    pub fn new(x: u32, y: u32) -> (c: Canvas)
        requires
            x * y <= usize::MAX,
            x <= 0x7fffffff,
            y <= 0x7fffffff,
        ensures
            c.wf(),
            c.width == x,
            c.height == y,
            forall|i: int|
                0 <= i < c.pixels.len() ==> c.pixels[i] == (Color { r: 0, g: 0, b: 0 }),
    {
        let n: usize = (x as usize) * (y as usize);
        let mut pixels: Vec<Color> = Vec::new();
        let mut i: usize = 0;
        while i < n
            invariant
                i <= n,
                pixels.len() == i,
                forall|j: int| 0 <= j < i ==> pixels[j] == (Color { r: 0, g: 0, b: 0 }),
            decreases n - i,
        {
            pixels.push(Color { r: 0, g: 0, b: 0 });
            i = i + 1;
        }
        Canvas { width: x, height: y, pixels }
    }

    pub fn width(&self) -> (w: u32)
        ensures
            w == self.width,
    {
        self.width
    }

    pub fn height(&self) -> (h: u32)
        ensures
            h == self.height,
    {
        self.height
    }

    pub fn max_x(&self) -> (r: i32)
        requires
            self.wf(),
        ensures
            r as int == self.width as int / 2,
    {
        (self.width / 2) as i32
    }

    pub fn min_x(&self) -> (r: i32)
        requires
            self.wf(),
        ensures
            r as int == -(self.width as int / 2),
    {
        -((self.width / 2) as i32)
    }

    pub fn max_y(&self) -> (r: i32)
        requires
            self.wf(),
        ensures
            r as int == self.height as int / 2,
    {
        (self.height / 2) as i32
    }

    pub fn min_y(&self) -> (r: i32)
        requires
            self.wf(),
        ensures
            r as int == -(self.height as int / 2),
    {
        -((self.height / 2) as i32)
    }

    /// Write one pixel; the coordinate must map into the grid (the same
    /// inputs on which the grid accepts a write at all).
    pub fn put_pixel(&mut self, x: i32, y: i32, color: Color)
        requires
            old(self).wf(),
            spec_in_canvas(old(self).width as int, old(self).height as int, x as int, y as int),
        ensures
            final(self).wf(),
            final(self).width == old(self).width,
            final(self).height == old(self).height,
            final(self).pixels@ == old(self).pixels@.update(
                spec_pixel_index(
                    old(self).width as int,
                    old(self).height as int,
                    x as int,
                    y as int,
                ),
                color,
            ),
    {
        let w = self.width;
        let h = self.height;
        let nx: i64 = (w / 2) as i64 + x as i64;
        let ny: i64 = (h / 2) as i64 - y as i64 - 1;
        proof {
            assert(ny * w + nx < h * w) by (nonlinear_arith)
                requires
                    0 <= ny,
                    ny < h as int,
                    0 <= nx < w as int,
            ;
            assert(0 <= ny * w) by (nonlinear_arith)
                requires
                    0 <= ny,
                    0 <= w as int,
            ;
        }
        let idx: usize = (ny as usize) * (w as usize) + (nx as usize);
        self.pixels.set(idx, color);
    }

    /// Read one pixel at a centered coordinate.
    pub fn get_pixel(&self, x: i32, y: i32) -> (c: Color)
        requires
            self.wf(),
            spec_in_canvas(self.width as int, self.height as int, x as int, y as int),
        ensures
            c == self.pixels@[spec_pixel_index(
                self.width as int,
                self.height as int,
                x as int,
                y as int,
            )],
    {
        let w = self.width;
        let h = self.height;
        let nx: i64 = (w / 2) as i64 + x as i64;
        let ny: i64 = (h / 2) as i64 - y as i64 - 1;
        proof {
            assert(ny * w + nx < h * w) by (nonlinear_arith)
                requires
                    0 <= ny,
                    ny < h as int,
                    0 <= nx < w as int,
            ;
            assert(0 <= ny * w) by (nonlinear_arith)
                requires
                    0 <= ny,
                    0 <= w as int,
            ;
        }
        let idx: usize = (ny as usize) * (w as usize) + (nx as usize);
        self.pixels[idx]
    }
}

} // verus!
