use vstd::prelude::*;

use crate::image::{lemma_len_fits, lemma_site_in_bounds, lemma_site_injective, site};

verus! {

/// An 8-bit RGB colour.
#[derive(Copy, Clone, Debug, PartialEq, Eq, Structural)]
pub struct Color {
    pub r: u8,
    pub g: u8,
    pub b: u8,
}

impl Color {
    pub fn new(r: u8, g: u8, b: u8) -> (c: Self)
        ensures
            c.r == r && c.g == g && c.b == b,
    {
        Color { r, g, b }
    }

    /// The colour packed as `0RGB`, one byte each, most significant first.
    pub open spec fn packed(self) -> u32 {
        (self.r as int * 65536 + self.g as int * 256 + self.b as int) as u32
    }

    /// The colour packed as `0RGB`, one byte each, most significant first.
    pub fn u32(&self) -> (v: u32)
        ensures
            v == self.packed(),
            v as int == self.r as int * 65536 + self.g as int * 256 + self.b as int,
    {
        (self.r as u32) * 65536 + (self.g as u32) * 256 + self.b as u32
    }
}

/// A frame of packed `0RGB` pixels, row-major.
pub struct Buffer {
    pub data: Vec<u32>,
    pub width: usize,
    pub height: usize,
}

impl Buffer {
    /// One pixel per position.
    pub open spec fn wf(&self) -> bool {
        self.data@.len() == self.width * self.height
    }

    /// The pixel at `(x, y)`.
    pub open spec fn pixel(&self, x: int, y: int) -> u32 {
        self.data@[site(self.width as int, x, y)]
    }

    /// A black frame of the given size.
    pub fn new(width: usize, height: usize) -> (r: Self)
        requires
            width * height <= usize::MAX,
        ensures
            r.wf(),
            r.width == width,
            r.height == height,
            forall|i: int| 0 <= i < r.data@.len() ==> #[trigger] r.data@[i] == 0,
    {
        let mut data: Vec<u32> = Vec::new();
        let n = width * height;
        while data.len() < n
            invariant
                data@.len() <= n,
                forall|i: int| 0 <= i < data@.len() ==> #[trigger] data@[i] == 0,
            decreases n - data@.len(),
        {
            data.push(0);
        }
        Buffer { data, width, height }
    }

    /// Turns every pixel black.
    pub fn clear(&mut self)
        ensures
            final(self).width == old(self).width,
            final(self).height == old(self).height,
            final(self).data@.len() == old(self).data@.len(),
            forall|i: int| 0 <= i < final(self).data@.len() ==> #[trigger] final(self).data@[i] == 0,
    {
        let mut i: usize = 0;
        while i < self.data.len()
            invariant
                self.width == old(self).width,
                self.height == old(self).height,
                self.data@.len() == old(self).data@.len(),
                i <= self.data@.len(),
                forall|j: int| 0 <= j < i ==> #[trigger] self.data@[j] == 0,
            decreases self.data@.len() - i,
        {
            self.data.set(i, 0);
            i = i + 1;
        }
    }

    /// Changes the size. The buffer keeps as many of its first pixels as fit
    /// and is padded with black.
    pub fn resize(&mut self, width: usize, height: usize)
        requires
            width * height <= usize::MAX,
        ensures
            final(self).wf(),
            final(self).width == width,
            final(self).height == height,
            forall|i: int|
                0 <= i < final(self).data@.len() ==> #[trigger] final(self).data@[i] == if i
                    < old(self).data@.len() {
                    old(self).data@[i]
                } else {
                    0
                },
    {
        let n = width * height;
        self.width = width;
        self.height = height;
        self.data.truncate(n);
        while self.data.len() < n
            invariant
                self.width == width,
                self.height == height,
                n == width * height,
                self.data@.len() <= n,
                self.data@.len() < n ==> self.data@.len() >= old(self).data@.len(),
                forall|i: int|
                    0 <= i < self.data@.len() ==> #[trigger] self.data@[i] == if i < old(
                        self,
                    ).data@.len() {
                        old(self).data@[i]
                    } else {
                        0
                    },
            decreases n - self.data@.len(),
        {
            self.data.push(0);
        }
    }

    /// Sets the pixel at `(x, y)` to `c`; a position outside the frame is
    /// ignored.
    pub fn set(&mut self, x: usize, y: usize, c: Color)
        requires
            old(self).wf(),
        ensures
            final(self).wf(),
            final(self).width == old(self).width,
            final(self).height == old(self).height,
            forall|px: int, py: int|
                0 <= px < final(self).width && 0 <= py < final(self).height
                    ==> #[trigger] final(self).pixel(px, py) == if px == x && py == y {
                    c.packed()
                } else {
                    old(self).pixel(px, py)
                },
    {
        if y >= self.height || x >= self.width {
            return;
        }
        self.set_unchecked(x, y, c)
    }

    /// Sets the pixel at `(x, y)`, which must lie inside the frame, to `c`.
    pub fn set_unchecked(&mut self, x: usize, y: usize, c: Color)
        requires
            old(self).wf(),
            x < old(self).width,
            y < old(self).height,
        ensures
            final(self).wf(),
            final(self).width == old(self).width,
            final(self).height == old(self).height,
            forall|px: int, py: int|
                0 <= px < final(self).width && 0 <= py < final(self).height
                    ==> #[trigger] final(self).pixel(px, py) == if px == x && py == y {
                    c.packed()
                } else {
                    old(self).pixel(px, py)
                },
    {
        proof {
            lemma_site_in_bounds(self.width as int, self.height as int, x as int, y as int);
        }
        proof {
            lemma_len_fits(&self.data);
        }
        let v = c.u32();
        self.data.set(y * self.width + x, v);
        proof {
            assert forall|px: int, py: int|
                0 <= px < self.width && 0 <= py < self.height implies #[trigger] self.pixel(px, py)
                    == if px == x && py == y {
                    c.packed()
                } else {
                    old(self).pixel(px, py)
                } by {
                lemma_site_in_bounds(self.width as int, self.height as int, px, py);
                if site(self.width as int, px, py) == site(self.width as int, x as int, y as int) {
                    lemma_site_injective(self.width as int, px, py, x as int, y as int);
                }
            }
        }
    }

    /// Fills the rectangle of the given size whose top-left corner is
    /// `(x, y)` with `c`, as far as it lies inside the frame.
    pub fn rect(&mut self, x: usize, y: usize, width: usize, height: usize, c: Color)
        requires
            old(self).wf(),
            x + width <= usize::MAX,
            y + height <= usize::MAX,
        ensures
            final(self).wf(),
            final(self).width == old(self).width,
            final(self).height == old(self).height,
            forall|px: int, py: int|
                0 <= px < final(self).width && 0 <= py < final(self).height
                    ==> #[trigger] final(self).pixel(px, py) == if x <= px < x + width && y <= py
                    < y + height {
                    c.packed()
                } else {
                    old(self).pixel(px, py)
                },
    {
        let ymax = if y + height < self.height {
            y + height
        } else {
            self.height
        };
        let mut py = y;
        while py < ymax
            invariant
                self.wf(),
                self.width == old(self).width,
                self.height == old(self).height,
                ymax <= self.height,
                ymax <= y + height,
                y <= py,
                x + width <= usize::MAX,
                py >= ymax ==> (py == y || py == ymax),
                forall|qx: int, qy: int|
                    0 <= qx < self.width && 0 <= qy < self.height ==> #[trigger] self.pixel(qx, qy)
                        == if x <= qx < x + width && y <= qy < py {
                        c.packed()
                    } else {
                        old(self).pixel(qx, qy)
                    },
            decreases ymax - py,
        {
            self.hori(py, x, x + width, c);
            py = py + 1;
        }
    }

    /// Draws a vertical line in column `x` over the rows `[y_start, y_end)`,
    /// or `[y_end, y_start)` if the end comes first, as far as the frame
    /// reaches.
    pub fn vert(&mut self, x: usize, y_start: usize, y_end: usize, c: Color)
        requires
            old(self).wf(),
            x < old(self).width,
        ensures
            final(self).wf(),
            final(self).width == old(self).width,
            final(self).height == old(self).height,
            forall|px: int, py: int|
                0 <= px < final(self).width && 0 <= py < final(self).height
                    ==> #[trigger] final(self).pixel(px, py) == if px == x && (y_start <= py < y_end
                    || y_end <= py < y_start) {
                    c.packed()
                } else {
                    old(self).pixel(px, py)
                },
    {
        let ymin = if y_start < y_end {
            y_start
        } else {
            y_end
        };
        let top = if y_start < y_end {
            y_end
        } else {
            y_start
        };
        let ymax = if top < self.height {
            top
        } else {
            self.height
        };
        let mut y = ymin;
        while y < ymax
            invariant
                self.wf(),
                self.width == old(self).width,
                self.height == old(self).height,
                x < self.width,
                ymax <= self.height,
                ymin <= y,
                y >= ymax ==> (y == ymin || y == ymax),
                ymin == (if y_start < y_end { y_start } else { y_end }),
                ymax == (if top < self.height { top } else { self.height }),
                top == (if y_start < y_end { y_end } else { y_start }),
                forall|px: int, py: int|
                    0 <= px < self.width && 0 <= py < self.height ==> #[trigger] self.pixel(px, py)
                        == if px == x && ymin <= py < y {
                        c.packed()
                    } else {
                        old(self).pixel(px, py)
                    },
            decreases ymax - y,
        {
            self.set_unchecked(x, y, c);
            y = y + 1;
        }
    }

    /// Draws a horizontal line in row `y` over the columns `[x_start, x_end)`,
    /// or `[x_end, x_start)` if the end comes first, as far as the frame
    /// reaches.
    pub fn hori(&mut self, y: usize, x_start: usize, x_end: usize, c: Color)
        requires
            old(self).wf(),
            y < old(self).height,
        ensures
            final(self).wf(),
            final(self).width == old(self).width,
            final(self).height == old(self).height,
            forall|px: int, py: int|
                0 <= px < final(self).width && 0 <= py < final(self).height
                    ==> #[trigger] final(self).pixel(px, py) == if py == y && (x_start <= px < x_end
                    || x_end <= px < x_start) {
                    c.packed()
                } else {
                    old(self).pixel(px, py)
                },
    {
        let xmin = if x_start < x_end {
            x_start
        } else {
            x_end
        };
        let right = if x_start < x_end {
            x_end
        } else {
            x_start
        };
        let xmax = if right < self.width {
            right
        } else {
            self.width
        };
        let mut x = xmin;
        while x < xmax
            invariant
                self.wf(),
                self.width == old(self).width,
                self.height == old(self).height,
                y < self.height,
                xmax <= self.width,
                xmin <= x,
                x >= xmax ==> (x == xmin || x == xmax),
                xmin == (if x_start < x_end { x_start } else { x_end }),
                xmax == (if right < self.width { right } else { self.width }),
                right == (if x_start < x_end { x_end } else { x_start }),
                forall|px: int, py: int|
                    0 <= px < self.width && 0 <= py < self.height ==> #[trigger] self.pixel(px, py)
                        == if py == y && xmin <= px < x {
                        c.packed()
                    } else {
                        old(self).pixel(px, py)
                    },
            decreases xmax - x,
        {
            self.set_unchecked(x, y, c);
            x = x + 1;
        }
    }
}

} // verus!
