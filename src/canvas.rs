use vstd::prelude::*;
use crate::rect::Rect;

verus! {

/// The pixel at column `x`, row `y` of a row-major buffer `w` pixels wide.
pub open spec fn at(buf: Seq<u32>, w: int, x: int, y: int) -> u32 {
    buf[y * w + x]
}

/// Whether the clip rectangle, when there is one, keeps the point out.
pub open spec fn clipped_by(clip: Option<Rect>, x: int, y: int) -> bool {
    match clip {
        Some(c) => !c.contains_spec(x, y),
        None => false,
    }
}

/// The point lies on a `fw` × `fh` canvas and inside its clip, if any.
pub open spec fn on_frame(fw: int, fh: int, clip: Option<Rect>, x: int, y: int) -> bool {
    &&& 0 <= x < fw
    &&& 0 <= y < fh
    &&& !clipped_by(clip, x, y)
}

/// Every pixel of `after` is `f` of its column, its row and its value in
/// `before`.
pub open spec fn painted(before: Canvas, after: Canvas, f: spec_fn(int, int, u32) -> u32) -> bool {
    forall|px: int, py: int|
        0 <= px < before.width_spec() && 0 <= py < before.height_spec() ==> #[trigger] at(
            after.pixels(),
            before.width_spec() as int,
            px,
            py,
        ) == f(px, py, at(before.pixels(), before.width_spec() as int, px, py))
}

/// A pixel after `bounds` is filled with `color` on a `fw` × `fh` canvas clipped to `clip`.
pub open spec fn fill_px(
    bounds: Rect,
    color: u32,
    fw: int,
    fh: int,
    clip: Option<Rect>,
    px: int,
    py: int,
    v: u32,
) -> u32 {
    if bounds.contains_spec(px, py) && on_frame(fw, fh, clip, px, py) {
        color
    } else {
        v
    }
}

pub(crate) proof fn lemma_index(w: int, h: int, x: int, y: int)
    requires
        0 <= x < w,
        0 <= y < h,
    ensures
        0 <= y * w + x < w * h,
{
    assert(0 <= y * w) by (nonlinear_arith)
        requires
            0 <= y,
            0 <= w,
    ;
    assert(y * w + x < w * h) by (nonlinear_arith)
        requires
            0 <= x < w,
            0 <= y < h,
    ;
}

pub(crate) proof fn lemma_index_unique(w: int, x: int, y: int, u: int, v: int)
    requires
        0 <= x < w,
        0 <= u < w,
        0 <= y,
        0 <= v,
        y * w + x == v * w + u,
    ensures
        x == u && y == v,
{
    if y < v {
        assert(y * w + x < v * w + u) by (nonlinear_arith)
            requires
                0 <= x < w,
                0 <= u,
                y < v,
        ;
    } else if v < y {
        assert(v * w + u < y * w + x) by (nonlinear_arith)
            requires
                0 <= u < w,
                0 <= x,
                v < y,
        ;
    }
}

/// A clipped drawing surface over a row-major buffer of packed `0xRRGGBB` pixels.
pub struct Canvas {
    buffer: Vec<u32>,
    width: u32,
    height: u32,
    clip_rect: Option<Rect>,
}

impl Canvas {
    /// The buffer holds exactly `width * height` pixels.
    pub closed spec fn wf(&self) -> bool {
        self.buffer@.len() == self.width as int * self.height as int
    }

    /// A well-formed canvas holds one pixel per point.
    pub proof fn lemma_len(&self)
        requires
            self.wf(),
        ensures
            self.pixels().len() == self.width_spec() as int * self.height_spec() as int,
    {
    }

    pub closed spec fn pixels(&self) -> Seq<u32> {
        self.buffer@
    }

    pub closed spec fn width_spec(&self) -> u32 {
        self.width
    }

    pub closed spec fn height_spec(&self) -> u32 {
        self.height
    }

    pub closed spec fn clip_spec(&self) -> Option<Rect> {
        self.clip_rect
    }

    /// The point is on the canvas and not clipped away.
    pub open spec fn writable(&self, x: int, y: int) -> bool {
        on_frame(self.width_spec() as int, self.height_spec() as int, self.clip_spec(), x, y)
    }

    /// The canvas keeps its size and clip; only pixels may change.
    pub open spec fn same_frame(&self, other: &Canvas) -> bool {
        &&& other.wf()
        &&& other.width_spec() == self.width_spec()
        &&& other.height_spec() == self.height_spec()
        &&& other.clip_spec() == self.clip_spec()
    }

    pub fn new(buffer: Vec<u32>, width: u32, height: u32) -> (r: Self)
        requires
            buffer@.len() == width as int * height as int,
        ensures
            r.wf(),
            r.pixels() == buffer@,
            r.width_spec() == width,
            r.height_spec() == height,
            r.clip_spec() is None,
    {
        Canvas { buffer, width, height, clip_rect: None }
    }

    /// A canvas of the given size with every pixel set to `color`.
    pub fn filled(width: u32, height: u32, color: u32) -> (r: Self)
        requires
            width as int * height as int <= usize::MAX,
        ensures
            r.wf(),
            r.width_spec() == width,
            r.height_spec() == height,
            r.clip_spec() is None,
            forall|i: int| 0 <= i < r.pixels().len() ==> r.pixels()[i] == color,
    {
        let n = width as usize * height as usize;
        let mut buffer: Vec<u32> = Vec::new();
        let mut i: usize = 0;
        while i < n
            invariant
                0 <= i <= n,
                buffer@.len() == i,
                forall|j: int| 0 <= j < i ==> buffer@[j] == color,
            decreases n - i,
        {
            buffer.push(color);
            i += 1;
        }
        Canvas { buffer, width, height, clip_rect: None }
    }

    /// The pixels, row by row.
    pub fn buffer(&self) -> (r: &[u32])
        ensures
            r@ == self.pixels(),
    {
        self.buffer.as_slice()
    }

    pub fn width(&self) -> (r: u32)
        ensures
            r == self.width_spec(),
    {
        self.width
    }

    pub fn height(&self) -> (r: u32)
        ensures
            r == self.height_spec(),
    {
        self.height
    }

    /// Restricts drawing to `rect`, or lifts the restriction.
    pub fn set_clip(&mut self, rect: Option<Rect>)
        ensures
            final(self).clip_spec() == rect,
            final(self).pixels() == old(self).pixels(),
            final(self).width_spec() == old(self).width_spec(),
            final(self).height_spec() == old(self).height_spec(),
            old(self).wf() ==> final(self).wf(),
    {
        self.clip_rect = rect;
    }

    pub fn clip_rect(&self) -> (r: Option<&Rect>)
        ensures
            match r {
                Some(c) => self.clip_spec() == Some(*c),
                None => self.clip_spec() is None,
            },
    {
        self.clip_rect.as_ref()
    }

    fn is_clipped(&self, x: u32, y: u32) -> (r: bool)
        ensures
            r == clipped_by(self.clip_spec(), x as int, y as int),
    {
        match &self.clip_rect {
            Some(clip) => {
                let px = x as i64;
                let py = y as i64;
                let right = clip.x as i64 + clip.width as i64;
                let bottom = clip.y as i64 + clip.height as i64;
                px < clip.x as i64 || px >= right || py < clip.y as i64 || py >= bottom
            },
            None => false,
        }
    }

    /// Writes one pixel; points off the canvas or outside the clip are ignored.
    pub fn set_pixel(&mut self, x: u32, y: u32, color: u32)
        requires
            old(self).wf(),
        ensures
            old(self).same_frame(&*final(self)),
            final(self).pixels() == if old(self).writable(x as int, y as int) {
                old(self).pixels().update(y as int * old(self).width_spec() + x as int, color)
            } else {
                old(self).pixels()
            },
    {
        if x < self.width && y < self.height && !self.is_clipped(x, y) {
            proof {
                lemma_index(self.width as int, self.height as int, x as int, y as int);
                assert(self.buffer.len() == self.buffer@.len());
                assert(y as int * self.width as int <= y as int * self.width as int + x as int);
            }
            let index = y as usize * self.width as usize + x as usize;
            self.buffer.set(index, color);
        }
    }

    /// Writes one pixel given by its red, green and blue parts.
    pub fn set_pixel_rgb(&mut self, x: u32, y: u32, r: u8, g: u8, b: u8)
        requires
            old(self).wf(),
        ensures
            old(self).same_frame(&*final(self)),
            final(self).pixels() == if old(self).writable(x as int, y as int) {
                old(self).pixels().update(
                    y as int * old(self).width_spec() + x as int,
                    rgb(r, g, b),
                )
            } else {
                old(self).pixels()
            },
    {
        let color = r as u32 * 65536 + g as u32 * 256 + b as u32;
        self.set_pixel(x, y, color);
    }

    /// Sets every pixel of the canvas that the clip lets through to `color`;
    /// pixels outside the clip keep their value.
    pub fn clear(&mut self, color: u32)
        requires
            old(self).wf(),
        ensures
            old(self).same_frame(&*final(self)),
            forall|px: int, py: int|
                0 <= px < old(self).width_spec() && 0 <= py < old(self).height_spec() ==> #[trigger] at(
                    final(self).pixels(),
                    old(self).width_spec() as int,
                    px,
                    py,
                ) == if old(self).writable(px, py) {
                    color
                } else {
                    at(old(self).pixels(), old(self).width_spec() as int, px, py)
                },
    {
        let w = self.width;
        let h = self.height;
        self.fill_rect(0, 0, w, h, color);
    }

    /// Fills the part of `[x, x + width) × [y, y + height)` that lies on the
    /// canvas and inside the clip.
    pub fn fill_rect(&mut self, x: u32, y: u32, width: u32, height: u32, color: u32)
        requires
            old(self).wf(),
        ensures
            old(self).same_frame(&*final(self)),
            forall|px: int, py: int|
                0 <= px < old(self).width_spec() && 0 <= py < old(self).height_spec() ==> #[trigger] at(
                    final(self).pixels(),
                    old(self).width_spec() as int,
                    px,
                    py,
                ) == if x <= px < x + width && y <= py < y + height && old(self).writable(px, py) {
                    color
                } else {
                    at(old(self).pixels(), old(self).width_spec() as int, px, py)
                },
    {
        let w = self.width;
        let ghost wi = w as int;
        let ghost start = self.buffer@;
        let x_end: u32 = if x as u64 + width as u64 > w as u64 {
            w
        } else {
            x + width
        };
        let y_end: u32 = if y as u64 + height as u64 > self.height as u64 {
            self.height
        } else {
            y + height
        };
        if x >= x_end || y >= y_end {
            return;
        }
        let mut py = y;
        while py < y_end
            invariant
                wi == w as int,
                x < x_end,
                y <= py <= y_end,
                y_end <= self.height,
                x_end <= w,
                w == self.width,
                old(self).same_frame(&*self),
                forall|qx: int, qy: int|
                    0 <= qx < w && 0 <= qy < self.height ==> #[trigger] at(self.buffer@, wi, qx, qy)
                        == if x <= qx < x_end && y <= qy < py && old(self).writable(qx, qy) {
                        color
                    } else {
                        at(start, wi, qx, qy)
                    },
            decreases y_end - py,
        {
            let mut px = x;
            while px < x_end
                invariant
                    wi == w as int,
                    y <= py < y_end,
                    x <= px <= x_end,
                    y_end <= self.height,
                    x_end <= w,
                    w == self.width,
                    old(self).same_frame(&*self),
                    forall|qx: int, qy: int|
                        0 <= qx < w && 0 <= qy < self.height ==> #[trigger] at(self.buffer@, wi, qx, qy)
                            == if x <= qx < x_end && (y <= qy < py || (qy == py && qx < px))
                            && old(self).writable(qx, qy) {
                            color
                        } else {
                            at(start, wi, qx, qy)
                        },
                decreases x_end - px,
            {
                let ghost before = self.buffer@;
                self.set_pixel(px, py, color);
                proof {
                    assert forall|qx: int, qy: int|
                        0 <= qx < w && 0 <= qy < self.height implies #[trigger] at(self.buffer@, wi, qx, qy)
                            == if x <= qx < x_end && (y <= qy < py || (qy == py && qx < px + 1))
                            && old(self).writable(qx, qy) {
                            color
                        } else {
                            at(start, wi, qx, qy)
                        } by {
                        lemma_index(wi, self.height as int, qx, qy);
                        lemma_index(wi, self.height as int, px as int, py as int);
                        if qy * wi + qx == py * wi + px {
                            lemma_index_unique(wi, qx, qy, px as int, py as int);
                        }
                        assert(at(before, wi, qx, qy) == before[qy * wi + qx]);
                    }
                }
                px += 1;
            }
            py += 1;
        }
    }

    /// Hands back the pixels.
    pub fn into_buffer(self) -> (r: Vec<u32>)
        ensures
            r@ == self.pixels(),
    {
        self.buffer
    }
}

/// A packed `0xRRGGBB` color.
pub open spec fn rgb(r: u8, g: u8, b: u8) -> u32 {
    (r as int * 65536 + g as int * 256 + b as int) as u32
}

} // verus!
