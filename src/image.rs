use vstd::prelude::*;
use crate::canvas::{at, lemma_index, lemma_index_unique, on_frame, rgb, Canvas};
use crate::rect::Rect;

verus! {

/// A decoded raster of packed `0xRRGGBB` pixels, row by row.
pub struct Image {
    width: u32,
    height: u32,
    pixels: Vec<u32>,
}

/// A pixel after `img` is copied with its corner at `(x, y)`, kept inside
/// `clip`, onto a `fw` × `fh` canvas clipped to `fclip`.
pub open spec fn blit_px(
    img: Image,
    x: int,
    y: int,
    clip: Option<Rect>,
    fw: int,
    fh: int,
    fclip: Option<Rect>,
    px: int,
    py: int,
    v: u32,
) -> u32 {
    if img.covers(x, y, px, py) && in_clip(clip, px, py) && on_frame(fw, fh, fclip, px, py) {
        img.source(x, y, px, py)
    } else {
        v
    }
}

/// Two images of the same size and pixels.
pub open spec fn same_image(a: Image, b: Image) -> bool {
    a.width_spec() == b.width_spec() && a.height_spec() == b.height_spec() && a.pixels_spec()
        == b.pixels_spec()
}

/// The point lies in `clip`, or there is no clip.
pub open spec fn in_clip(clip: Option<Rect>, px: int, py: int) -> bool {
    match clip {
        Some(c) => c.contains_spec(px, py),
        None => true,
    }
}

impl Image {
    /// Placed with its top-left corner at `(x, y)`, the image covers the point.
    pub open spec fn covers(&self, x: int, y: int, px: int, py: int) -> bool {
        &&& x <= px < x + self.width_spec()
        &&& y <= py < y + self.height_spec()
    }

    /// The image's pixel that lands on `(px, py)` when placed at `(x, y)`.
    pub open spec fn source(&self, x: int, y: int, px: int, py: int) -> u32 {
        at(self.pixels_spec(), self.width_spec() as int, px - x, py - y)
    }

    /// The raster holds exactly `width * height` pixels.
    pub closed spec fn wf(&self) -> bool {
        self.pixels@.len() == self.width as int * self.height as int
    }

    pub closed spec fn width_spec(&self) -> u32 {
        self.width
    }

    pub closed spec fn height_spec(&self) -> u32 {
        self.height
    }

    pub closed spec fn pixels_spec(&self) -> Seq<u32> {
        self.pixels@
    }

    /// Builds an image from RGB bytes, three per pixel, row by row; `None`
    /// unless there are exactly `3 * width * height` bytes.
    pub fn from_rgb(width: u32, height: u32, data: &[u8]) -> (r: Option<Self>)
        ensures
            match r {
                Some(img) => {
                    &&& data@.len() == 3 * width as int * height as int
                    &&& img.wf()
                    &&& img.width_spec() == width
                    &&& img.height_spec() == height
                    &&& forall|i: int|
                        0 <= i < width as int * height as int ==> #[trigger] img.pixels_spec()[i]
                            == rgb(data@[3 * i], data@[3 * i + 1], data@[3 * i + 2])
                },
                None => data@.len() != 3 * width as int * height as int,
            },
    {
        proof {
            assert((width as int) * (height as int) <= u32::MAX as int * u32::MAX as int)
                by (nonlinear_arith);
            assert(3 * (width as int) * (height as int) == 3 * ((width as int) * (height as int)))
                by (nonlinear_arith);
            assert(data@.len() == data.len());
        }
        let n = width as u64 * height as u64;
        if n > (usize::MAX / 3) as u64 {
            return None;
        }
        let n = n as usize;
        if data.len() != 3 * n {
            return None;
        }
        let mut pixels: Vec<u32> = Vec::new();
        let mut i: usize = 0;
        while i < n
            invariant
                0 <= i <= n,
                n <= usize::MAX / 3,
                n == width as int * height as int,
                data@.len() == 3 * n,
                pixels@.len() == i,
                forall|j: int| 0 <= j < i ==> #[trigger] pixels@[j] == rgb(
                    data@[3 * j],
                    data@[3 * j + 1],
                    data@[3 * j + 2],
                ),
            decreases n - i,
        {
            let r = data[3 * i] as u32;
            let g = data[3 * i + 1] as u32;
            let b = data[3 * i + 2] as u32;
            pixels.push(r * 65536 + g * 256 + b);
            i += 1;
        }
        Some(Image { width, height, pixels })
    }

    pub fn width(&self) -> (r: u32)
        ensures
            r == self.width_spec(),
    {
        self.width
    }

    pub fn height(&self) -> (r: u32)
        ensures
            r == self.height_spec(),
    {
        self.height
    }

    /// A copy of the image.
    pub fn duplicate(&self) -> (r: Image)
        ensures
            r.width_spec() == self.width_spec(),
            r.height_spec() == self.height_spec(),
            r.pixels_spec() == self.pixels_spec(),
            self.wf() ==> r.wf(),
    {
        Image { width: self.width, height: self.height, pixels: self.pixels.clone() }
    }

    /// Copies the image onto the canvas with its top-left corner at `(x, y)`,
    /// keeping only the pixels inside `clip` (when given) and writable on the canvas.
    pub fn blit(&self, canvas: &mut Canvas, x: i32, y: i32, clip: Option<Rect>)
        requires
            self.wf(),
            old(canvas).wf(),
        ensures
            old(canvas).same_frame(&*final(canvas)),
            forall|px: int, py: int|
                0 <= px < old(canvas).width_spec() && 0 <= py < old(canvas).height_spec()
                    ==> #[trigger] at(final(canvas).pixels(), old(canvas).width_spec() as int, px, py)
                    == if self.covers(x as int, y as int, px, py) && in_clip(clip, px, py) && old(
                    canvas,
                ).writable(px, py) {
                    self.source(x as int, y as int, px, py)
                } else {
                    at(old(canvas).pixels(), old(canvas).width_spec() as int, px, py)
                },
    {
        let ghost cw = canvas.width_spec() as int;
        let ghost ch = canvas.height_spec() as int;
        let ghost start = canvas.pixels();
        let ghost w = self.width as int;
        let mut iy: u32 = 0;
        while iy < self.height
            invariant
                self.wf(),
                w == self.width as int,
                cw == old(canvas).width_spec() as int,
                ch == old(canvas).height_spec() as int,
                start == old(canvas).pixels(),
                iy <= self.height,
                old(canvas).same_frame(&*canvas),
                forall|qx: int, qy: int|
                    0 <= qx < cw && 0 <= qy < ch ==> #[trigger] at(canvas.pixels(), cw, qx, qy)
                        == if self.covers(x as int, y as int, qx, qy) && qy - y < iy && in_clip(
                        clip,
                        qx,
                        qy,
                    ) && old(canvas).writable(qx, qy) {
                        self.source(x as int, y as int, qx, qy)
                    } else {
                        at(start, cw, qx, qy)
                    },
            decreases self.height - iy,
        {
            let mut ix: u32 = 0;
            while ix < self.width
                invariant
                    self.wf(),
                    w == self.width as int,
                    cw == old(canvas).width_spec() as int,
                    ch == old(canvas).height_spec() as int,
                    start == old(canvas).pixels(),
                    iy < self.height,
                    ix <= self.width,
                    old(canvas).same_frame(&*canvas),
                    forall|qx: int, qy: int|
                        0 <= qx < cw && 0 <= qy < ch ==> #[trigger] at(canvas.pixels(), cw, qx, qy)
                            == if self.covers(x as int, y as int, qx, qy) && (qy - y < iy || (qy
                            - y == iy && qx - x < ix)) && in_clip(clip, qx, qy) && old(
                            canvas,
                        ).writable(qx, qy) {
                            self.source(x as int, y as int, qx, qy)
                        } else {
                            at(start, cw, qx, qy)
                        },
                decreases self.width - ix,
            {
                let px = x as i64 + ix as i64;
                let py = y as i64 + iy as i64;
                let inside = match clip {
                    Some(c) => px >= c.x as i64 && px < c.x as i64 + c.width as i64 && py
                        >= c.y as i64 && py < c.y as i64 + c.height as i64,
                    None => true,
                };
                let ghost before = canvas.pixels();
                proof {
                    canvas.lemma_len();
                }
                if inside && 0 <= px && px <= u32::MAX as i64 && 0 <= py && py <= u32::MAX as i64 {
                    proof {
                        lemma_index(w, self.height as int, ix as int, iy as int);
                        assert(self.pixels@.len() == self.pixels.len());
                    }
                    let color = self.pixels[iy as usize * self.width as usize + ix as usize];
                    canvas.set_pixel(px as u32, py as u32, color);
                    proof {
                        assert(canvas.pixels() == if old(canvas).writable(px as int, py as int) {
                            before.update(py as int * cw + px as int, color)
                        } else {
                            before
                        });
                        assert forall|qx: int, qy: int|
                            0 <= qx < cw && 0 <= qy < ch implies #[trigger] at(canvas.pixels(), cw, qx, qy)
                                == if self.covers(x as int, y as int, qx, qy) && (qy - y < iy || (qy
                                - y == iy && qx - x < ix + 1)) && in_clip(clip, qx, qy) && old(
                                canvas,
                            ).writable(qx, qy) {
                                self.source(x as int, y as int, qx, qy)
                            } else {
                                at(start, cw, qx, qy)
                            } by {
                            lemma_index(cw, ch, qx, qy);
                            assert(self.source(x as int, y as int, px as int, py as int) == color);
                            if old(canvas).writable(px as int, py as int) {
                                lemma_index(cw, ch, px as int, py as int);
                                if qy * cw + qx == (py as int) * cw + (px as int) {
                                    lemma_index_unique(cw, qx, qy, px as int, py as int);
                                }
                            }
                            assert(at(before, cw, qx, qy) == before[qy * cw + qx]);
                        }
                    }
                } else {
                    proof {
                        assert forall|qx: int, qy: int|
                            0 <= qx < cw && 0 <= qy < ch implies #[trigger] at(canvas.pixels(), cw, qx, qy)
                                == if self.covers(x as int, y as int, qx, qy) && (qy - y < iy || (qy
                                - y == iy && qx - x < ix + 1)) && in_clip(clip, qx, qy) && old(
                                canvas,
                            ).writable(qx, qy) {
                                self.source(x as int, y as int, qx, qy)
                            } else {
                                at(start, cw, qx, qy)
                            } by {
                            if qx == px && qy == py {
                                assert(!(in_clip(clip, qx, qy) && old(canvas).writable(qx, qy)));
                            }
                        }
                    }
                }
                ix += 1;
            }
            iy += 1;
        }
    }
}

} // verus!
