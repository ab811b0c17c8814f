use vstd::prelude::*;
use vstd::string::StringExecFns;
use crate::canvas::{at, lemma_index, lemma_index_unique, painted, Canvas};
use crate::image::in_clip;
use crate::rect::Rect;
use crate::skin::types::{TextAlign, VerticalAlign};

verus! {

/// How text is painted.
#[derive(Debug, Clone, Copy, PartialEq, Eq, Structural)]
pub struct TextStyle {
    pub color: u32,
}

impl TextStyle {
    pub fn with_color(color: u32) -> (r: Self)
        ensures
            r.color == color,
    {
        TextStyle { color }
    }
}

/// Draws a caret: a vertical line `height` pixels tall from `(x, y)` down,
/// kept inside `clip` (when given) and the canvas and its clip.
pub fn draw_caret(canvas: &mut Canvas, x: i32, y: i32, height: u32, clip: Option<&Rect>, color: u32)
    requires
        old(canvas).wf(),
    ensures
        old(canvas).same_frame(&*final(canvas)),
        painted(
            *old(canvas),
            *final(canvas),
            |px: int, py: int, v: u32|
                if px == x && y <= py < y + height && in_clip(
                    match clip {
                        Some(c) => Some(*c),
                        None => None,
                    },
                    px,
                    py,
                ) && old(canvas).writable(px, py) {
                    color
                } else {
                    v
                },
        ),
{
    let ghost cw = canvas.width_spec() as int;
    let ghost ch = canvas.height_spec() as int;
    let ghost start = canvas.pixels();
    let ghost cl: Option<Rect> = match clip {
        Some(c) => Some(*c),
        None => None,
    };
    let mut row: u32 = 0;
    while row < height
        invariant
            old(canvas).same_frame(&*canvas),
            cw == old(canvas).width_spec() as int,
            ch == old(canvas).height_spec() as int,
            start == old(canvas).pixels(),
            cl == (match clip {
                Some(c) => Some(*c),
                None => None::<Rect>,
            }),
            row <= height,
            forall|qx: int, qy: int|
                0 <= qx < cw && 0 <= qy < ch ==> #[trigger] at(canvas.pixels(), cw, qx, qy) == if qx
                    == x && y <= qy < y + row && in_clip(cl, qx, qy) && old(canvas).writable(qx, qy) {
                    color
                } else {
                    at(start, cw, qx, qy)
                },
        decreases height - row,
    {
        let py = y as i64 + row as i64;
        let inside = match clip {
            Some(c) => x as i64 >= c.x as i64 && (x as i64) < c.x as i64 + c.width as i64 && py
                >= c.y as i64 && py < c.y as i64 + c.height as i64,
            None => true,
        };
        let ghost before = canvas.pixels();
        proof {
            canvas.lemma_len();
        }
        if inside && x >= 0 && py >= 0 && py <= u32::MAX as i64 {
            canvas.set_pixel(x as u32, py as u32, color);
            proof {
                assert forall|qx: int, qy: int| 0 <= qx < cw && 0 <= qy < ch implies #[trigger] at(
                    canvas.pixels(),
                    cw,
                    qx,
                    qy,
                ) == if qx == x && y <= qy < y + row + 1 && in_clip(cl, qx, qy) && old(
                    canvas,
                ).writable(qx, qy) {
                    color
                } else {
                    at(start, cw, qx, qy)
                } by {
                    lemma_index(cw, ch, qx, qy);
                    if old(canvas).writable(x as int, py as int) {
                        lemma_index(cw, ch, x as int, py as int);
                        if qy * cw + qx == (py as int) * cw + (x as int) {
                            lemma_index_unique(cw, qx, qy, x as int, py as int);
                        }
                    }
                    assert(at(before, cw, qx, qy) == before[qy * cw + qx]);
                }
            }
        } else {
            proof {
                assert forall|qx: int, qy: int| 0 <= qx < cw && 0 <= qy < ch implies #[trigger] at(
                    canvas.pixels(),
                    cw,
                    qx,
                    qy,
                ) == if qx == x && y <= qy < y + row + 1 && in_clip(cl, qx, qy) && old(
                    canvas,
                ).writable(qx, qy) {
                    color
                } else {
                    at(start, cw, qx, qy)
                } by {
                    if qx == x && qy == py {
                        assert(!(in_clip(cl, qx, qy) && old(canvas).writable(qx, qy)));
                    }
                }
            }
        }
        row += 1;
    }
}

/// Half of `d`, rounded towards zero.
pub open spec fn half(d: int) -> int {
    if d >= 0 {
        d / 2
    } else {
        -((-d) / 2)
    }
}

fn half_exec(d: i64) -> (r: i64)
    requires
        -0x1_0000_0000_0000 <= d <= 0x1_0000_0000_0000,
    ensures
        r == half(d as int),
{
    if d >= 0 {
        d / 2
    } else {
        -((-d) / 2)
    }
}

/// Where a line `extent` wide starts in a span of `room` from `start`: at
/// the start, centred (the slack halved, rounded towards zero), or at the end.
pub open spec fn aligned(start: int, room: int, extent: int, how: int) -> int {
    if how == 0 {
        start
    } else if how == 1 {
        start + half(room - extent)
    } else {
        start + room - extent
    }
}

/// The x at which text `text_width` wide starts in `[x, x + width)`.
pub fn text_x(align: TextAlign, x: i32, width: u32, text_width: u32) -> (r: i64)
    ensures
        r == aligned(
            x as int,
            width as int,
            text_width as int,
            match align {
                TextAlign::Left => 0int,
                TextAlign::Center => 1int,
                TextAlign::Right => 2int,
            },
        ),
{
    match align {
        TextAlign::Left => x as i64,
        TextAlign::Center => x as i64 + half_exec(width as i64 - text_width as i64),
        TextAlign::Right => x as i64 + width as i64 - text_width as i64,
    }
}

/// The y at which a line `line_height` tall starts in `[y, y + height)`.
pub fn text_y(align: VerticalAlign, y: i32, height: u32, line_height: u32) -> (r: i64)
    ensures
        r == aligned(
            y as int,
            height as int,
            line_height as int,
            match align {
                VerticalAlign::Top => 0int,
                VerticalAlign::Center => 1int,
                VerticalAlign::Bottom => 2int,
            },
        ),
{
    match align {
        VerticalAlign::Top => y as i64,
        VerticalAlign::Center => y as i64 + half_exec(height as i64 - line_height as i64),
        VerticalAlign::Bottom => y as i64 + height as i64 - line_height as i64,
    }
}

/// How the window is opened.
#[derive(Debug)]
pub struct RunConfig {
    pub resizable: bool,
    pub title: String,
}

impl RunConfig {
    /// A fixed-size window titled "Crix".
    pub fn new() -> (r: Self)
        ensures
            !r.resizable,
            r.title@ == "Crix"@,
    {
        proof {
            reveal_strlit("Crix");
        }
        RunConfig { resizable: false, title: String::from_str("Crix") }
    }

    pub fn with_title(self, title: String) -> (r: Self)
        ensures
            r.title == title,
            r.resizable == self.resizable,
    {
        RunConfig { title, ..self }
    }
}

} // verus!
