use vstd::prelude::*;
use crate::canvas::{at, painted, Canvas};
use crate::image::blit_px;
use crate::image::Image;
use crate::rect::Rect;
use crate::widget::{Widget, WidgetState};

verus! {

/// How far a wheel movement of `delta` pixels scrolls at `speed` pixels per
/// hundred: the product over a hundred, rounded towards zero.
pub open spec fn wheel_step(delta: int, speed: int) -> int {
    if delta >= 0 {
        delta * speed / 100
    } else {
        -((-delta) * speed / 100)
    }
}

/// An offset kept within `[0, max]`.
pub open spec fn clamp_scroll(t: int, max: nat) -> int {
    if t < 0 {
        0
    } else if t > max {
        max as int
    } else {
        t
    }
}

/// A scroll container with an image scrollbar and one child widget, scrolled
/// vertically in whole pixels.
pub struct SkinVScroll {
    width: u32,
    height: u32,
    scrollbar_width: u32,
    scroll_y: u32,
    content_height: u32,
    child: Option<Box<Widget>>,
    /// Pixels scrolled per hundred pixels of wheel movement.
    scroll_speed: u32,
    track_image: Image,
    thumb_image: Image,
}

impl SkinVScroll {
    pub closed spec fn wf(&self) -> bool
        decreases self,
    {
        &&& self.scroll_y <= self.max_scroll_spec()
        &&& self.track_image.wf()
        &&& self.thumb_image.wf()
        &&& match self.child {
            Some(c) => c.wf(),
            None => true,
        }
    }

    /// A pixel after the track tiles from `offset` down are painted, each
    /// a copy of the track image cut to the scrollbar's lane.
    spec fn tiles_from(&self, offset: int, fw: int, fh: int, clip: Option<Rect>, bounds: Rect, px: int, py: int, v: u32) -> u32
        decreases self.height - offset,
    {
        let tile = self.track_image.height_spec() as int;
        let track_x = bounds.x + self.viewport_width_spec();
        if tile <= 0 || offset >= self.height || offset < 0 || track_x > i32::MAX {
            v
        } else {
            let y = bounds.y + offset;
            let lane = Rect { x: track_x as i32, y: bounds.y, width: self.scrollbar_width, height: self.height };
            let v1 = if y <= i32::MAX {
                blit_px(self.track_image, track_x, y, Some(lane), fw, fh, clip, px, py, v)
            } else {
                v
            };
            if offset + tile >= self.height {
                v1
            } else {
                self.tiles_from(offset + tile, fw, fh, clip, bounds, px, py, v1)
            }
        }
    }

    /// A pixel after the scrollbar is painted: the track tiled down the
    /// right edge, then the thumb at the offset's place.
    pub closed spec fn bar_px(&self, fw: int, fh: int, clip: Option<Rect>, bounds: Rect, px: int, py: int, v: u32) -> u32 {
        let track_x = bounds.x + self.viewport_width_spec();
        if track_x > i32::MAX {
            v
        } else {
            let v1 = self.tiles_from(0, fw, fh, clip, bounds, px, py, v);
            let ty = bounds.y + self.thumb_offset_spec();
            if i32::MIN <= ty <= i32::MAX {
                blit_px(self.thumb_image, track_x, ty, None, fw, fh, clip, px, py, v1)
            } else {
                v1
            }
        }
    }

    pub closed spec fn viewport_spec(&self, bounds: Rect) -> Rect {
        Rect { x: bounds.x, y: bounds.y, width: self.viewport_width_spec(), height: self.height }
    }

    pub closed spec fn child_bounds_spec(&self, bounds: Rect) -> Rect {
        let y = bounds.y - self.scroll_y;
        Rect {
            x: bounds.x,
            y: if y < i32::MIN { i32::MIN } else { y as i32 },
            width: self.viewport_width_spec(),
            height: self.content_height,
        }
    }

    /// A pixel after the container is drawn: the scrollbar, then the child's
    /// pixels, clipped to the viewport and moved by the offset.
    pub closed spec fn paint_px(&self, fw: int, fh: int, clip: Option<Rect>, bounds: Rect, px: int, py: int, v: u32) -> u32
        decreases self,
    {
        let v1 = self.bar_px(fw, fh, clip, bounds, px, py, v);
        match self.child {
            Some(c) => c.paint_px(
                fw,
                fh,
                Some(self.viewport_spec(bounds)),
                self.child_bounds_spec(bounds),
                WidgetState { hovered: false, pressed: false, focused: false },
                px,
                py,
                v1,
            ),
            None => v1,
        }
    }

    /// The container states its pixels exactly when its child does.
    pub closed spec fn paints_exactly(&self) -> bool
        decreases self,
    {
        match self.child {
            Some(c) => c.paints_exactly(),
            None => true,
        }
    }

    /// What `paint_px` and `paints_exactly` come to, in terms of the child.
    pub proof fn lemma_paint(&self, fw: int, fh: int, clip: Option<Rect>, bounds: Rect, px: int, py: int, v: u32)
        ensures
            self.paint_px(fw, fh, clip, bounds, px, py, v) == match self.child_spec() {
                Some(c) => c.paint_px(
                    fw,
                    fh,
                    Some(self.viewport_spec(bounds)),
                    self.child_bounds_spec(bounds),
                    WidgetState { hovered: false, pressed: false, focused: false },
                    px,
                    py,
                    self.bar_px(fw, fh, clip, bounds, px, py, v),
                ),
                None => self.bar_px(fw, fh, clip, bounds, px, py, v),
            },
            self.paints_exactly() == match self.child_spec() {
                Some(c) => c.paints_exactly(),
                None => true,
            },
    {
    }

    /// The child is a strict part of the container.
    pub proof fn lemma_child_smaller(&self)
        ensures
            self.child_spec() is Some ==> decreases_to!(self => self.child_spec()->Some_0),
            self.wf() && self.child_spec() is Some ==> self.child_spec()->Some_0.wf(),
    {
    }

    /// How far the content can scroll: what of it does not fit in the viewport.
    pub closed spec fn max_scroll_spec(&self) -> nat {
        if self.content_height > self.height {
            (self.content_height - self.height) as nat
        } else {
            0
        }
    }

    /// The container's width less the scrollbar's, or nothing.
    pub closed spec fn viewport_width_spec(&self) -> u32 {
        if self.width > self.scrollbar_width {
            (self.width - self.scrollbar_width) as u32
        } else {
            0
        }
    }

    pub closed spec fn thumb_height_spec(&self) -> u32 {
        self.thumb_image.height_spec()
    }

    /// How far below the top of the track the thumb starts: the offset's
    /// share of the track length the thumb leaves free, rounded down.
    pub closed spec fn thumb_offset_spec(&self) -> int {
        let th = self.thumb_height_spec();
        let free: int = if self.height > th { self.height - th } else { 0 };
        if self.max_scroll_spec() == 0 {
            0
        } else {
            free * self.scroll_y / (self.max_scroll_spec() as int)
        }
    }

    pub closed spec fn speed_spec(&self) -> u32 {
        self.scroll_speed
    }

    pub closed spec fn scroll_spec(&self) -> nat {
        self.scroll_y as nat
    }

    pub closed spec fn size_spec(&self) -> (u32, u32) {
        (self.width, self.height)
    }

    pub closed spec fn child_spec(&self) -> Option<Widget> {
        match self.child {
            Some(c) => Some(*c),
            None => None,
        }
    }

    /// A container of the given size whose scrollbar is as wide as the track image.
    pub fn new(width: u32, height: u32, track_image: Image, thumb_image: Image) -> (r: Self)
        requires
            track_image.wf(),
            thumb_image.wf(),
        ensures
            r.wf(),
            r.size_spec() == (width, height),
            r.scroll_spec() == 0,
            r.child_spec() is None,
    {
        let scrollbar_width = track_image.width();
        SkinVScroll {
            width,
            height,
            scrollbar_width,
            scroll_y: 0,
            content_height: 0,
            child: None,
            scroll_speed: 100,
            track_image,
            thumb_image,
        }
    }

    /// Sets the child; the content is as tall as the child's preferred
    /// height, and the offset is pulled back within the new range.
    pub fn set_child(&mut self, child: Box<Widget>)
        requires
            old(self).wf(),
            child.wf(),
        ensures
            final(self).wf(),
            final(self).child_spec() == Some(*child),
            final(self).size_spec() == old(self).size_spec(),
    {
        let (_, h) = child.preferred_size();
        self.content_height = h;
        self.child = Some(child);
        let max = self.max_scroll();
        if self.scroll_y > max {
            self.scroll_y = max;
        }
    }

    pub fn with_child(self, child: Box<Widget>) -> (r: Self)
        requires
            self.wf(),
            child.wf(),
        ensures
            r.wf(),
            r.child_spec() == Some(*child),
            r.size_spec() == self.size_spec(),
    {
        let mut s = self;
        s.set_child(child);
        s
    }

    /// Sets the content height by hand, for a child that reports none.
    pub fn with_content_height(self, height: u32) -> (r: Self)
        requires
            self.wf(),
        ensures
            r.wf(),
            r.child_spec() == self.child_spec(),
            r.size_spec() == self.size_spec(),
    {
        let mut s = SkinVScroll { content_height: height, ..self };
        let max = s.max_scroll();
        if s.scroll_y > max {
            s.scroll_y = max;
        }
        s
    }

    /// Sets how many pixels a hundred pixels of wheel movement scroll.
    pub fn with_scroll_speed_percent(self, percent: u32) -> (r: Self)
        requires
            self.wf(),
        ensures
            r.wf(),
            r.child_spec() == self.child_spec(),
            r.size_spec() == self.size_spec(),
            r.scroll_spec() == self.scroll_spec(),
    {
        SkinVScroll { scroll_speed: percent, ..self }
    }

    /// The width left for the child beside the scrollbar.
    pub fn viewport_width(&self) -> (r: u32)
        ensures
            r == self.viewport_width_spec(),
    {
        if self.width > self.scrollbar_width {
            self.width - self.scrollbar_width
        } else {
            0
        }
    }

    pub fn viewport_height(&self) -> (r: u32)
        ensures
            r == self.size_spec().1,
    {
        self.height
    }

    pub fn max_scroll(&self) -> (r: u32)
        ensures
            r == self.max_scroll_spec(),
    {
        if self.content_height > self.height {
            self.content_height - self.height
        } else {
            0
        }
    }

    pub fn scroll_offset(&self) -> (r: u32)
        ensures
            r == self.scroll_spec(),
    {
        self.scroll_y
    }

    /// Scrolls by a wheel movement (positive: towards the top), scaled by the
    /// speed and kept within `[0, max_scroll]`.
    pub fn scroll_by(&mut self, delta: i32)
        requires
            old(self).wf(),
        ensures
            final(self).wf(),
            final(self).child_spec() == old(self).child_spec(),
            final(self).size_spec() == old(self).size_spec(),
            final(self).max_scroll_spec() == old(self).max_scroll_spec(),
            final(self).scroll_spec() == clamp_scroll(
                old(self).scroll_spec() - wheel_step(delta as int, old(self).speed_spec() as int),
                old(self).max_scroll_spec(),
            ),
    {
        let magnitude: u64 = if delta < 0 { (-(delta as i64)) as u64 } else { delta as u64 };
        proof {
            assert((magnitude as int) * (self.scroll_speed as int) <= 0x8000_0000int * 0xffff_ffffint)
                by (nonlinear_arith)
                requires
                    magnitude <= 0x8000_0000int,
                    self.scroll_speed <= 0xffff_ffffint,
            ;
        }
        let size = magnitude * self.scroll_speed as u64 / 100;
        let step: i64 = if delta < 0 { -(size as i64) } else { size as i64 };
        let target = self.scroll_y as i64 - step;
        let max = self.max_scroll();
        self.scroll_y = if target < 0 {
            0
        } else if target > max as i64 {
            max
        } else {
            target as u32
        };
    }

    pub fn thumb_height(&self) -> (r: u32)
        ensures
            r == self.thumb_height_spec(),
    {
        self.thumb_image.height()
    }

    /// Where the thumb starts: the offset's share of the track's free length,
    /// rounded down, below `track_y`.
    pub fn thumb_y(&self, track_y: i32) -> (r: i64)
        requires
            self.wf(),
        ensures
            r == track_y as int + self.thumb_offset_spec(),
    {
        let th = self.thumb_height();
        let free: u32 = if self.height > th {
            self.height - th
        } else {
            0
        };
        let max = self.max_scroll();
        if max == 0 {
            return track_y as i64;
        }
        proof {
            assert((free as int) * (self.scroll_y as int) <= 0xffff_ffffint * 0xffff_ffffint)
                by (nonlinear_arith)
                requires
                    free <= 0xffff_ffffint,
                    self.scroll_y <= 0xffff_ffffint,
            ;
        }
        let ahead = free as u64 * self.scroll_y as u64 / max as u64;
        proof {
            assert((free as int) * (self.scroll_y as int) <= (free as int) * (max as int))
                by (nonlinear_arith)
                requires
                    self.scroll_y <= max,
            ;
            assert((free as int) * (max as int) / (max as int) == free as int) by (nonlinear_arith)
                requires
                    max > 0,
            ;
            assert((free as int) * (self.scroll_y as int) / (max as int) <= (free as int) * (
            max as int) / (max as int)) by (nonlinear_arith)
                requires
                    max > 0,
                    (free as int) * (self.scroll_y as int) <= (free as int) * (max as int),
            ;
        }
        track_y as i64 + ahead as i64
    }

    /// A wheel movement scrolls when there is somewhere to scroll to.
    pub fn on_wheel(&mut self, delta: i32) -> (r: bool)
        requires
            old(self).wf(),
        ensures
            final(self).wf(),
            r == (old(self).max_scroll_spec() > 0),
            final(self).scroll_spec() == if r {
                clamp_scroll(
                    old(self).scroll_spec() - wheel_step(delta as int, old(self).speed_spec() as int),
                    old(self).max_scroll_spec(),
                )
            } else {
                old(self).scroll_spec() as int
            },
            final(self).child_spec() == old(self).child_spec(),
            final(self).size_spec() == old(self).size_spec(),
    {
        if self.max_scroll() > 0 {
            self.scroll_by(delta);
            true
        } else {
            false
        }
    }

    pub fn child(&self) -> (r: Option<&Widget>)
        ensures
            match r {
                Some(c) => self.child_spec() == Some(*c),
                None => self.child_spec() is None,
            },
    {
        match &self.child {
            Some(c) => Some(&**c),
            None => None,
        }
    }

    pub fn preferred_size(&self) -> (r: (u32, u32))
        ensures
            r == self.size_spec(),
    {
        (self.width, self.height)
    }

    /// The area the child is shown in, at the container's top-left corner.
    pub fn viewport(&self, bounds: &Rect) -> (r: Rect)
        ensures
            r == self.viewport_spec(*bounds),
    {
        Rect::new(bounds.x, bounds.y, self.viewport_width(), self.height)
    }

    /// Where the child is drawn: the viewport's width, the content's height,
    /// moved up by the offset.
    pub fn child_bounds(&self, bounds: &Rect) -> (r: Rect)
        ensures
            r == self.child_bounds_spec(*bounds),
    {
        let y = bounds.y as i64 - self.scroll_y as i64;
        let y = if y < i32::MIN as i64 {
            i32::MIN
        } else {
            y as i32
        };
        Rect::new(bounds.x, y, self.viewport_width(), self.content_height)
    }

    /// Draws the scrollbar: the track image tiled down the right edge, and
    /// the thumb at the offset's place.
    pub fn draw_scrollbar(&self, canvas: &mut Canvas, bounds: &Rect)
        requires
            self.wf(),
            old(canvas).wf(),
        ensures
            old(canvas).same_frame(&*final(canvas)),
            painted(
                *old(canvas),
                *final(canvas),
                |px: int, py: int, v: u32|
                    self.bar_px(
                        old(canvas).width_spec() as int,
                        old(canvas).height_spec() as int,
                        old(canvas).clip_spec(),
                        *bounds,
                        px,
                        py,
                        v,
                    ),
            ),
    {
        let ghost fw = canvas.width_spec() as int;
        let ghost fh = canvas.height_spec() as int;
        let ghost clip = canvas.clip_spec();
        let ghost c0 = *canvas;
        let track_x = bounds.x as i64 + self.viewport_width() as i64;
        if track_x > i32::MAX as i64 {
            return;
        }
        let track_x = track_x as i32;
        let lane = Rect::new(track_x, bounds.y, self.scrollbar_width, self.height);
        let tile = self.track_image.height() as u64;
        if tile > 0 {
            let mut offset: u64 = 0;
            while offset < self.height as u64
                invariant
                    self.wf(),
                    old(canvas).same_frame(&*canvas),
                    tile > 0,
                    tile == self.track_image.height_spec(),
                    tile <= u32::MAX as u64,
                    offset <= self.height,
                    track_x == bounds.x + self.viewport_width_spec(),
                    lane == (Rect { x: track_x, y: bounds.y, width: self.scrollbar_width, height: self.height }),
                    fw == old(canvas).width_spec() as int,
                    fh == old(canvas).height_spec() as int,
                    clip == old(canvas).clip_spec(),
                    c0 == *old(canvas),
                    forall|px: int, py: int|
                        0 <= px < fw && 0 <= py < fh ==> self.tiles_from(
                            0,
                            fw,
                            fh,
                            clip,
                            *bounds,
                            px,
                            py,
                            at(c0.pixels(), fw, px, py),
                        ) == self.tiles_from(
                            offset as int,
                            fw,
                            fh,
                            clip,
                            *bounds,
                            px,
                            py,
                            #[trigger] at(canvas.pixels(), fw, px, py),
                        ),
                decreases self.height - offset,
            {
                let ghost before = *canvas;
                let y = bounds.y as i64 + offset as i64;
                if y <= i32::MAX as i64 {
                    self.track_image.blit(canvas, track_x, y as i32, Some(lane));
                }
                let next = if offset + tile > self.height as u64 {
                    self.height as u64
                } else {
                    offset + tile
                };
                proof {
                    assert forall|px: int, py: int| 0 <= px < fw && 0 <= py < fh implies self.tiles_from(
                        0,
                        fw,
                        fh,
                        clip,
                        *bounds,
                        px,
                        py,
                        at(c0.pixels(), fw, px, py),
                    ) == self.tiles_from(
                        next as int,
                        fw,
                        fh,
                        clip,
                        *bounds,
                        px,
                        py,
                        #[trigger] at(canvas.pixels(), fw, px, py),
                    ) by {
                        let v0 = at(before.pixels(), fw, px, py);
                        assert(at(canvas.pixels(), fw, px, py) == if y <= i32::MAX as i64 {
                            blit_px(self.track_image, track_x as int, y as int, Some(lane), fw, fh, clip, px, py, v0)
                        } else {
                            v0
                        });
                    }
                }
                offset = next;
            }
        }
        let ghost c1 = *canvas;
        let thumb_y = self.thumb_y(bounds.y);
        if i32::MIN as i64 <= thumb_y && thumb_y <= i32::MAX as i64 {
            self.thumb_image.blit(canvas, track_x, thumb_y as i32, None);
        }
        proof {
            assert forall|px: int, py: int| 0 <= px < fw && 0 <= py < fh implies #[trigger] at(
                canvas.pixels(),
                fw,
                px,
                py,
            ) == self.bar_px(fw, fh, clip, *bounds, px, py, at(c0.pixels(), fw, px, py)) by {
                if tile > 0 {
                    assert(self.tiles_from(self.height as int, fw, fh, clip, *bounds, px, py, at(c1.pixels(), fw, px, py)) == at(c1.pixels(), fw, px, py));
                } else {
                    assert(self.tiles_from(0, fw, fh, clip, *bounds, px, py, at(c0.pixels(), fw, px, py)) == at(c0.pixels(), fw, px, py));
                }
            }
        }
    }
}

} // verus!
