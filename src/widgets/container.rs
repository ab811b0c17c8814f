use vstd::prelude::*;
use crate::canvas::{fill_px, painted, Canvas};
use crate::image::blit_px;
use crate::image::Image;
use crate::rect::Rect;

verus! {

/// What a container paints behind its children.
pub enum Background {
    Color(u32),
    Image(Image),
}

/// Fills the part of `bounds` that lies at non-negative coordinates.
pub(crate) fn fill_bounds(canvas: &mut Canvas, bounds: &Rect, color: u32)
    requires
        old(canvas).wf(),
    ensures
        old(canvas).same_frame(&*final(canvas)),
        painted(
            *old(canvas),
            *final(canvas),
            |px: int, py: int, v: u32|
                fill_px(
                    *bounds,
                    color,
                    old(canvas).width_spec() as int,
                    old(canvas).height_spec() as int,
                    old(canvas).clip_spec(),
                    px,
                    py,
                    v,
                ),
        ),
{
    let left: i64 = if bounds.x < 0 { 0 } else { bounds.x as i64 };
    let top: i64 = if bounds.y < 0 { 0 } else { bounds.y as i64 };
    let right = bounds.x as i64 + bounds.width as i64;
    let bottom = bounds.y as i64 + bounds.height as i64;
    if right > left && bottom > top {
        canvas.fill_rect(left as u32, top as u32, (right - left) as u32, (bottom - top) as u32, color);
    }
}

/// A container widget with an optional background; its children live in the tree.
pub struct Container {
    width: u32,
    height: u32,
    background: Option<Background>,
}

impl Container {
    pub closed spec fn size_spec(&self) -> (u32, u32) {
        (self.width, self.height)
    }

    pub closed spec fn is_transparent(&self) -> bool {
        self.background is None
    }

    pub closed spec fn wf(&self) -> bool {
        match self.background {
            Some(Background::Image(i)) => i.wf(),
            _ => true,
        }
    }

    pub fn new(width: u32, height: u32) -> (r: Self)
        ensures
            r.wf(),
            r.size_spec() == (width, height),
            r.is_transparent(),
            r.background_spec() is None,
    {
        Container { width, height, background: None }
    }

    /// The same container over a solid color.
    pub fn with_background(self, color: u32) -> (r: Self)
        ensures
            r.wf(),
            r.size_spec() == self.size_spec(),
            !r.is_transparent(),
            r.background_spec() == Some(Background::Color(color)),
    {
        Container { background: Some(Background::Color(color)), ..self }
    }

    /// A container over an image, sized to the image.
    pub fn from_image(image: Image) -> (r: Self)
        requires
            image.wf(),
        ensures
            r.wf(),
            r.size_spec() == (image.width_spec(), image.height_spec()),
            !r.is_transparent(),
            r.background_spec() == Some(Background::Image(image)),
    {
        let width = image.width();
        let height = image.height();
        Container { width, height, background: Some(Background::Image(image)) }
    }

    /// The same container over an image, resized to the image.
    pub fn with_image(self, image: Image) -> (r: Self)
        requires
            image.wf(),
        ensures
            r.wf(),
            r.size_spec() == (image.width_spec(), image.height_spec()),
            !r.is_transparent(),
    {
        Container::from_image(image)
    }

    /// A container that paints nothing.
    pub fn transparent(width: u32, height: u32) -> (r: Self)
        ensures
            r.wf(),
            r.size_spec() == (width, height),
            r.is_transparent(),
            r.background_spec() is None,
    {
        Container { width, height, background: None }
    }

    pub fn preferred_size(&self) -> (r: (u32, u32))
        ensures
            r == self.size_spec(),
    {
        (self.width, self.height)
    }

    /// A pixel after the container is drawn at `bounds`: its color filled
    /// over the bounds, its image copied into them, or nothing when transparent.
    pub closed spec fn background_spec(&self) -> Option<Background> {
        self.background
    }

    pub open spec fn paint_px(&self, fw: int, fh: int, clip: Option<Rect>, bounds: Rect, px: int, py: int, v: u32) -> u32 {
        match self.background_spec() {
            Some(Background::Color(c)) => fill_px(bounds, c, fw, fh, clip, px, py, v),
            Some(Background::Image(i)) => blit_px(i, bounds.x as int, bounds.y as int, Some(bounds), fw, fh, clip, px, py, v),
            None => v,
        }
    }

    pub fn draw(&self, canvas: &mut Canvas, bounds: &Rect)
        requires
            self.wf(),
            old(canvas).wf(),
        ensures
            old(canvas).same_frame(&*final(canvas)),
            painted(
                *old(canvas),
                *final(canvas),
                |px: int, py: int, v: u32|
                    self.paint_px(
                        old(canvas).width_spec() as int,
                        old(canvas).height_spec() as int,
                        old(canvas).clip_spec(),
                        *bounds,
                        px,
                        py,
                        v,
                    ),
            ),
            self.is_transparent() ==> *final(canvas) == *old(canvas),
    {
        match &self.background {
            Some(Background::Color(c)) => fill_bounds(canvas, bounds, *c),
            Some(Background::Image(i)) => i.blit(canvas, bounds.x, bounds.y, Some(*bounds)),
            None => {},
        }
    }
}

} // verus!
