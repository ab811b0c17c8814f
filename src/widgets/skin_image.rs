use vstd::prelude::*;
use crate::canvas::{painted, Canvas};
use crate::image::blit_px;
use crate::image::Image;
use crate::rect::Rect;
use crate::widget::WidgetState;

verus! {

/// A static image taken from a skin asset.
pub struct SkinImage {
    image: Image,
    width: u32,
    height: u32,
}

impl SkinImage {
    pub closed spec fn wf(&self) -> bool {
        self.image.wf()
    }

    pub closed spec fn size_spec(&self) -> (u32, u32) {
        (self.width, self.height)
    }

    pub closed spec fn image_spec(&self) -> Image {
        self.image
    }

    pub fn new(image: Image) -> (r: Self)
        requires
            image.wf(),
        ensures
            r.image_spec() == image,
            r.wf(),
            r.size_spec() == (image.width_spec(), image.height_spec()),
    {
        let width = image.width();
        let height = image.height();
        SkinImage { image, width, height }
    }

    pub fn preferred_size(&self) -> (r: (u32, u32))
        ensures
            r == self.size_spec(),
    {
        (self.width, self.height)
    }

    /// A pixel after the image is drawn at `bounds`: copied, cut to the bounds.
    pub open spec fn paint_px(
        &self,
        fw: int,
        fh: int,
        clip: Option<Rect>,
        bounds: Rect,
        state: WidgetState,
        px: int,
        py: int,
        v: u32,
    ) -> u32 {
        blit_px(self.image_spec(), bounds.x as int, bounds.y as int, Some(bounds), fw, fh, clip, px, py, v)
    }

    pub fn draw(&self, canvas: &mut Canvas, bounds: &Rect)
        requires
            self.wf(),
            old(canvas).wf(),
        ensures
            old(canvas).same_frame(&*final(canvas)),
            painted(
                *old(canvas),
                *final(canvas),
                |px: int, py: int, v: u32|
                    self.paint_px(
                        old(canvas).width_spec() as int,
                        old(canvas).height_spec() as int,
                        old(canvas).clip_spec(),
                        *bounds,
                        WidgetState { hovered: false, pressed: false, focused: false },
                        px,
                        py,
                        v,
                    ),
            ),
    {
        self.image.blit(canvas, bounds.x, bounds.y, Some(*bounds));
    }
}

} // verus!
