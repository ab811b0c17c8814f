use vstd::prelude::*;
use crate::canvas::{painted, Canvas};
use crate::image::blit_px;
use crate::image::Image;
use crate::rect::Rect;
use crate::widget::WidgetState;

verus! {

/// A widget that shows an image, clipped to its bounds.
pub struct ImageWidget {
    width: u32,
    height: u32,
    data: Image,
}

impl ImageWidget {
    pub closed spec fn wf(&self) -> bool {
        self.data.wf()
    }

    pub closed spec fn size_spec(&self) -> (u32, u32) {
        (self.width, self.height)
    }

    /// An image widget sized to its image.
    pub fn from_rgb(data: Image) -> (r: Self)
        requires
            data.wf(),
        ensures
            r.wf(),
            r.image_spec() == data,
            r.size_spec() == (data.width_spec(), data.height_spec()),
    {
        let width = data.width();
        let height = data.height();
        ImageWidget { width, height, data }
    }

    pub fn width(&self) -> (r: u32)
        ensures
            r == self.size_spec().0,
    {
        self.width
    }

    pub fn height(&self) -> (r: u32)
        ensures
            r == self.size_spec().1,
    {
        self.height
    }

    /// A pixel after the image is drawn at `bounds`: copied, cut to the bounds.
    pub closed spec fn image_spec(&self) -> Image {
        self.data
    }

    pub open spec fn paint_px(
        &self,
        fw: int,
        fh: int,
        clip: Option<Rect>,
        bounds: Rect,
        state: WidgetState,
        px: int,
        py: int,
        v: u32,
    ) -> u32 {
        blit_px(self.image_spec(), bounds.x as int, bounds.y as int, Some(bounds), fw, fh, clip, px, py, v)
    }

    pub fn draw(&self, canvas: &mut Canvas, bounds: &Rect)
        requires
            self.wf(),
            old(canvas).wf(),
        ensures
            old(canvas).same_frame(&*final(canvas)),
            painted(
                *old(canvas),
                *final(canvas),
                |px: int, py: int, v: u32|
                    self.paint_px(
                        old(canvas).width_spec() as int,
                        old(canvas).height_spec() as int,
                        old(canvas).clip_spec(),
                        *bounds,
                        WidgetState { hovered: false, pressed: false, focused: false },
                        px,
                        py,
                        v,
                    ),
            ),
    {
        self.data.blit(canvas, bounds.x, bounds.y, Some(*bounds));
    }
}

} // verus!
