use vstd::prelude::*;
use crate::canvas::{painted, Canvas};
use crate::image::blit_px;
use crate::image::Image;
use crate::rect::Rect;
use crate::widget::{WidgetEvent, WidgetState};

verus! {

/// A button drawn from one skin image per state; a click requests its action.
pub struct SkinButton {
    normal: Image,
    hover: Image,
    pressed: Image,
    width: u32,
    height: u32,
    action: Option<String>,
}

impl SkinButton {
    pub closed spec fn wf(&self) -> bool {
        self.normal.wf() && self.hover.wf() && self.pressed.wf()
    }

    pub closed spec fn action_spec(&self) -> Option<Seq<char>> {
        match self.action {
            Some(a) => Some(a@),
            None => None,
        }
    }

    pub closed spec fn size_spec(&self) -> (u32, u32) {
        (self.width, self.height)
    }

    /// The normal, hover and pressed images.
    pub closed spec fn images_spec(&self) -> (Image, Image, Image) {
        (self.normal, self.hover, self.pressed)
    }

    /// A button sized to its normal image.
    pub fn new(normal: Image, hover: Image, pressed: Image, action: Option<String>) -> (r: Self)
        requires
            normal.wf(),
            hover.wf(),
            pressed.wf(),
        ensures
            r.images_spec() == (normal, hover, pressed),
            r.wf(),
            r.size_spec() == (normal.width_spec(), normal.height_spec()),
            r.action_spec() == match action {
                Some(a) => Some(a@),
                None => None::<Seq<char>>,
            },
    {
        let width = normal.width();
        let height = normal.height();
        SkinButton { normal, hover, pressed, width, height, action }
    }

    pub fn action(&self) -> (r: Option<&str>)
        ensures
            match r {
                Some(a) => self.action_spec() == Some(a@),
                None => self.action_spec() is None,
            },
    {
        match &self.action {
            Some(a) => Some(a.as_str()),
            None => None,
        }
    }

    pub fn preferred_size(&self) -> (r: (u32, u32))
        ensures
            r == self.size_spec(),
    {
        (self.width, self.height)
    }

    /// A click is consumed; nothing else is.
    pub fn on_event(&self, event: &WidgetEvent) -> (r: bool)
        ensures
            r == (*event is Click),
    {
        match event {
            WidgetEvent::Click => true,
            _ => false,
        }
    }

    /// A pixel after the button is drawn at `bounds` in `state`: the pressed,
    /// hover or normal image (pressed wins) copied, cut to the bounds.
    pub open spec fn paint_px(
        &self,
        fw: int,
        fh: int,
        clip: Option<Rect>,
        bounds: Rect,
        state: WidgetState,
        px: int,
        py: int,
        v: u32,
    ) -> u32 {
        blit_px(if state.pressed { self.images_spec().2 } else if state.hovered { self.images_spec().1 } else { self.images_spec().0 }, bounds.x as int, bounds.y as int, Some(bounds), fw, fh, clip, px, py, v)
    }

    /// Draws the pressed image when pressed, else the hover image when
    /// hovered, else the normal one.
    pub fn draw(&self, canvas: &mut Canvas, bounds: &Rect, state: WidgetState)
        requires
            self.wf(),
            old(canvas).wf(),
        ensures
            old(canvas).same_frame(&*final(canvas)),
            painted(
                *old(canvas),
                *final(canvas),
                |px: int, py: int, v: u32|
                    self.paint_px(
                        old(canvas).width_spec() as int,
                        old(canvas).height_spec() as int,
                        old(canvas).clip_spec(),
                        *bounds,
                        state,
                        px,
                        py,
                        v,
                    ),
            ),
    {
        let image = if state.pressed {
            &self.pressed
        } else if state.hovered {
            &self.hover
        } else {
            &self.normal
        };
        image.blit(canvas, bounds.x, bounds.y, Some(*bounds));
    }
}

} // verus!
