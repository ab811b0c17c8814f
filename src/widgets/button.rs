use vstd::prelude::*;
use crate::canvas::{fill_px, painted, Canvas};
use crate::rect::Rect;
use crate::widget::{WidgetEvent, WidgetState};
use crate::widgets::container::fill_bounds;

verus! {

/// A plain button painted in a color per state; a click requests an action.
pub struct Button {
    width: u32,
    height: u32,
    color: u32,
    hover_color: u32,
    pressed_color: u32,
    on_click: Option<String>,
}

impl Button {
    pub closed spec fn colors(&self) -> (u32, u32, u32) {
        (self.color, self.hover_color, self.pressed_color)
    }

    pub closed spec fn size_spec(&self) -> (u32, u32) {
        (self.width, self.height)
    }

    pub fn new(width: u32, height: u32) -> (r: Self)
        ensures
            r.size_spec() == (width, height),
            r.colors() == (0x444444u32, 0x666666u32, 0x222222u32),
    {
        Button {
            width,
            height,
            color: 0x444444,
            hover_color: 0x666666,
            pressed_color: 0x222222,
            on_click: None,
        }
    }

    pub fn with_color(self, color: u32) -> (r: Self)
        ensures
            r.size_spec() == self.size_spec(),
            r.colors() == (color, self.colors().1, self.colors().2),
    {
        Button { color, ..self }
    }

    pub fn with_hover_color(self, color: u32) -> (r: Self)
        ensures
            r.size_spec() == self.size_spec(),
            r.colors() == (self.colors().0, color, self.colors().2),
    {
        Button { hover_color: color, ..self }
    }

    pub fn with_pressed_color(self, color: u32) -> (r: Self)
        ensures
            r.size_spec() == self.size_spec(),
            r.colors() == (self.colors().0, self.colors().1, color),
    {
        Button { pressed_color: color, ..self }
    }

    /// Names the action a click on this button requests.
    pub fn on_click(self, action: String) -> (r: Self)
        ensures
            r.size_spec() == self.size_spec(),
            r.colors() == self.colors(),
    {
        Button { on_click: Some(action), ..self }
    }

    pub fn click_action(&self) -> Option<&str> {
        match &self.on_click {
            Some(a) => Some(a.as_str()),
            None => None,
        }
    }

    /// The color for a state: pressed wins over hovered.
    pub fn color_for(&self, state: WidgetState) -> (r: u32)
        ensures
            r == if state.pressed {
                self.colors().2
            } else if state.hovered {
                self.colors().1
            } else {
                self.colors().0
            },
    {
        if state.pressed {
            self.pressed_color
        } else if state.hovered {
            self.hover_color
        } else {
            self.color
        }
    }

    pub fn preferred_size(&self) -> (r: (u32, u32))
        ensures
            r == self.size_spec(),
    {
        (self.width, self.height)
    }

    /// A click is consumed; nothing else is.
    pub fn on_event(&self, event: &WidgetEvent) -> (r: bool)
        ensures
            r == (*event is Click),
    {
        match event {
            WidgetEvent::Click => true,
            _ => false,
        }
    }

    /// A pixel after the button is drawn at `bounds` in `state`: the bounds
    /// filled with the pressed, hover or normal color (pressed wins).
    pub open spec fn paint_px(
        &self,
        fw: int,
        fh: int,
        clip: Option<Rect>,
        bounds: Rect,
        state: WidgetState,
        px: int,
        py: int,
        v: u32,
    ) -> u32 {
        fill_px(bounds, if state.pressed { self.colors().2 } else if state.hovered { self.colors().1 } else { self.colors().0 }, fw, fh, clip, px, py, v)
    }

    pub fn draw(&self, canvas: &mut Canvas, bounds: &Rect, state: WidgetState)
        requires
            old(canvas).wf(),
        ensures
            old(canvas).same_frame(&*final(canvas)),
            painted(
                *old(canvas),
                *final(canvas),
                |px: int, py: int, v: u32|
                    self.paint_px(
                        old(canvas).width_spec() as int,
                        old(canvas).height_spec() as int,
                        old(canvas).clip_spec(),
                        *bounds,
                        state,
                        px,
                        py,
                        v,
                    ),
            ),
    {
        let color = self.color_for(state);
        fill_bounds(canvas, bounds, color);
    }
}

} // verus!
