use vstd::prelude::*;
use crate::canvas::{at, painted, Canvas};
use crate::rect::Rect;
use crate::widgets::button::Button;
use crate::widgets::checkbox::Checkbox;
use crate::widgets::container::Container;
use crate::widgets::image_widget::ImageWidget;
use crate::widgets::skin_button::SkinButton;
use crate::widgets::skin_image::SkinImage;
use crate::widgets::skin_vscroll::SkinVScroll;
use crate::widgets::static_text::StaticText;
use crate::widgets::text_input::{input_reacts, TextInput};
use crate::widgets::vscroll_container::VScrollContainer;

verus! {

/// The interaction flags the tree derives for a node when it is drawn.
#[derive(Debug, Clone, Copy, PartialEq, Eq, Structural)]
pub struct WidgetState {
    pub hovered: bool,
    pub pressed: bool,
    pub focused: bool,
}

impl WidgetState {
    /// No flag set.
    pub fn idle() -> (r: Self)
        ensures
            r == (WidgetState { hovered: false, pressed: false, focused: false }),
    {
        WidgetState { hovered: false, pressed: false, focused: false }
    }
}

/// Named keys a text input reacts to.
#[derive(Debug, Clone, Copy, PartialEq, Eq, Structural)]
pub enum KeyCode {
    Backspace,
    Delete,
    Left,
    Right,
    Home,
    End,
    Enter,
}

/// An input event delivered to one widget.
#[derive(Debug, Clone, Copy, PartialEq, Eq, Structural)]
pub enum WidgetEvent {
    MouseDown { x: i32, y: i32 },
    MouseUp { x: i32, y: i32 },
    MouseMove { x: i32, y: i32 },
    /// A wheel movement in pixels; positive moves towards the top.
    MouseWheel { delta_y: i32 },
    Click,
    CharInput { c: char },
    KeyDown { key: KeyCode },
    FocusGained,
    FocusLost,
}

/// The closed set of widget variants a tree can hold.
pub enum Widget {
    Container(Container),
    Button(Button),
    Image(ImageWidget),
    SkinImage(SkinImage),
    SkinButton(SkinButton),
    TextInput(TextInput),
    StaticText(StaticText),
    Checkbox(Checkbox),
    SkinVScroll(SkinVScroll),
    VScroll(VScrollContainer),
}

impl Widget {
    /// Each variant's own invariant.
    pub open spec fn wf(&self) -> bool
        decreases self,
    {
        match self {
            Widget::Container(w) => w.wf(),
            Widget::Button(_) => true,
            Widget::Image(w) => w.wf(),
            Widget::SkinImage(w) => w.wf(),
            Widget::SkinButton(w) => w.wf(),
            Widget::TextInput(w) => w.wf(),
            Widget::StaticText(_) => true,
            Widget::Checkbox(w) => w.wf(),
            Widget::SkinVScroll(w) => w.wf(),
            Widget::VScroll(w) => w.wf(),
        }
    }

    /// The natural size of each variant; a static text has none here.
    pub open spec fn size_spec(&self) -> (u32, u32) {
        match self {
            Widget::Container(w) => w.size_spec(),
            Widget::Button(w) => w.size_spec(),
            Widget::Image(w) => w.size_spec(),
            Widget::SkinImage(w) => w.size_spec(),
            Widget::SkinButton(w) => w.size_spec(),
            Widget::TextInput(w) => w.size_spec(),
            Widget::StaticText(_) => (0u32, 0u32),
            Widget::Checkbox(w) => w.size_spec(),
            Widget::SkinVScroll(w) => w.size_spec(),
            Widget::VScroll(w) => w.size_spec(),
        }
    }

    /// The natural size of the widget. Text extents come from the font
    /// layer, so a static text reports none.
    pub fn preferred_size(&self) -> (r: (u32, u32))
        ensures
            r == self.size_spec(),
    {
        match self {
            Widget::Container(w) => w.preferred_size(),
            Widget::Button(w) => w.preferred_size(),
            Widget::Image(w) => (w.width(), w.height()),
            Widget::SkinImage(w) => w.preferred_size(),
            Widget::SkinButton(w) => w.preferred_size(),
            Widget::TextInput(w) => w.preferred_size(),
            Widget::StaticText(_) => (0, 0),
            Widget::Checkbox(w) => w.preferred_size(),
            Widget::SkinVScroll(w) => w.preferred_size(),
            Widget::VScroll(w) => w.preferred_size(),
        }
    }

    /// How a widget reacts to an event, from `before` to `after`, answering
    /// `r`: buttons take clicks and do not change; a checkbox takes clicks
    /// and flips; a text input reacts as `input_reacts` says; a scroll
    /// container takes the wheel when it can scroll; the rest take nothing.
    pub open spec fn reacts(before: Widget, after: Widget, event: WidgetEvent, r: bool) -> bool {
        match before {
            Widget::Button(_) => r == (event is Click) && after == before,
            Widget::SkinButton(_) => r == (event is Click) && after == before,
            Widget::Checkbox(c) => {
                &&& r == (event is Click)
                &&& after is Checkbox
                &&& after->Checkbox_0.checked_spec() == (c.checked_spec() != r)
                &&& after->Checkbox_0.binding_spec() == c.binding_spec()
                &&& (r ==> after->Checkbox_0.dirty_spec())
                &&& (!r ==> after->Checkbox_0.dirty_spec() == c.dirty_spec())
            },
            Widget::TextInput(t) => after is TextInput && input_reacts(t, after->TextInput_0, event, r),
            Widget::SkinVScroll(v) => {
                &&& r == (event is MouseWheel && v.max_scroll_spec() > 0)
                &&& after is SkinVScroll
            },
            Widget::VScroll(v) => {
                &&& r == (event is MouseWheel && v.max_scroll_spec() > 0)
                &&& after is VScroll
            },
            _ => !r && after == before,
        }
    }

    /// Delivers an event; says whether the widget consumed it. Buttons and
    /// checkboxes take clicks, scroll containers take the wheel when they can
    /// scroll, text inputs take what edits or focuses them; a widget keeps
    /// its variant, and one that takes no events is left as it was.
    pub fn on_event(&mut self, event: &WidgetEvent) -> (r: bool)
        requires
            old(self).wf(),
        ensures
            final(self).wf(),
            Widget::reacts(*old(self), *final(self), *event, r),
    {
        match self {
            Widget::Button(w) => w.on_event(event),
            Widget::SkinButton(w) => w.on_event(event),
            Widget::TextInput(w) => w.on_event(event),
            Widget::Checkbox(w) => w.on_event(event),
            Widget::SkinVScroll(w) => match event {
                WidgetEvent::MouseWheel { delta_y } => w.on_wheel(*delta_y),
                _ => false,
            },
            Widget::VScroll(w) => match event {
                WidgetEvent::MouseWheel { delta_y } => w.on_wheel(*delta_y),
                _ => false,
            },
            _ => false,
        }
    }

    /// Every variant states its pixels exactly (a scroll container through
    /// its child).
    pub open spec fn paints_exactly(&self) -> bool
        decreases self,
    {
        match self {
            Widget::SkinVScroll(w) => w.paints_exactly(),
            Widget::VScroll(w) => w.paints_exactly(),
            _ => true,
        }
    }

    /// Every widget states its pixels exactly.
    pub proof fn lemma_paints_exactly(&self)
        ensures
            self.paints_exactly(),
        decreases self,
    {
        let r = Rect { x: 0, y: 0, width: 0, height: 0 };
        let st = WidgetState { hovered: false, pressed: false, focused: false };
        match self {
            Widget::SkinVScroll(w) => {
                w.lemma_child_smaller();
                w.lemma_paint(0, 0, None, r, 0, 0, 0);
                if let Some(c) = w.child_spec() {
                    c.lemma_paints_exactly();
                }
            },
            Widget::VScroll(w) => {
                w.lemma_child_smaller();
                w.lemma_paint(0, 0, None, r, st, 0, 0, 0);
                if let Some(c) = w.child_spec() {
                    c.lemma_paints_exactly();
                }
            },
            _ => {},
        }
    }

    /// A pixel, of value `v` before, after the widget is drawn at `bounds` in
    /// `state` on a `fw` × `fh` canvas clipped to `clip`. A static text
    /// paints no pixel here: its glyphs come from the font layer.
    pub open spec fn paint_px(
        &self,
        fw: int,
        fh: int,
        clip: Option<Rect>,
        bounds: Rect,
        state: WidgetState,
        px: int,
        py: int,
        v: u32,
    ) -> u32
        decreases self,
    {
        match self {
            Widget::Container(w) => w.paint_px(fw, fh, clip, bounds, px, py, v),
            Widget::Button(w) => w.paint_px(fw, fh, clip, bounds, state, px, py, v),
            Widget::Image(w) => w.paint_px(fw, fh, clip, bounds, WidgetState { hovered: false, pressed: false, focused: false }, px, py, v),
            Widget::SkinImage(w) => w.paint_px(fw, fh, clip, bounds, WidgetState { hovered: false, pressed: false, focused: false }, px, py, v),
            Widget::SkinButton(w) => w.paint_px(fw, fh, clip, bounds, state, px, py, v),
            Widget::TextInput(w) => w.paint_px(fw, fh, clip, bounds, state, px, py, v),
            Widget::Checkbox(w) => w.paint_px(fw, fh, clip, bounds, WidgetState { hovered: false, pressed: false, focused: false }, px, py, v),
            Widget::SkinVScroll(w) => w.paint_px(fw, fh, clip, bounds, px, py, v),
            Widget::VScroll(w) => w.paint_px(fw, fh, clip, bounds, state, px, py, v),
            _ => v,
        }
    }

    /// Draws the widget into `bounds`; a scroll container draws its child,
    /// clipped to its viewport and moved by its offset.
    pub fn draw(&self, canvas: &mut Canvas, bounds: &Rect, state: WidgetState)
        requires
            self.wf(),
            old(canvas).wf(),
        ensures
            old(canvas).same_frame(&*final(canvas)),
            painted(
                *old(canvas),
                *final(canvas),
                |px: int, py: int, v: u32|
                    self.paint_px(
                        old(canvas).width_spec() as int,
                        old(canvas).height_spec() as int,
                        old(canvas).clip_spec(),
                        *bounds,
                        state,
                        px,
                        py,
                        v,
                    ),
            ),
        decreases self,
    {
        proof {
            self.lemma_paints_exactly();
        }
        match self {
            Widget::Container(w) => w.draw(canvas, bounds),
            Widget::Button(w) => w.draw(canvas, bounds, state),
            Widget::Image(w) => w.draw(canvas, bounds),
            Widget::SkinImage(w) => w.draw(canvas, bounds),
            Widget::SkinButton(w) => w.draw(canvas, bounds, state),
            Widget::TextInput(w) => w.draw(canvas, bounds, state),
            Widget::StaticText(_) => {},
            Widget::Checkbox(w) => w.draw(canvas, bounds),
            Widget::SkinVScroll(w) => {
                let ghost fw = canvas.width_spec() as int;
                let ghost fh = canvas.height_spec() as int;
                let ghost clip = canvas.clip_spec();
                let ghost c0 = *canvas;
                w.draw_scrollbar(canvas, bounds);
                let ghost c1 = *canvas;
                proof {
                    w.lemma_child_smaller();
                }
                if let Some(child) = w.child() {
                    let saved = match canvas.clip_rect() {
                        Some(c) => Some(*c),
                        None => None,
                    };
                    let vp = w.viewport(bounds);
                    canvas.set_clip(Some(vp));
                    let ghost c2 = *canvas;
                    let cb = w.child_bounds(bounds);
                    let idle = WidgetState::idle();
                    child.draw(canvas, &cb, idle);
                    let ghost c3 = *canvas;
                    canvas.set_clip(saved);
                    proof {
                        if w.paints_exactly() {
                            assert forall|px: int, py: int| 0 <= px < fw && 0 <= py < fh implies #[trigger] at(
                                canvas.pixels(),
                                fw,
                                px,
                                py,
                            ) == w.paint_px(fw, fh, clip, *bounds, px, py, at(c0.pixels(), fw, px, py)) by {
                                w.lemma_paint(fw, fh, clip, *bounds, px, py, at(c0.pixels(), fw, px, py));
                                assert(at(c1.pixels(), fw, px, py) == w.bar_px(fw, fh, clip, *bounds, px, py, at(c0.pixels(), fw, px, py)));
                                assert(at(c2.pixels(), fw, px, py) == at(c1.pixels(), fw, px, py));
                                assert(at(c3.pixels(), fw, px, py) == child.paint_px(fw, fh, Some(vp), cb, idle, px, py, at(c2.pixels(), fw, px, py)));
                            }
                        }
                    }
                } else {
                    proof {
                        if w.paints_exactly() {
                            assert forall|px: int, py: int| 0 <= px < fw && 0 <= py < fh implies #[trigger] at(
                                canvas.pixels(),
                                fw,
                                px,
                                py,
                            ) == w.paint_px(fw, fh, clip, *bounds, px, py, at(c0.pixels(), fw, px, py)) by {
                                w.lemma_paint(fw, fh, clip, *bounds, px, py, at(c0.pixels(), fw, px, py));
                            }
                        }
                    }
                }
            },
            Widget::VScroll(w) => {
                let ghost fw = canvas.width_spec() as int;
                let ghost fh = canvas.height_spec() as int;
                let ghost clip = canvas.clip_spec();
                let ghost c0 = *canvas;
                w.draw_scrollbar(canvas, bounds, state);
                let ghost c1 = *canvas;
                proof {
                    w.lemma_child_smaller();
                }
                if let Some(child) = w.child() {
                    let saved = match canvas.clip_rect() {
                        Some(c) => Some(*c),
                        None => None,
                    };
                    let vp = w.viewport(bounds);
                    canvas.set_clip(Some(vp));
                    let ghost c2 = *canvas;
                    let cb = w.child_bounds(bounds);
                    let idle = WidgetState::idle();
                    child.draw(canvas, &cb, idle);
                    let ghost c3 = *canvas;
                    canvas.set_clip(saved);
                    proof {
                        if w.paints_exactly() {
                            assert forall|px: int, py: int| 0 <= px < fw && 0 <= py < fh implies #[trigger] at(
                                canvas.pixels(),
                                fw,
                                px,
                                py,
                            ) == w.paint_px(fw, fh, clip, *bounds, state, px, py, at(c0.pixels(), fw, px, py)) by {
                                w.lemma_paint(fw, fh, clip, *bounds, state, px, py, at(c0.pixels(), fw, px, py));
                                assert(at(c1.pixels(), fw, px, py) == w.bar_px(fw, fh, clip, *bounds, state, px, py, at(c0.pixels(), fw, px, py)));
                                assert(at(c2.pixels(), fw, px, py) == at(c1.pixels(), fw, px, py));
                                assert(at(c3.pixels(), fw, px, py) == child.paint_px(fw, fh, Some(vp), cb, idle, px, py, at(c2.pixels(), fw, px, py)));
                            }
                        }
                    }
                } else {
                    proof {
                        if w.paints_exactly() {
                            assert forall|px: int, py: int| 0 <= px < fw && 0 <= py < fh implies #[trigger] at(
                                canvas.pixels(),
                                fw,
                                px,
                                py,
                            ) == w.paint_px(fw, fh, clip, *bounds, state, px, py, at(c0.pixels(), fw, px, py)) by {
                                w.lemma_paint(fw, fh, clip, *bounds, state, px, py, at(c0.pixels(), fw, px, py));
                            }
                        }
                    }
                }
            },
        }
        proof {
            let w0 = old(canvas).width_spec() as int;
            if self.paints_exactly() {
                assert forall|px: int, py: int|
                    0 <= px < old(canvas).width_spec() && 0 <= py < old(canvas).height_spec() implies #[trigger] at(
                        canvas.pixels(),
                        w0,
                        px,
                        py,
                    ) == self.paint_px(
                        w0,
                        old(canvas).height_spec() as int,
                        old(canvas).clip_spec(),
                        *bounds,
                        state,
                        px,
                        py,
                        at(old(canvas).pixels(), w0, px, py),
                    ) by {}
            }
        }
    }
}

} // verus!
