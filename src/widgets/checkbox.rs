use vstd::prelude::*;
use crate::canvas::{painted, Canvas};
use crate::image::blit_px;
use crate::image::Image;
use crate::rect::Rect;
use crate::widget::WidgetState;
use crate::widget::WidgetEvent;

verus! {

/// A two-state checkbox drawn from a checked and an unchecked image, with an
/// optional label and store binding.
pub struct Checkbox {
    unchecked: Image,
    checked: Image,
    width: u32,
    height: u32,
    is_checked: bool,
    label: Option<String>,
    text_color: u32,
    font_size_bits: Option<u32>,
    padding: u32,
    binding: Option<String>,
    action: Option<String>,
    dirty: bool,
}

impl Checkbox {
    pub closed spec fn wf(&self) -> bool {
        self.unchecked.wf() && self.checked.wf()
    }

    pub closed spec fn checked_spec(&self) -> bool {
        self.is_checked
    }

    pub closed spec fn dirty_spec(&self) -> bool {
        self.dirty
    }

    pub closed spec fn binding_spec(&self) -> Option<Seq<char>> {
        match self.binding {
            Some(b) => Some(b@),
            None => None,
        }
    }

    /// An unchecked box sized to its unchecked image.
    pub fn new(unchecked: Image, checked: Image) -> (r: Self)
        requires
            unchecked.wf(),
            checked.wf(),
        ensures
            r.wf(),
            r.images_spec() == (unchecked, checked),
            !r.checked_spec(),
            !r.dirty_spec(),
            r.binding_spec() is None,
    {
        let width = unchecked.width();
        let height = unchecked.height();
        Checkbox {
            unchecked,
            checked,
            width,
            height,
            is_checked: false,
            label: None,
            text_color: 0xDDDDDD,
            font_size_bits: None,
            padding: 8,
            binding: None,
            action: None,
            dirty: false,
        }
    }

    pub fn with_label(self, label: String) -> (r: Self)
        ensures
            r.wf() == self.wf(),
            r.checked_spec() == self.checked_spec(),
            r.dirty_spec() == self.dirty_spec(),
            r.binding_spec() == self.binding_spec(),
    {
        Checkbox { label: Some(label), ..self }
    }

    pub fn with_text_color(self, color: u32) -> (r: Self)
        ensures
            r.wf() == self.wf(),
            r.checked_spec() == self.checked_spec(),
            r.dirty_spec() == self.dirty_spec(),
            r.binding_spec() == self.binding_spec(),
    {
        Checkbox { text_color: color, ..self }
    }

    /// Sets the label's font size, given as the bit pattern of an IEEE-754 single.
    pub fn with_font_size_bits(self, bits: u32) -> (r: Self)
        ensures
            r.wf() == self.wf(),
            r.checked_spec() == self.checked_spec(),
            r.dirty_spec() == self.dirty_spec(),
            r.binding_spec() == self.binding_spec(),
    {
        Checkbox { font_size_bits: Some(bits), ..self }
    }

    pub fn with_padding(self, padding: u32) -> (r: Self)
        ensures
            r.wf() == self.wf(),
            r.checked_spec() == self.checked_spec(),
            r.dirty_spec() == self.dirty_spec(),
            r.binding_spec() == self.binding_spec(),
    {
        Checkbox { padding, ..self }
    }

    pub fn with_binding(self, binding: String) -> (r: Self)
        ensures
            r.wf() == self.wf(),
            r.checked_spec() == self.checked_spec(),
            r.dirty_spec() == self.dirty_spec(),
            r.binding_spec() == Some(binding@),
    {
        Checkbox { binding: Some(binding), ..self }
    }

    /// Sets the initial state; this is not a change to report.
    pub fn with_checked(self, checked: bool) -> (r: Self)
        ensures
            r.wf() == self.wf(),
            r.checked_spec() == checked,
            r.dirty_spec() == self.dirty_spec(),
            r.binding_spec() == self.binding_spec(),
    {
        Checkbox { is_checked: checked, ..self }
    }

    pub fn with_action(self, action: String) -> (r: Self)
        ensures
            r.wf() == self.wf(),
            r.checked_spec() == self.checked_spec(),
            r.dirty_spec() == self.dirty_spec(),
            r.binding_spec() == self.binding_spec(),
    {
        Checkbox { action: Some(action), ..self }
    }

    pub fn action(&self) -> Option<&str> {
        match &self.action {
            Some(a) => Some(a.as_str()),
            None => None,
        }
    }

    pub fn binding(&self) -> (r: Option<&str>)
        ensures
            match r {
                Some(b) => self.binding_spec() == Some(b@),
                None => self.binding_spec() is None,
            },
    {
        match &self.binding {
            Some(b) => Some(b.as_str()),
            None => None,
        }
    }

    pub fn is_dirty(&self) -> (r: bool)
        ensures
            r == self.dirty_spec(),
    {
        self.dirty
    }

    pub fn clear_dirty(&mut self)
        ensures
            !final(self).dirty_spec(),
            final(self).checked_spec() == old(self).checked_spec(),
            final(self).binding_spec() == old(self).binding_spec(),
            final(self).wf() == old(self).wf(),
    {
        self.dirty = false;
    }

    pub fn is_checked(&self) -> (r: bool)
        ensures
            r == self.checked_spec(),
    {
        self.is_checked
    }

    /// Sets the state; a real change marks the box dirty.
    pub fn set_checked(&mut self, checked: bool)
        ensures
            final(self).checked_spec() == checked,
            final(self).dirty_spec() == (old(self).dirty_spec() || old(self).checked_spec()
                != checked),
            final(self).binding_spec() == old(self).binding_spec(),
            final(self).wf() == old(self).wf(),
    {
        if self.is_checked != checked {
            self.is_checked = checked;
            self.dirty = true;
        }
    }

    /// Flips the state and marks the box dirty.
    pub fn toggle(&mut self)
        ensures
            final(self).checked_spec() == !old(self).checked_spec(),
            final(self).dirty_spec(),
            final(self).binding_spec() == old(self).binding_spec(),
            final(self).wf() == old(self).wf(),
    {
        self.is_checked = !self.is_checked;
        self.dirty = true;
    }

    /// The natural size: that of the normal (unchecked) image.
    pub closed spec fn size_spec(&self) -> (u32, u32) {
        (self.width, self.height)
    }

    pub fn preferred_size(&self) -> (r: (u32, u32))
        ensures
            r == self.size_spec(),
    {
        (self.width, self.height)
    }

    pub fn label(&self) -> Option<&str> {
        match &self.label {
            Some(l) => Some(l.as_str()),
            None => None,
        }
    }

    pub fn text_color(&self) -> u32 {
        self.text_color
    }

    /// The label's font size, as the bit pattern of an IEEE-754 single, if one was set.
    pub fn font_size_bits(&self) -> Option<u32> {
        self.font_size_bits
    }

    pub fn padding(&self) -> u32 {
        self.padding
    }

    /// The width of the image for the current state.
    pub fn box_width(&self) -> u32 {
        if self.is_checked {
            self.checked.width()
        } else {
            self.unchecked.width()
        }
    }

    /// A click toggles the box and is consumed; nothing else is.
    pub fn on_event(&mut self, event: &WidgetEvent) -> (r: bool)
        ensures
            r == (*event is Click),
            r ==> final(self).checked_spec() == !old(self).checked_spec() && final(self).dirty_spec(),
            !r ==> final(self).checked_spec() == old(self).checked_spec() && final(self).dirty_spec()
                == old(self).dirty_spec(),
            final(self).binding_spec() == old(self).binding_spec(),
            final(self).wf() == old(self).wf(),
    {
        match event {
            WidgetEvent::Click => {
                self.toggle();
                true
            },
            _ => false,
        }
    }

    /// A pixel after the box is drawn at `bounds`: the image for its state,
    /// centred vertically, copied and cut to the bounds.
    /// The unchecked and checked images.
    pub closed spec fn images_spec(&self) -> (Image, Image) {
        (self.unchecked, self.checked)
    }

    pub open spec fn paint_px(
        &self,
        fw: int,
        fh: int,
        clip: Option<Rect>,
        bounds: Rect,
        state: WidgetState,
        px: int,
        py: int,
        v: u32,
    ) -> u32 {
        {
        let img = if self.checked_spec() { self.images_spec().1 } else { self.images_spec().0 };
        let h = img.height_spec();
        let offset: int = if bounds.height > h { (bounds.height - h) as int / 2 } else { 0 };
        let y = bounds.y + offset;
        if y <= i32::MAX {
            blit_px(img, bounds.x as int, y, Some(bounds), fw, fh, clip, px, py, v)
        } else {
            v
        }
    }
    }

    /// Draws the image for the current state, centred vertically in the bounds.
    pub fn draw(&self, canvas: &mut Canvas, bounds: &Rect)
        requires
            self.wf(),
            old(canvas).wf(),
        ensures
            old(canvas).same_frame(&*final(canvas)),
            painted(
                *old(canvas),
                *final(canvas),
                |px: int, py: int, v: u32|
                    self.paint_px(
                        old(canvas).width_spec() as int,
                        old(canvas).height_spec() as int,
                        old(canvas).clip_spec(),
                        *bounds,
                        WidgetState { hovered: false, pressed: false, focused: false },
                        px,
                        py,
                        v,
                    ),
            ),
    {
        let image = if self.is_checked {
            &self.checked
        } else {
            &self.unchecked
        };
        let h = image.height();
        let offset: u32 = if bounds.height > h {
            (bounds.height - h) / 2
        } else {
            0
        };
        let y = bounds.y as i64 + offset as i64;
        if y <= i32::MAX as i64 {
            image.blit(canvas, bounds.x, y as i32, Some(*bounds));
        }
    }
}

} // verus!
