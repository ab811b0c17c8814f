use vstd::prelude::*;
use vstd::string::{StrSliceExecFns, StringExecFns};
use crate::canvas::{painted, Canvas};
use crate::image::blit_px;
use crate::image::Image;
use crate::rect::Rect;
use crate::skin::types::TextValidation;
use crate::widget::{KeyCode, WidgetEvent, WidgetState};

verus! {

/// Relies on `String::push`: appends one character.
#[verifier::external_body]
fn push_char(s: &mut String, c: char)
    ensures
        final(s)@ == old(s)@.push(c),
{
    s.push(c)
}

/// `c` is a printable ASCII character, space through tilde.
pub open spec fn printable(c: char) -> bool {
    32 <= c as u32 <= 126
}

/// Whether a text input in the given mode takes the character `c`.
pub open spec fn accepts(mode: TextValidation, c: char) -> bool {
    &&& printable(c)
    &&& match mode {
        TextValidation::Any => true,
        TextValidation::Numeric => '0' <= c <= '9',
        TextValidation::Alpha => ('a' <= c <= 'z') || ('A' <= c <= 'Z'),
        TextValidation::Alphanumeric => ('a' <= c <= 'z') || ('A' <= c <= 'Z') || ('0' <= c <= '9'),
        TextValidation::Pattern(p) => p@.contains(c),
    }
}

/// `s` with `c` put in front of position `i`.
pub open spec fn inserted(s: Seq<char>, i: int, c: char) -> Seq<char> {
    s.subrange(0, i) + seq![c] + s.subrange(i, s.len() as int)
}

/// `s` without the character at position `i`.
pub open spec fn erased(s: Seq<char>, i: int) -> Seq<char> {
    s.subrange(0, i) + s.subrange(i + 1, s.len() as int)
}

/// How a text input reacts to an event, from `before` to `after`, answering
/// `r`: its setup and binding stay; a character is taken exactly when the
/// mode accepts it and there is room, and then goes in at the cursor; the
/// editing keys do what `backspace`, `delete` and the cursor moves do; any
/// other event leaves text, cursor and change flag as they were.
pub open spec fn input_reacts(before: TextInput, after: TextInput, event: WidgetEvent, r: bool) -> bool {
    let t0 = before.text_spec();
    let k0 = before.cursor_spec();
    let t1 = after.text_spec();
    let k1 = after.cursor_spec();
    let same_flag = after.dirty_spec() == before.dirty_spec();
    let unchanged = t1 == t0 && k1 == k0 && same_flag;
    &&& after.same_setup(&before)
    &&& after.binding_spec() == before.binding_spec()
    &&& match event {
        WidgetEvent::CharInput { c } => {
            &&& r == (accepts(before.mode(), c) && match before.max_length_spec() {
                Some(m) => t0.len() < m,
                None => true,
            })
            &&& if r {
                t1 == inserted(t0, k0 as int, c) && k1 == k0 + 1 && after.dirty_spec()
            } else {
                unchanged
            }
        },
        WidgetEvent::KeyDown { key } => r && match key {
            KeyCode::Backspace => if k0 > 0 {
                t1 == erased(t0, k0 - 1) && k1 == k0 - 1 && after.dirty_spec()
            } else {
                unchanged
            },
            KeyCode::Delete => if k0 < t0.len() {
                t1 == erased(t0, k0 as int) && k1 == k0 && after.dirty_spec()
            } else {
                unchanged
            },
            KeyCode::Left => t1 == t0 && same_flag && k1 == (if k0 > 0 { k0 - 1 } else { 0 }),
            KeyCode::Right => t1 == t0 && same_flag && k1 == (if k0 < t0.len() { k0 + 1 } else { k0 }),
            KeyCode::Home => t1 == t0 && same_flag && k1 == 0,
            KeyCode::End => t1 == t0 && same_flag && k1 == t0.len(),
            KeyCode::Enter => unchanged,
        },
        WidgetEvent::MouseMove { .. } => !r && unchanged,
        WidgetEvent::MouseUp { .. } => !r && unchanged,
        WidgetEvent::MouseWheel { .. } => !r && unchanged,
        _ => r && unchanged,
    }
}

/// An editable single line of text with a cursor, drawn over state images.
pub struct TextInput {
    text: String,
    cursor: usize,
    normal: Image,
    hover: Image,
    focused: Image,
    invalid: Option<Image>,
    width: u32,
    height: u32,
    padding: u32,
    text_color: u32,
    caret_color: u32,
    font_size_bits: Option<u32>,
    max_length: Option<u32>,
    validation: TextValidation,
    is_invalid: bool,
    caret_visible: bool,
    on_change_action: Option<String>,
    on_submit_action: Option<String>,
    binding: Option<String>,
    dirty: bool,
}

impl TextInput {
    /// The cursor stays within the text, and the images are whole rasters.
    pub closed spec fn wf(&self) -> bool {
        &&& self.cursor <= self.text@.len()
        &&& self.normal.wf()
        &&& self.hover.wf()
        &&& self.focused.wf()
        &&& (self.invalid is Some ==> self.invalid->Some_0.wf())
    }

    pub closed spec fn text_spec(&self) -> Seq<char> {
        self.text@
    }

    pub closed spec fn cursor_spec(&self) -> nat {
        self.cursor as nat
    }

    pub closed spec fn binding_spec(&self) -> Option<Seq<char>> {
        match self.binding {
            Some(b) => Some(b@),
            None => None,
        }
    }

    pub closed spec fn dirty_spec(&self) -> bool {
        self.dirty
    }

    pub closed spec fn mode(&self) -> TextValidation {
        self.validation
    }

    pub closed spec fn max_length_spec(&self) -> Option<u32> {
        self.max_length
    }

    /// Everything but the text, cursor and dirty flag is as in `other`.
    pub closed spec fn same_setup(&self, other: &TextInput) -> bool {
        &&& self.binding == other.binding
        &&& self.validation == other.validation
        &&& self.max_length == other.max_length
        &&& self.normal == other.normal
        &&& self.hover == other.hover
        &&& self.focused == other.focused
        &&& self.invalid == other.invalid
        &&& self.width == other.width
        &&& self.height == other.height
        &&& self.padding == other.padding
        &&& self.text_color == other.text_color
        &&& self.font_size_bits == other.font_size_bits
        &&& self.on_change_action == other.on_change_action
        &&& self.on_submit_action == other.on_submit_action
    }

    /// A new empty input; its size is that of the normal image.
    pub fn new(normal: Image, hover: Image, focused: Image, invalid: Option<Image>) -> (r: Self)
        requires
            normal.wf(),
            hover.wf(),
            focused.wf(),
            invalid is Some ==> invalid->Some_0.wf(),
        ensures
            r.wf(),
            r.images_spec() == (normal, hover, focused, invalid),
            !r.invalid_spec(),
            r.change_action_spec() is None,
            r.text_spec() == Seq::<char>::empty(),
            r.cursor_spec() == 0,
            r.binding_spec() is None,
            !r.dirty_spec(),
            r.mode() == TextValidation::Any,
            r.max_length_spec() is None,
    {
        let width = normal.width();
        let height = normal.height();
        TextInput {
            text: String::new(),
            cursor: 0,
            normal,
            hover,
            focused,
            invalid,
            width,
            height,
            padding: 4,
            text_color: 0x000000,
            caret_color: 0x000000,
            font_size_bits: None,
            max_length: None,
            validation: TextValidation::Any,
            is_invalid: false,
            caret_visible: true,
            on_change_action: None,
            on_submit_action: None,
            binding: None,
            dirty: false,
        }
    }

    pub fn with_padding(self, padding: u32) -> (r: Self)
        ensures
            r.images_spec() == self.images_spec(),
            r.change_action_spec() == self.change_action_spec(),
            r.text_spec() == self.text_spec() && r.binding_spec() == self.binding_spec()
                && r.dirty_spec() == self.dirty_spec() && r.mode() == self.mode()
                && r.max_length_spec() == self.max_length_spec() && r.cursor_spec()
                == self.cursor_spec(),
            self.wf() ==> r.wf(),
    {
        TextInput { padding, ..self }
    }

    pub fn with_text_color(self, color: u32) -> (r: Self)
        ensures
            r.images_spec() == self.images_spec(),
            r.change_action_spec() == self.change_action_spec(),
            r.text_spec() == self.text_spec() && r.binding_spec() == self.binding_spec()
                && r.dirty_spec() == self.dirty_spec() && r.mode() == self.mode()
                && r.max_length_spec() == self.max_length_spec() && r.cursor_spec()
                == self.cursor_spec(),
            self.wf() ==> r.wf(),
    {
        TextInput { text_color: color, ..self }
    }

    pub fn with_caret_color(self, color: u32) -> (r: Self)
        ensures
            r.images_spec() == self.images_spec(),
            r.change_action_spec() == self.change_action_spec(),
            r.text_spec() == self.text_spec() && r.binding_spec() == self.binding_spec()
                && r.dirty_spec() == self.dirty_spec() && r.mode() == self.mode()
                && r.max_length_spec() == self.max_length_spec() && r.cursor_spec()
                == self.cursor_spec(),
            self.wf() ==> r.wf(),
    {
        TextInput { caret_color: color, ..self }
    }

    pub fn with_on_change(self, action: String) -> (r: Self)
        ensures
            r.images_spec() == self.images_spec(),
            r.change_action_spec() == Some(action@),
            r.text_spec() == self.text_spec() && r.binding_spec() == self.binding_spec()
                && r.dirty_spec() == self.dirty_spec() && r.mode() == self.mode()
                && r.max_length_spec() == self.max_length_spec() && r.cursor_spec()
                == self.cursor_spec(),
            self.wf() ==> r.wf(),
    {
        TextInput { on_change_action: Some(action), ..self }
    }

    pub fn with_on_submit(self, action: String) -> (r: Self)
        ensures
            r.images_spec() == self.images_spec(),
            r.change_action_spec() == self.change_action_spec(),
            r.text_spec() == self.text_spec() && r.binding_spec() == self.binding_spec()
                && r.dirty_spec() == self.dirty_spec() && r.mode() == self.mode()
                && r.max_length_spec() == self.max_length_spec() && r.cursor_spec()
                == self.cursor_spec(),
            self.wf() ==> r.wf(),
    {
        TextInput { on_submit_action: Some(action), ..self }
    }

    /// Sets the font size, given as the bit pattern of an IEEE-754 single.
    pub fn with_font_size_bits(self, bits: u32) -> (r: Self)
        ensures
            r.images_spec() == self.images_spec(),
            r.change_action_spec() == self.change_action_spec(),
            r.text_spec() == self.text_spec() && r.binding_spec() == self.binding_spec()
                && r.dirty_spec() == self.dirty_spec() && r.mode() == self.mode()
                && r.max_length_spec() == self.max_length_spec() && r.cursor_spec()
                == self.cursor_spec(),
            self.wf() ==> r.wf(),
    {
        TextInput { font_size_bits: Some(bits), ..self }
    }

    pub fn with_max_length(self, max: u32) -> (r: Self)
        ensures
            r.images_spec() == self.images_spec(),
            r.change_action_spec() == self.change_action_spec(),
            r.text_spec() == self.text_spec() && r.binding_spec() == self.binding_spec()
                && r.dirty_spec() == self.dirty_spec() && r.mode() == self.mode()
                && r.cursor_spec() == self.cursor_spec(),
            r.max_length_spec() == Some(max),
            self.wf() ==> r.wf(),
    {
        TextInput { max_length: Some(max), ..self }
    }

    pub fn with_validation(self, validation: TextValidation) -> (r: Self)
        ensures
            r.images_spec() == self.images_spec(),
            r.change_action_spec() == self.change_action_spec(),
            r.text_spec() == self.text_spec() && r.binding_spec() == self.binding_spec()
                && r.dirty_spec() == self.dirty_spec() && r.max_length_spec()
                == self.max_length_spec() && r.cursor_spec() == self.cursor_spec(),
            r.mode() == validation,
            self.wf() ==> r.wf(),
    {
        TextInput { validation, ..self }
    }

    /// Binds the input to a store key.
    pub fn with_binding(self, binding: String) -> (r: Self)
        ensures
            r.images_spec() == self.images_spec(),
            r.change_action_spec() == self.change_action_spec(),
            r.text_spec() == self.text_spec() && r.dirty_spec() == self.dirty_spec() && r.mode()
                == self.mode() && r.max_length_spec() == self.max_length_spec() && r.cursor_spec()
                == self.cursor_spec(),
            r.binding_spec() == Some(binding@),
            self.wf() ==> r.wf(),
    {
        TextInput { binding: Some(binding), ..self }
    }

    pub fn binding(&self) -> (r: Option<&str>)
        ensures
            match r {
                Some(b) => self.binding_spec() == Some(b@),
                None => self.binding_spec() is None,
            },
    {
        match &self.binding {
            Some(b) => Some(b.as_str()),
            None => None,
        }
    }

    /// Whether the text changed since the flag was last cleared.
    pub fn is_dirty(&self) -> (r: bool)
        ensures
            r == self.dirty_spec(),
    {
        self.dirty
    }

    pub fn clear_dirty(&mut self)
        ensures
            !final(self).dirty_spec(),
            final(self).binding_spec() == old(self).binding_spec(),
            final(self).text_spec() == old(self).text_spec(),
            final(self).cursor_spec() == old(self).cursor_spec(),
            final(self).same_setup(&*old(self)),
            old(self).wf() ==> final(self).wf(),
    {
        self.dirty = false;
    }

    pub fn text(&self) -> (r: &str)
        ensures
            r@ == self.text_spec(),
    {
        self.text.as_str()
    }

    /// Replaces the text; the cursor moves back to its end if it was beyond it.
    pub fn set_text(&mut self, text: String)
        ensures
            final(self).text_spec() == text@,
            final(self).cursor_spec() == if old(self).cursor_spec() <= text@.len() {
                old(self).cursor_spec()
            } else {
                text@.len()
            },
            final(self).dirty_spec() == old(self).dirty_spec(),
            final(self).same_setup(&*old(self)),
            old(self).wf() ==> final(self).wf(),
    {
        let n = text.as_str().unicode_len();
        self.text = text;
        if self.cursor > n {
            self.cursor = n;
        }
    }

    pub fn set_invalid(&mut self, invalid: bool)
        ensures
            final(self).text_spec() == old(self).text_spec(),
            final(self).cursor_spec() == old(self).cursor_spec(),
            final(self).dirty_spec() == old(self).dirty_spec(),
            final(self).same_setup(&*old(self)),
            old(self).wf() ==> final(self).wf(),
    {
        self.is_invalid = invalid;
    }

    pub fn is_invalid(&self) -> bool {
        self.is_invalid
    }

    pub fn on_change_action(&self) -> Option<&str> {
        match &self.on_change_action {
            Some(a) => Some(a.as_str()),
            None => None,
        }
    }

    pub fn on_submit_action(&self) -> Option<&str> {
        match &self.on_submit_action {
            Some(a) => Some(a.as_str()),
            None => None,
        }
    }

    /// Whether the input's validation mode takes `c`.
    pub fn validate_char(&self, c: char) -> (r: bool)
        ensures
            r == accepts(self.mode(), c),
    {
        let code = c as u32;
        if code < 32 || code > 126 {
            return false;
        }
        match &self.validation {
            TextValidation::Any => true,
            TextValidation::Numeric => '0' <= c && c <= '9',
            TextValidation::Alpha => ('a' <= c && c <= 'z') || ('A' <= c && c <= 'Z'),
            TextValidation::Alphanumeric => ('a' <= c && c <= 'z') || ('A' <= c && c <= 'Z') || (
            '0' <= c && c <= '9'),
            TextValidation::Pattern(p) => {
                let n = p.as_str().unicode_len();
                let mut i: usize = 0;
                while i < n
                    invariant
                        0 <= i <= n,
                        n == p@.len(),
                        printable(c),
                        self.validation == TextValidation::Pattern(*p),
                        forall|j: int| 0 <= j < i ==> p@[j] != c,
                    decreases n - i,
                {
                    if p.as_str().get_char(i) == c {
                        assert(p@[i as int] == c);
                        assert(p@.contains(c));
                        assert(printable(c));
                        return true;
                    }
                    i += 1;
                }
                false
            },
        }
    }

    /// `text` with `c` inserted before character `at`.
    fn spliced(text: &String, at: usize, c: char) -> (r: String)
        requires
            at <= text@.len(),
        ensures
            r@ == inserted(text@, at as int, c),
    {
        let n = text.as_str().unicode_len();
        let mut s = String::from_str(text.as_str().substring_char(0, at));
        push_char(&mut s, c);
        s.append(text.as_str().substring_char(at, n));
        s
    }

    /// `text` without character `at`.
    fn cut(text: &String, at: usize) -> (r: String)
        requires
            at < text@.len(),
        ensures
            r@ == erased(text@, at as int),
    {
        let n = text.as_str().unicode_len();
        let mut s = String::from_str(text.as_str().substring_char(0, at));
        s.append(text.as_str().substring_char(at + 1, n));
        s
    }

    /// Inserts `c` at the cursor unless the input is full or the mode refuses
    /// it; says whether the text changed.
    pub fn insert_char(&mut self, c: char) -> (r: bool)
        requires
            old(self).wf(),
        ensures
            final(self).wf(),
            final(self).same_setup(&*old(self)),
            r == (accepts(old(self).mode(), c) && match old(self).max_length_spec() {
                Some(m) => old(self).text_spec().len() < m,
                None => true,
            }),
            r ==> final(self).text_spec() == inserted(
                old(self).text_spec(),
                old(self).cursor_spec() as int,
                c,
            ) && final(self).cursor_spec() == old(self).cursor_spec() + 1 && final(self).dirty_spec(),
            !r ==> final(self).text_spec() == old(self).text_spec() && final(self).cursor_spec()
                == old(self).cursor_spec() && final(self).dirty_spec() == old(self).dirty_spec(),
    {
        if let Some(max) = self.max_length {
            if self.text.as_str().unicode_len() >= max as usize {
                return false;
            }
        }
        if !self.validate_char(c) {
            return false;
        }
        let before = self.text.as_str().unicode_len();
        let next = TextInput::spliced(&self.text, self.cursor, c);
        let after = next.as_str().unicode_len();
        self.text = next;
        // The cursor keeps its distance from the end, which puts it just past `c`.
        self.cursor = after - (before - self.cursor);
        self.dirty = true;
        self.caret_visible = true;
        true
    }

    /// Deletes the character before the cursor; says whether the text changed.
    pub fn backspace(&mut self) -> (r: bool)
        requires
            old(self).wf(),
        ensures
            final(self).wf(),
            final(self).same_setup(&*old(self)),
            r == (old(self).cursor_spec() > 0),
            r ==> final(self).text_spec() == erased(
                old(self).text_spec(),
                old(self).cursor_spec() - 1,
            ) && final(self).cursor_spec() == old(self).cursor_spec() - 1 && final(self).dirty_spec(),
            !r ==> final(self).text_spec() == old(self).text_spec() && final(self).cursor_spec()
                == old(self).cursor_spec() && final(self).dirty_spec() == old(self).dirty_spec(),
    {
        if self.cursor > 0 {
            self.cursor = self.cursor - 1;
            let next = TextInput::cut(&self.text, self.cursor);
            self.text = next;
            self.dirty = true;
            self.caret_visible = true;
            return true;
        }
        false
    }

    /// Deletes the character at the cursor; says whether the text changed.
    pub fn delete(&mut self) -> (r: bool)
        requires
            old(self).wf(),
        ensures
            final(self).wf(),
            final(self).same_setup(&*old(self)),
            r == (old(self).cursor_spec() < old(self).text_spec().len()),
            r ==> final(self).text_spec() == erased(
                old(self).text_spec(),
                old(self).cursor_spec() as int,
            ) && final(self).dirty_spec(),
            !r ==> final(self).text_spec() == old(self).text_spec() && final(self).dirty_spec()
                == old(self).dirty_spec(),
            final(self).cursor_spec() == old(self).cursor_spec(),
    {
        let n = self.text.as_str().unicode_len();
        if self.cursor < n {
            let next = TextInput::cut(&self.text, self.cursor);
            self.text = next;
            self.dirty = true;
            self.caret_visible = true;
            return true;
        }
        false
    }

    /// Moves the cursor one character left, if it can.
    pub fn move_left(&mut self)
        requires
            old(self).wf(),
        ensures
            final(self).wf(),
            final(self).same_setup(&*old(self)),
            final(self).text_spec() == old(self).text_spec(),
            final(self).dirty_spec() == old(self).dirty_spec(),
            final(self).cursor_spec() == if old(self).cursor_spec() > 0 {
                old(self).cursor_spec() - 1
            } else {
                0
            },
    {
        if self.cursor > 0 {
            self.cursor = self.cursor - 1;
            self.caret_visible = true;
        }
    }

    /// Moves the cursor one character right, if it can.
    pub fn move_right(&mut self)
        requires
            old(self).wf(),
        ensures
            final(self).wf(),
            final(self).same_setup(&*old(self)),
            final(self).text_spec() == old(self).text_spec(),
            final(self).dirty_spec() == old(self).dirty_spec(),
            final(self).cursor_spec() == if old(self).cursor_spec() < old(self).text_spec().len() {
                old(self).cursor_spec() + 1
            } else {
                old(self).cursor_spec()
            },
    {
        let n = self.text.as_str().unicode_len();
        if self.cursor < n {
            self.cursor = self.cursor + 1;
            self.caret_visible = true;
        }
    }

    /// Moves the cursor to the start of the text.
    pub fn move_home(&mut self)
        requires
            old(self).wf(),
        ensures
            final(self).wf(),
            final(self).same_setup(&*old(self)),
            final(self).text_spec() == old(self).text_spec(),
            final(self).dirty_spec() == old(self).dirty_spec(),
            final(self).cursor_spec() == 0,
    {
        self.cursor = 0;
        self.caret_visible = true;
    }

    /// Moves the cursor to the end of the text.
    pub fn move_end(&mut self)
        requires
            old(self).wf(),
        ensures
            final(self).wf(),
            final(self).same_setup(&*old(self)),
            final(self).text_spec() == old(self).text_spec(),
            final(self).dirty_spec() == old(self).dirty_spec(),
            final(self).cursor_spec() == old(self).text_spec().len(),
    {
        self.cursor = self.text.as_str().unicode_len();
        self.caret_visible = true;
    }

    /// Handles an event: characters and editing keys change the text, focus
    /// changes show or hide the caret. Says whether the event was consumed
    /// (for a character: whether it was taken).
    pub fn on_event(&mut self, event: &WidgetEvent) -> (r: bool)
        requires
            old(self).wf(),
        ensures
            final(self).wf(),
            input_reacts(*old(self), *final(self), *event, r),
    {
        match event {
            WidgetEvent::CharInput { c } => self.insert_char(*c),
            WidgetEvent::KeyDown { key } => {
                match key {
                    KeyCode::Backspace => {
                        self.backspace();
                    },
                    KeyCode::Delete => {
                        self.delete();
                    },
                    KeyCode::Left => self.move_left(),
                    KeyCode::Right => self.move_right(),
                    KeyCode::Home => self.move_home(),
                    KeyCode::End => self.move_end(),
                    KeyCode::Enter => {},
                }
                true
            },
            WidgetEvent::FocusGained => {
                self.caret_visible = true;
                true
            },
            WidgetEvent::FocusLost => {
                self.caret_visible = false;
                true
            },
            WidgetEvent::Click => true,
            WidgetEvent::MouseDown { .. } => true,
            _ => false,
        }
    }

    /// The natural size: that of the normal (unchecked) image.
    pub closed spec fn size_spec(&self) -> (u32, u32) {
        (self.width, self.height)
    }

    pub fn preferred_size(&self) -> (r: (u32, u32))
        ensures
            r == self.size_spec(),
    {
        (self.width, self.height)
    }

    /// The cursor's position, in characters from the start.
    pub fn cursor(&self) -> (r: usize)
        ensures
            r == self.cursor_spec(),
    {
        self.cursor
    }

    pub fn caret_visible(&self) -> bool {
        self.caret_visible
    }

    pub fn padding(&self) -> u32 {
        self.padding
    }

    pub fn text_color(&self) -> u32 {
        self.text_color
    }

    pub fn caret_color(&self) -> u32 {
        self.caret_color
    }

    /// The font size, as the bit pattern of an IEEE-754 single, if one was set.
    pub fn font_size_bits(&self) -> Option<u32> {
        self.font_size_bits
    }

    /// A pixel after the input's background is drawn at `bounds` in `state`:
    /// the invalid image when marked invalid and present, else the focused,
    /// hover or normal one, copied and cut to the bounds.
    /// The normal, hover, focused and invalid images.
    pub closed spec fn images_spec(&self) -> (Image, Image, Image, Option<Image>) {
        (self.normal, self.hover, self.focused, self.invalid)
    }

    /// The action a change names, if any.
    pub closed spec fn change_action_spec(&self) -> Option<Seq<char>> {
        match self.on_change_action {
            Some(a) => Some(a@),
            None => None,
        }
    }

    /// Whether the input is marked invalid.
    pub closed spec fn invalid_spec(&self) -> bool {
        self.is_invalid
    }

    pub open spec fn paint_px(
        &self,
        fw: int,
        fh: int,
        clip: Option<Rect>,
        bounds: Rect,
        state: WidgetState,
        px: int,
        py: int,
        v: u32,
    ) -> u32 {
        blit_px(if self.invalid_spec() && self.images_spec().3 is Some { self.images_spec().3->Some_0 } else if state.focused { self.images_spec().2 } else if state.hovered { self.images_spec().1 } else { self.images_spec().0 }, bounds.x as int, bounds.y as int, Some(bounds), fw, fh, clip, px, py, v)
    }

    /// Draws the background for the current state: the invalid image when
    /// marked invalid and one is given, else focused, hovered or normal.
    pub fn draw(&self, canvas: &mut Canvas, bounds: &Rect, state: WidgetState)
        requires
            self.wf(),
            old(canvas).wf(),
        ensures
            old(canvas).same_frame(&*final(canvas)),
            painted(
                *old(canvas),
                *final(canvas),
                |px: int, py: int, v: u32|
                    self.paint_px(
                        old(canvas).width_spec() as int,
                        old(canvas).height_spec() as int,
                        old(canvas).clip_spec(),
                        *bounds,
                        state,
                        px,
                        py,
                        v,
                    ),
            ),
    {
        let image = if self.is_invalid && self.invalid.is_some() {
            match &self.invalid {
                Some(i) => i,
                None => &self.normal,
            }
        } else if state.focused {
            &self.focused
        } else if state.hovered {
            &self.hover
        } else {
            &self.normal
        };
        image.blit(canvas, bounds.x, bounds.y, Some(*bounds));
    }
}

} // verus!
