use vstd::prelude::*;

verus! {

/// Skin metadata.
#[derive(Debug)]
pub struct SkinMeta {
    pub name: String,
    pub author: String,
    pub version: String,
}

/// The window a skin asks for.
#[derive(Debug, Clone, Copy, PartialEq, Eq, Structural)]
pub struct SkinWindow {
    pub width: u32,
    pub height: u32,
    pub resizable: bool,
}

/// The three state images of a button, as asset keys.
#[derive(Debug)]
pub struct PartDraw {
    pub normal: String,
    pub hover: String,
    pub pressed: String,
}

/// The state images of a text input, as asset keys.
#[derive(Debug)]
pub struct TextInputDraw {
    pub normal: String,
    pub hover: String,
    pub focused: String,
    pub invalid: Option<String>,
}

/// The scrollbar of a scroll container, as asset keys.
#[derive(Debug)]
pub struct ScrollbarDraw {
    pub width: u32,
    pub track: String,
    pub thumb: String,
}

/// The images of a directory picker, as asset keys.
#[derive(Debug)]
pub struct DirectoryPickerDraw {
    pub normal: String,
    pub hover: String,
    pub button_normal: String,
    pub button_hover: String,
}

/// The images of a file picker, as asset keys.
#[derive(Debug)]
pub struct FilePickerDraw {
    pub picker_normal: String,
    pub picker_hover: String,
    pub picker_btn_normal: String,
    pub picker_btn_hover: String,
    pub track: String,
    pub thumb: String,
    pub item_normal: String,
    pub item_hover: String,
    pub item_selected: String,
}

/// How a part is hit.
#[derive(Debug)]
pub struct PartHit {
    pub hit_type: HitType,
}

/// The shape of a hit region.
#[derive(Debug, Clone, Copy, PartialEq, Eq, Structural)]
pub enum HitType {
    Rect,
}

/// Horizontal text alignment.
#[derive(Debug, Clone, Copy, PartialEq, Eq, Structural)]
pub enum TextAlign {
    Left,
    Center,
    Right,
}

/// Vertical text alignment.
#[derive(Debug, Clone, Copy, PartialEq, Eq, Structural)]
pub enum VerticalAlign {
    Top,
    Center,
    Bottom,
}

/// The variant of a part, which decides the widget built for it.
#[derive(Debug)]
pub enum PartType {
    Image { asset: String },
    Button,
    TextInput,
    StaticText,
    VScrollContainer,
    DirectoryPicker,
    FilePicker,
}

/// Which characters a text input accepts, on top of printable ASCII.
#[derive(Debug)]
pub enum TextValidation {
    /// Any printable ASCII character.
    Any,
    /// Digits `0`-`9`.
    Numeric,
    /// Letters `a`-`z`, `A`-`Z`.
    Alpha,
    /// Letters and digits.
    Alphanumeric,
    /// Exactly the characters of the given string.
    Pattern(String),
}

/// One part of a skin: a widget with its geometry, z-order, assets and bindings.
#[derive(Debug)]
pub struct SkinPart {
    pub id: String,
    pub part_type: PartType,
    pub x: i32,
    pub y: i32,
    pub width: u32,
    pub height: u32,
    pub z: i32,
    pub draw: Option<PartDraw>,
    pub text_input_draw: Option<TextInputDraw>,
    pub directory_picker_draw: Option<DirectoryPickerDraw>,
    pub file_picker_draw: Option<FilePickerDraw>,
    pub scrollbar: Option<ScrollbarDraw>,
    pub hit: Option<PartHit>,
    pub action: Option<String>,
    pub text_color: Option<u32>,
    pub padding: Option<u32>,
    /// The font size in pixels, as the bit pattern of an IEEE-754 single.
    pub font_size_bits: Option<u32>,
    pub max_length: Option<u32>,
    pub validation: Option<TextValidation>,
    pub content: Option<String>,
    pub text_align: Option<TextAlign>,
    pub vertical_align: Option<VerticalAlign>,
    pub binding: Option<String>,
    pub content_height: Option<u32>,
    pub child: Option<Box<SkinPart>>,
    pub filter: Option<String>,
    pub on_select: Option<String>,
}

impl SkinPart {
    /// A part of the given type and geometry with every optional section absent.
    pub fn new(id: String, part_type: PartType, x: i32, y: i32, width: u32, height: u32, z: i32) -> (r: Self)
        ensures
            r.id == id,
            r.part_type == part_type,
            r.x == x && r.y == y && r.width == width && r.height == height && r.z == z,
            r.draw is None && r.text_input_draw is None && r.scrollbar is None,
            r.action is None && r.binding is None && r.content is None && r.child is None,
    {
        SkinPart {
            id,
            part_type,
            x,
            y,
            width,
            height,
            z,
            draw: None,
            text_input_draw: None,
            directory_picker_draw: None,
            file_picker_draw: None,
            scrollbar: None,
            hit: None,
            action: None,
            text_color: None,
            padding: None,
            font_size_bits: None,
            max_length: None,
            validation: None,
            content: None,
            text_align: None,
            vertical_align: None,
            binding: None,
            content_height: None,
            child: None,
            filter: None,
            on_select: None,
        }
    }
}

/// A skin description: metadata, window, asset paths by key, and parts.
#[derive(Debug)]
pub struct Skin {
    pub meta: SkinMeta,
    pub window: SkinWindow,
    pub assets: Vec<(String, String)>,
    pub parts: Vec<SkinPart>,
}

/// Why a skin could not be built.
#[derive(Debug)]
pub enum SkinError {
    /// An asset key that the skin's assets do not hold.
    AssetNotFound(String),
    /// A part lacks the draw section its variant requires; holds the part id.
    MissingDrawSection(String),
    /// A part type this library cannot build.
    InvalidPartType(String),
}

/// The content of a `SkinError`.
pub enum SkinErrorView {
    AssetNotFound(Seq<char>),
    MissingDrawSection(Seq<char>),
    InvalidPartType(Seq<char>),
}

impl View for SkinError {
    type V = SkinErrorView;

    open spec fn view(&self) -> SkinErrorView {
        match self {
            SkinError::AssetNotFound(k) => SkinErrorView::AssetNotFound(k@),
            SkinError::MissingDrawSection(k) => SkinErrorView::MissingDrawSection(k@),
            SkinError::InvalidPartType(k) => SkinErrorView::InvalidPartType(k@),
        }
    }
}

} // verus!
