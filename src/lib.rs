pub mod action;
pub mod bundle;
pub mod canvas;
pub mod image;
pub mod rect;
pub mod session;
pub mod skin;
pub mod store;
pub mod text;
pub mod sync;
pub mod tree;
pub mod widget;
pub mod widgets;

pub use crate::rect::Rect;
pub use crate::tree::{Node, NodeId, UiTree};
pub use crate::widget::{KeyCode, Widget, WidgetEvent, WidgetState};
pub use crate::widgets::container::Container;
pub use crate::store::{Store, Value, ValueView};
pub use crate::action::{chain_step, settle, Action, ActionDispatcher, ActionError, ActionHandler, Services};
pub use crate::canvas::Canvas;
pub use crate::image::Image;
pub use crate::skin::types::{
    DirectoryPickerDraw, FilePickerDraw, HitType, PartDraw, PartHit, PartType, ScrollbarDraw, Skin,
    SkinError, SkinMeta, SkinPart,
    SkinWindow, TextAlign, TextInputDraw, TextValidation, VerticalAlign,
};
pub use crate::widgets::button::Button;
pub use crate::widgets::checkbox::Checkbox;
pub use crate::widgets::image_widget::ImageWidget;
pub use crate::widgets::skin_button::SkinButton;
pub use crate::widgets::skin_image::SkinImage;
pub use crate::widgets::skin_vscroll::SkinVScroll;
pub use crate::widgets::static_text::StaticText;
pub use crate::widgets::text_input::TextInput;
pub use crate::skin::assets::LoadedSkin;
pub use crate::skin::builder::SkinBuilder;
pub use crate::sync::{sync_inputs_to_store, sync_store_to_outputs};
pub use crate::skin::parse::{convert_part, parse_color, parse_hex_u32, RawPart};
pub use crate::session::{InputEvent, Outcome, Session};
pub use crate::bundle::{AppConfigAdapter, AppMeta, SkinConfig};
pub use crate::text::{draw_caret, text_x, text_y, RunConfig, TextStyle};
pub use crate::widgets::vscroll_container::VScrollContainer;
