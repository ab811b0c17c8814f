pub mod button;
pub mod checkbox;
pub mod container;
pub mod image_widget;
pub mod skin_button;
pub mod skin_image;
pub mod skin_vscroll;
pub mod static_text;
pub mod text_input;
pub mod vscroll_container;
