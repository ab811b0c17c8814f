use crix::{text_x, text_y, TextAlign, VerticalAlign};
use crix::{Button, Canvas, Checkbox, Image, Rect, WidgetEvent, WidgetState};

#[test]
fn set_pixel_respects_size_and_clip() {
    let mut c = Canvas::filled(4, 3, 0);
    c.set_pixel(1, 2, 9);
    c.set_pixel(4, 0, 9);
    assert_eq!(c.buffer()[2 * 4 + 1], 9);
    assert_eq!(c.buffer().iter().filter(|&&p| p == 9).count(), 1);
    c.set_clip(Some(Rect::new(0, 0, 1, 1)));
    c.set_pixel(2, 2, 5);
    assert_eq!(c.buffer()[2 * 4 + 2], 0);
    c.set_pixel_rgb(0, 0, 1, 2, 3);
    assert_eq!(c.buffer()[0], 0x010203);
}

#[test]
fn fill_rect_is_cut_to_canvas() {
    let mut c = Canvas::filled(4, 4, 0);
    c.fill_rect(2, 2, 10, 10, 7);
    let filled: Vec<usize> = (0..16).filter(|&i| c.buffer()[i] == 7).collect();
    assert_eq!(filled, vec![10, 11, 14, 15]);
    c.clear(1);
    assert!(c.buffer().iter().all(|&p| p == 1));
}

#[test]
fn image_packs_rgb_and_blits() {
    let img = Image::from_rgb(2, 1, &[255, 0, 0, 0, 0, 255]).unwrap();
    assert!(Image::from_rgb(2, 2, &[0; 5]).is_none());
    let mut c = Canvas::filled(3, 2, 0);
    img.blit(&mut c, 1, 1, None);
    assert_eq!(c.buffer()[3 + 1], 0xFF0000);
    assert_eq!(c.buffer()[3 + 2], 0x0000FF);
    let mut d = Canvas::filled(3, 2, 0);
    img.blit(&mut d, 1, 1, Some(Rect::new(0, 0, 2, 2)));
    assert_eq!(d.buffer()[3 + 2], 0);
}

#[test]
fn button_colors_by_state() {
    let b = Button::new(5, 5).with_hover_color(1).with_pressed_color(2).with_color(3);
    let idle = WidgetState { hovered: false, pressed: false, focused: false };
    let hover = WidgetState { hovered: true, pressed: false, focused: false };
    let press = WidgetState { hovered: true, pressed: true, focused: false };
    assert_eq!(b.color_for(idle), 3);
    assert_eq!(b.color_for(hover), 1);
    assert_eq!(b.color_for(press), 2);
    let mut c = Canvas::filled(3, 3, 0);
    b.draw(&mut c, &Rect::new(-1, -1, 2, 2), press);
    assert_eq!(c.buffer()[0], 2);
    assert_eq!(c.buffer()[1], 0);
}

#[test]
fn checkbox_toggles_on_click() {
    let img = Image::from_rgb(1, 1, &[0, 0, 0]).unwrap();
    let mut cb = Checkbox::new(img.duplicate(), img).with_binding("opt".to_string());
    assert!(!cb.is_checked());
    assert!(cb.on_event(&WidgetEvent::Click));
    assert!(cb.is_checked() && cb.is_dirty());
    cb.clear_dirty();
    cb.set_checked(true);
    assert!(!cb.is_dirty());
    assert!(!cb.on_event(&WidgetEvent::FocusLost));
}

#[test]
fn clear_respects_the_clip() {
    let mut c = Canvas::filled(3, 1, 0);
    c.set_clip(Some(Rect::new(1, 0, 1, 1)));
    c.clear(5);
    assert_eq!(c.buffer(), &[0, 5, 0]);
    c.set_clip(Some(Rect::new(0, 0, 0, 0)));
    c.clear(7);
    assert_eq!(c.buffer(), &[0, 5, 0]);
}

#[test]
fn transparent_container_paints_nothing() {
    let mut c = Canvas::filled(2, 2, 4);
    crix::Container::transparent(2, 2).draw(&mut c, &Rect::new(0, 0, 2, 2));
    assert!(c.buffer().iter().all(|&p| p == 4));
}

#[test]
fn text_alignment_positions() {
    assert_eq!(text_x(TextAlign::Left, 10, 100, 30), 10);
    assert_eq!(text_x(TextAlign::Center, 10, 100, 30), 45);
    assert_eq!(text_x(TextAlign::Right, 10, 100, 30), 80);
    assert_eq!(text_x(TextAlign::Center, 0, 10, 15), -2);
    assert_eq!(text_y(VerticalAlign::Top, 5, 20, 8), 5);
    assert_eq!(text_y(VerticalAlign::Center, 5, 20, 8), 11);
    assert_eq!(text_y(VerticalAlign::Bottom, 5, 20, 8), 17);
}

#[test]
fn caret_draws_one_column() {
    let mut c = Canvas::filled(2, 3, 0);
    crix::draw_caret(&mut c, 1, 1, 5, None, 3);
    assert_eq!(c.buffer(), &[0, 0, 0, 3, 0, 3]);
}

#[test]
fn image_scrollbar_tiles_the_track() {
    let track = Image::from_rgb(1, 2, &[0, 0, 9, 0, 0, 8]).unwrap();
    let thumb = Image::from_rgb(1, 1, &[0, 0, 7]).unwrap();
    let s = crix::SkinVScroll::new(3, 5, track, thumb);
    let mut c = Canvas::filled(3, 5, 0);
    crix::Widget::SkinVScroll(s).draw(&mut c, &Rect::new(0, 0, 3, 5), WidgetState::idle());
    let column: Vec<u32> = (0..5).map(|r| c.buffer()[r * 3 + 2]).collect();
    assert_eq!(column, vec![7, 8, 9, 8, 9]);
}
