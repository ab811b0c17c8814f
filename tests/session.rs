use crix::{
    draw_caret, Action, ActionDispatcher, ActionError, ActionHandler, AppConfigAdapter, Canvas,
    Container, Image, InputEvent, Rect, RunConfig, Services, Session, SkinButton, StaticText, Store,
    TextInput, UiTree, VScrollContainer, Value, Widget, WidgetEvent, WidgetState,
};

fn img(w: u32, h: u32, v: u8) -> Image {
    Image::from_rgb(w, h, &vec![v; (w * h * 3) as usize]).unwrap()
}

struct Doubler;

impl ActionHandler for Doubler {
    fn handle(&mut self, action: &Action, store: &mut Store, _s: &Services) -> Result<bool, ActionError> {
        if action.name != "double" {
            return Ok(false);
        }
        let text = store.get_string("inputs.x");
        store.set("outputs.y".to_string(), Value::string(format!("{}{}", text, text)));
        Ok(true)
    }
}

fn app() -> (Session, crix::NodeId, crix::NodeId, crix::NodeId) {
    let mut tree = UiTree::new();
    let root = tree.add(Widget::Container(Container::transparent(100, 100)), None);
    tree.set_bounds(root, Rect::new(0, 0, 100, 100));
    let input = TextInput::new(img(1, 1, 0), img(1, 1, 0), img(1, 1, 0), None)
        .with_binding("inputs.x".to_string());
    let field = tree.add(Widget::TextInput(input), Some(root));
    tree.set_bounds(field, Rect::new(0, 0, 50, 20));
    let button = SkinButton::new(img(1, 1, 1), img(1, 1, 2), img(1, 1, 3), Some("double".to_string()));
    let go = tree.add(Widget::SkinButton(button), Some(root));
    tree.set_bounds(go, Rect::new(0, 30, 50, 20));
    let out = StaticText::new(String::new()).with_binding("outputs.y".to_string());
    let label = tree.add(Widget::StaticText(out), Some(root));
    tree.set_bounds(label, Rect::new(0, 60, 50, 20));
    (Session::new(tree, "t".to_string()), field, go, label)
}

#[test]
fn typing_and_clicking_runs_the_action() {
    let (mut s, field, go, label) = app();
    let mut d = ActionDispatcher::new();
    d.add_handler(Doubler);
    assert!(s.on_event(InputEvent::CursorMoved { x: 5, y: 5 }, &mut d).redraw);
    assert_eq!(s.tree().hovered(), Some(field));
    s.on_event(InputEvent::ButtonPressed, &mut d);
    assert_eq!(s.tree().focused(), Some(field));
    assert_eq!(s.tree().pressed(), Some(field));
    s.on_event(InputEvent::ButtonReleased, &mut d);
    assert_eq!(s.tree().pressed(), None);
    assert!(s.on_event(InputEvent::Key(WidgetEvent::CharInput { c: '4' }), &mut d).redraw);
    s.on_event(InputEvent::Key(WidgetEvent::CharInput { c: '2' }), &mut d);
    assert_eq!(s.store().get_string("inputs.x"), "42");
    s.on_event(InputEvent::CursorMoved { x: 5, y: 35 }, &mut d);
    assert_eq!(s.tree().hovered(), Some(go));
    s.on_event(InputEvent::ButtonPressed, &mut d);
    let outcome = s.on_event(InputEvent::ButtonReleased, &mut d);
    assert!(outcome.error.is_none());
    match s.tree().get(label).unwrap().widget() {
        Widget::StaticText(t) => assert_eq!(t.content(), "4242"),
        _ => panic!(),
    }
}

#[test]
fn pressing_outside_drops_focus() {
    let (mut s, field, _go, _label) = app();
    let mut d = ActionDispatcher::new();
    s.on_event(InputEvent::CursorMoved { x: 5, y: 5 }, &mut d);
    s.on_event(InputEvent::ButtonPressed, &mut d);
    assert_eq!(s.tree().focused(), Some(field));
    s.on_event(InputEvent::CursorMoved { x: 500, y: 500 }, &mut d);
    assert_eq!(s.tree().hovered(), None);
    s.on_event(InputEvent::ButtonPressed, &mut d);
    assert_eq!(s.tree().focused(), None);
    assert!(!s.on_event(InputEvent::Key(WidgetEvent::CharInput { c: 'a' }), &mut d).redraw);
    assert!(!s.on_event(InputEvent::Wheel { delta_y: 3 }, &mut d).redraw);
}

#[test]
fn release_away_from_press_clicks_nothing() {
    let (mut s, _field, go, _label) = app();
    let mut d = ActionDispatcher::new();
    s.on_event(InputEvent::CursorMoved { x: 5, y: 35 }, &mut d);
    s.on_event(InputEvent::ButtonPressed, &mut d);
    assert_eq!(s.tree().pressed(), Some(go));
    s.on_event(InputEvent::CursorMoved { x: 5, y: 65 }, &mut d);
    let outcome = s.on_event(InputEvent::ButtonReleased, &mut d);
    assert!(outcome.error.is_none());
    assert_eq!(s.tree().pressed(), None);
    assert_eq!(s.tree().button_action(go), Some("double".to_string()));
}

#[test]
fn scroll_container_clamps_and_places_thumb() {
    let mut v = VScrollContainer::new(30, 50, 10);
    let child = Widget::Container(Container::new(20, 150));
    v.set_child(Box::new(child));
    assert_eq!(v.max_scroll(), 100);
    assert_eq!(v.viewport_width(), 20);
    assert_eq!(v.thumb_height(), 20);
    assert!(v.on_wheel(-40));
    assert_eq!(v.scroll_offset(), 40);
    v.scroll_by(-1000);
    assert_eq!(v.scroll_offset(), 100);
    assert_eq!(v.thumb_y(0), 30);
    v.scroll_by(1000);
    assert_eq!(v.scroll_offset(), 0);
    let mut w = Widget::VScroll(v);
    assert!(w.on_event(&WidgetEvent::MouseWheel { delta_y: -10 }));
    let mut c = Canvas::filled(30, 50, 0);
    w.draw(&mut c, &Rect::new(0, 0, 30, 50), WidgetState::idle());
    assert_eq!(c.buffer()[25], 0x333333);
    assert_eq!(c.buffer()[3 * 30 + 25], 0x666666);
    assert_eq!(c.buffer()[23 * 30 + 25], 0x333333);
}

#[test]
fn tree_draw_paints_later_children_on_top() {
    let mut tree = UiTree::new();
    let root = tree.add(Widget::Container(Container::new(4, 1).with_background(1)), None);
    tree.set_bounds(root, Rect::new(0, 0, 4, 1));
    let a = tree.add(Widget::Container(Container::new(2, 1).with_background(2)), Some(root));
    tree.set_bounds(a, Rect::new(0, 0, 2, 1));
    let b = tree.add(Widget::Container(Container::new(2, 1).with_background(3)), Some(root));
    tree.set_bounds(b, Rect::new(1, 0, 2, 1));
    let mut c = Canvas::filled(4, 1, 0);
    tree.draw(&mut c);
    assert_eq!(c.buffer(), &[2, 3, 3, 1]);
}

#[test]
fn caret_is_clipped() {
    let mut c = Canvas::filled(3, 3, 0);
    draw_caret(&mut c, 1, 0, 3, Some(&Rect::new(0, 0, 3, 2)), 9);
    assert_eq!(c.buffer()[1], 9);
    assert_eq!(c.buffer()[4], 9);
    assert_eq!(c.buffer()[7], 0);
}

#[test]
fn run_config_and_adapter() {
    let rc = RunConfig::new().with_title("App".to_string());
    assert_eq!(rc.title, "App");
    assert!(!rc.resizable);
    assert_eq!(RunConfig::new().title, "Crix");
    let cfg = AppConfigAdapter::new(
        "n".to_string(),
        "1".to_string(),
        vec![("calc".to_string(), "scripts/calc.lua".to_string()), ("reset".to_string(), "r.lua".to_string())],
    );
    assert_eq!(cfg.get_script("calc"), Some("scripts/calc.lua"));
    assert!(cfg.has_action("reset"));
    assert!(!cfg.has_action("other"));
    assert_eq!(cfg.action_names(), vec!["calc".to_string(), "reset".to_string()]);
}
