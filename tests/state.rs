use std::cell::RefCell;
use std::rc::Rc;

use crix::{
    settle, sync_inputs_to_store, sync_store_to_outputs, Action, ActionDispatcher, ActionError,
    ActionHandler, Container, Image, KeyCode, Services, StaticText, Store, TextInput, UiTree, Value,
    Widget, WidgetEvent,
};

fn input_with(text: &str, binding: &str) -> TextInput {
    let img = Image::from_rgb(1, 1, &[0, 0, 0]).unwrap();
    let mut t = TextInput::new(img.duplicate(), img.duplicate(), img, None).with_binding(binding.to_string());
    for c in text.chars() {
        assert!(t.insert_char(c));
    }
    t
}

#[test]
fn inputs_flow_to_store_and_back_to_outputs() {
    let mut tree = UiTree::new();
    let root = tree.add(Widget::Container(Container::transparent(10, 10)), None);
    let input = tree.add(Widget::TextInput(input_with("42", "inputs.x")), Some(root));
    let label = tree.add(
        Widget::StaticText(StaticText::new(String::new()).with_binding("inputs.x".to_string())),
        Some(root),
    );
    let mut store = Store::new();
    match tree.get(input).unwrap().widget() {
        Widget::TextInput(t) => assert!(t.is_dirty()),
        _ => panic!(),
    }
    sync_inputs_to_store(&mut tree, &mut store);
    assert_eq!(store.get_string("inputs.x"), "42");
    match tree.get(input).unwrap().widget() {
        Widget::TextInput(t) => {
            assert!(!t.is_dirty());
            assert_eq!(t.text(), "42");
        }
        _ => panic!(),
    }
    sync_store_to_outputs(&mut tree, &store);
    match tree.get(label).unwrap().widget() {
        Widget::StaticText(s) => assert_eq!(s.content(), "42"),
        _ => panic!(),
    }
    sync_store_to_outputs(&mut tree, &store);
    match tree.get(label).unwrap().widget() {
        Widget::StaticText(s) => assert_eq!(s.content(), "42"),
        _ => panic!(),
    }
}

#[test]
fn empty_value_keeps_placeholder() {
    let mut tree = UiTree::new();
    let root = tree.add(Widget::Container(Container::transparent(10, 10)), None);
    let label = tree.add(
        Widget::StaticText(StaticText::new("--".to_string()).with_binding("out".to_string())),
        Some(root),
    );
    let mut store = Store::new();
    sync_store_to_outputs(&mut tree, &store);
    store.set("out".to_string(), Value::string(String::new()));
    sync_store_to_outputs(&mut tree, &store);
    match tree.get(label).unwrap().widget() {
        Widget::StaticText(s) => assert_eq!(s.content(), "--"),
        _ => panic!(),
    }
    store.set("out".to_string(), Value::number_text("7.5".to_string()));
    sync_store_to_outputs(&mut tree, &store);
    match tree.get(label).unwrap().widget() {
        Widget::StaticText(s) => assert_eq!(s.content(), "7.5"),
        _ => panic!(),
    }
}

#[test]
fn clean_inputs_write_nothing() {
    let mut tree = UiTree::new();
    let root = tree.add(Widget::Container(Container::transparent(10, 10)), None);
    let mut t = input_with("9", "k");
    t.clear_dirty();
    tree.add(Widget::TextInput(t), Some(root));
    let mut store = Store::new();
    sync_inputs_to_store(&mut tree, &mut store);
    assert!(!store.contains("k"));
}

#[test]
fn store_basic_strings_and_bools() {
    let mut store = Store::new();
    store.set("name".to_string(), Value::string("Alice".to_string()));
    store.set("active".to_string(), Value::bool(true));
    store.set("age".to_string(), Value::number_text("30".to_string()));
    assert_eq!(store.get_str("name"), "Alice");
    assert!(store.get_bool("active"));
    assert_eq!(store.get_str("age"), "");
    assert_eq!(store.get_string("age"), "30");
    assert_eq!(store.get_string("active"), "true");
    assert_eq!(store.get_string("missing"), "");
    assert!(!store.get_bool("name"));
    store.set("name".to_string(), Value::string("Bob".to_string()));
    assert_eq!(store.get_str("name"), "Bob");
    let mut keys = store.keys();
    keys.sort();
    assert_eq!(keys, vec!["active".to_string(), "age".to_string(), "name".to_string()]);
    assert!(store.remove("age").is_some());
    assert!(store.remove("age").is_none());
    assert!(!store.contains("age"));
    store.clear();
    assert!(!store.contains("name"));
}

#[test]
fn value_text_forms() {
    assert_eq!(Value::Null.to_string_value(), "");
    assert_eq!(Value::bool(false).to_string_value(), "false");
    assert_eq!(Value::number_text("42".to_string()).to_string_value(), "42");
    assert_eq!(Value::string("x".to_string()).as_str(), Some("x"));
    assert!(Value::Null.is_null());
    assert_eq!(Value::bool(true).as_bool(), Some(true));
}

#[test]
fn action_payload() {
    let a = Action::new("calc".to_string()).with("n".to_string(), Value::string("3".to_string()));
    assert_eq!(a.name, "calc");
    assert_eq!(a.get_str("n"), Some("3"));
    assert!(a.get("m").is_none());
}

struct Scripted {
    answer: fn() -> Result<bool, ActionError>,
    log: Rc<RefCell<Vec<&'static str>>>,
    name: &'static str,
}

impl ActionHandler for Scripted {
    fn handle(&mut self, _a: &Action, _s: &mut Store, _sv: &Services) -> Result<bool, ActionError> {
        self.log.borrow_mut().push(self.name);
        (self.answer)()
    }
}

fn pass() -> Result<bool, ActionError> {
    Ok(false)
}

fn take() -> Result<bool, ActionError> {
    Ok(true)
}

fn fail() -> Result<bool, ActionError> {
    Err(ActionError::Failed("boom".to_string()))
}

#[test]
fn dispatch_stops_at_first_taker() {
    let log = Rc::new(RefCell::new(Vec::new()));
    let mut d = ActionDispatcher::new();
    d.add_handler(Scripted { answer: pass, log: log.clone(), name: "h1" });
    d.add_handler(Scripted { answer: take, log: log.clone(), name: "h2" });
    d.add_handler(Scripted { answer: take, log: log.clone(), name: "h3" });
    let mut store = Store::new();
    let r = d.dispatch(&Action::new("go".to_string()), &mut store, &Services::new());
    assert!(matches!(r, Ok(true)));
    assert_eq!(*log.borrow(), vec!["h1", "h2"]);
}

#[test]
fn dispatch_error_aborts_chain() {
    let log = Rc::new(RefCell::new(Vec::new()));
    let mut d = ActionDispatcher::new();
    d.add_handler(Scripted { answer: fail, log: log.clone(), name: "h1" });
    d.add_handler(Scripted { answer: take, log: log.clone(), name: "h2" });
    let mut store = Store::new();
    let r = d.dispatch(&Action::new("go".to_string()), &mut store, &Services::new());
    match r {
        Err(ActionError::Failed(m)) => assert_eq!(m, "boom"),
        _ => panic!("expected the handler's error"),
    }
    assert_eq!(*log.borrow(), vec!["h1"]);
}

#[test]
fn dispatch_with_no_taker_is_not_an_error() {
    let mut d = ActionDispatcher::new();
    let mut store = Store::new();
    assert!(matches!(d.dispatch(&Action::new("go".to_string()), &mut store, &Services::new()), Ok(false)));
}

#[test]
fn settle_reads_answers_in_order() {
    let (r, asked) = settle(vec![Ok(false), Ok(true), Err(ActionError::Failed("x".to_string()))]);
    assert!(matches!(r, Ok(true)));
    assert_eq!(asked, 2);
    let (r, asked) = settle(vec![Ok(false), Ok(false)]);
    assert!(matches!(r, Ok(false)));
    assert_eq!(asked, 2);
}

#[test]
fn text_input_editing() {
    let mut t = input_with("ac", "k");
    t.move_left();
    assert!(t.insert_char('b'));
    assert_eq!(t.text(), "abc");
    assert!(t.backspace());
    assert_eq!(t.text(), "ac");
    t.move_home();
    assert!(t.delete());
    assert_eq!(t.text(), "c");
    assert!(!t.backspace());
    t.move_end();
    assert!(!t.delete());
    assert!(!t.insert_char('\n'));
    assert!(t.on_event(&WidgetEvent::KeyDown { key: KeyCode::Backspace }));
    assert_eq!(t.text(), "");
    assert!(!t.on_event(&WidgetEvent::MouseMove { x: 0, y: 0 }));
}

#[test]
fn text_input_validation_and_limit() {
    let img = Image::from_rgb(1, 1, &[0, 0, 0]).unwrap();
    let mut t = TextInput::new(img.duplicate(), img.duplicate(), img, None)
        .with_validation(crix::TextValidation::Numeric)
        .with_max_length(2);
    assert!(!t.insert_char('a'));
    assert!(t.insert_char('1'));
    assert!(t.insert_char('2'));
    assert!(!t.insert_char('3'));
    assert_eq!(t.text(), "12");
    let img = Image::from_rgb(1, 1, &[0, 0, 0]).unwrap();
    let p = TextInput::new(img.duplicate(), img.duplicate(), img, None)
        .with_validation(crix::TextValidation::Pattern("0123456789.".to_string()));
    assert!(p.validate_char('.'));
    assert!(!p.validate_char('x'));
}
