use crix::{
    convert_part, parse_color, parse_hex_u32, Image, LoadedSkin, PartDraw, PartType, RawPart,
    ScrollbarDraw, Skin, SkinBuilder, SkinError, SkinMeta, SkinPart, SkinWindow, TextAlign,
    TextInputDraw, VerticalAlign, Widget,
};

fn pixel_image(w: u32, h: u32) -> Image {
    let data = vec![7u8; (w * h * 3) as usize];
    Image::from_rgb(w, h, &data).unwrap()
}

fn skin_with(parts: Vec<SkinPart>, keys: &[&str]) -> LoadedSkin {
    let skin = Skin {
        meta: SkinMeta { name: "t".to_string(), author: "a".to_string(), version: "1".to_string() },
        window: SkinWindow { width: 200, height: 100, resizable: false },
        assets: Vec::new(),
        parts,
    };
    let images = keys.iter().map(|k| (k.to_string(), pixel_image(2, 2))).collect();
    LoadedSkin::new(skin, images)
}

fn image_part(id: &str, asset: &str, z: i32) -> SkinPart {
    SkinPart::new(id.to_string(), PartType::Image { asset: asset.to_string() }, 1, 2, 3, 4, z)
}

#[test]
fn missing_asset_fails_the_build() {
    let skin = skin_with(vec![image_part("logo", "nowhere", 0)], &["bg"]);
    match SkinBuilder::build(&skin) {
        Err(SkinError::AssetNotFound(k)) => assert_eq!(k, "nowhere"),
        _ => panic!("expected a missing asset"),
    }
}

#[test]
fn button_without_draw_section_fails() {
    let part = SkinPart::new("ok".to_string(), PartType::Button, 0, 0, 10, 10, 0);
    let skin = skin_with(vec![part], &[]);
    match SkinBuilder::build(&skin) {
        Err(SkinError::MissingDrawSection(id)) => assert_eq!(id, "ok"),
        _ => panic!("expected a missing draw section"),
    }
}

#[test]
fn pickers_are_not_built() {
    let part = SkinPart::new("p".to_string(), PartType::FilePicker, 0, 0, 10, 10, 0);
    let skin = skin_with(vec![part], &[]);
    match SkinBuilder::build(&skin) {
        Err(SkinError::InvalidPartType(t)) => assert_eq!(t, "file_picker"),
        _ => panic!("expected an invalid part type"),
    }
}

#[test]
fn parts_are_ordered_by_z_and_ties_keep_declaration_order() {
    let parts = vec![
        image_part("a", "img", 5),
        image_part("b", "img", 1),
        image_part("c", "img", 5),
        image_part("d", "img", -2),
    ];
    assert_eq!(SkinBuilder::z_order(&parts), vec![3, 1, 0, 2]);
    let skin = skin_with(parts, &["img"]);
    let (tree, window) = SkinBuilder::build(&skin).ok().unwrap();
    assert_eq!(window, SkinWindow { width: 200, height: 100, resizable: false });
    let root = tree.root().unwrap();
    assert_eq!(tree.get(root).unwrap().children().len(), 4);
    assert_eq!(*tree.get(root).unwrap().bounds(), crix::Rect::new(0, 0, 200, 100));
}

#[test]
fn built_widgets_carry_bounds_and_bindings() {
    let mut input = SkinPart::new("in".to_string(), PartType::TextInput, 5, 6, 50, 20, 1);
    input.text_input_draw = Some(TextInputDraw {
        normal: "n".to_string(),
        hover: "h".to_string(),
        focused: "f".to_string(),
        invalid: Some("f".to_string()),
    });
    input.binding = Some("inputs.x".to_string());
    let mut label = SkinPart::new("out".to_string(), PartType::StaticText, 0, 30, 50, 20, 0);
    label.binding = Some("inputs.x".to_string());
    label.content = Some("placeholder".to_string());
    let mut button = SkinPart::new("go".to_string(), PartType::Button, 0, 60, 50, 20, 2);
    button.draw = Some(PartDraw { normal: "n".to_string(), hover: "h".to_string(), pressed: "f".to_string() });
    button.action = Some("calc".to_string());
    let skin = skin_with(vec![input, label, button], &["n", "h", "f"]);
    let (tree, _) = SkinBuilder::build(&skin).ok().unwrap();
    let root = tree.root().unwrap();
    let kids = tree.get(root).unwrap().children().to_vec();
    let first = tree.get(kids[0]).unwrap();
    assert_eq!(*first.bounds(), crix::Rect::new(0, 30, 50, 20));
    match first.widget() {
        Widget::StaticText(s) => {
            assert_eq!(s.content(), "placeholder");
            assert_eq!(s.binding(), Some("inputs.x"));
        }
        _ => panic!("expected static text"),
    }
    match tree.get(kids[1]).unwrap().widget() {
        Widget::TextInput(t) => {
            assert_eq!(t.binding(), Some("inputs.x"));
            assert_eq!(t.text(), "");
        }
        _ => panic!("expected a text input"),
    }
    match tree.get(kids[2]).unwrap().widget() {
        Widget::SkinButton(b) => assert_eq!(b.action(), Some("calc")),
        _ => panic!("expected a button"),
    }
}

#[test]
fn scroll_container_builds_its_child_first() {
    let mut scroll = SkinPart::new("s".to_string(), PartType::VScrollContainer, 0, 0, 40, 40, 0);
    scroll.scrollbar = Some(ScrollbarDraw { width: 4, track: "t".to_string(), thumb: "missing".to_string() });
    scroll.child = Some(Box::new(image_part("inner", "gone", 0)));
    let skin = skin_with(vec![scroll], &["t"]);
    match SkinBuilder::build(&skin) {
        Err(SkinError::AssetNotFound(k)) => assert_eq!(k, "gone"),
        _ => panic!("expected the child's missing asset"),
    }
}

fn raw(id: &str, ty: &str) -> RawPart {
    RawPart {
        id: id.to_string(),
        part_type: ty.to_string(),
        asset: None,
        x: 1,
        y: 2,
        width: 3,
        height: 4,
        z: 5,
        action: None,
        draw: None,
        text_input_draw: None,
        scrollbar: None,
        hit: None,
        text_color: None,
        padding: None,
        font_size_bits: None,
        max_length: None,
        validation: None,
        content: None,
        text_align: None,
        vertical_align: None,
        binding: None,
        content_height: None,
        child: None,
    }
}

#[test]
fn unknown_part_type_is_refused() {
    match convert_part(raw("x", "slider")) {
        Err(SkinError::InvalidPartType(t)) => assert_eq!(t, "slider"),
        _ => panic!("expected an invalid part type"),
    }
}

#[test]
fn image_part_needs_an_asset() {
    match convert_part(raw("logo", "image")) {
        Err(SkinError::AssetNotFound(m)) => assert_eq!(m, "Image part 'logo' missing 'asset' field"),
        _ => panic!("expected a missing asset"),
    }
}

#[test]
fn raw_part_words_are_read() {
    let mut p = raw("t", "static_text");
    p.text_color = Some("0x1A2b3C".to_string());
    p.text_align = Some("right".to_string());
    p.vertical_align = Some("sideways".to_string());
    let sp = convert_part(p).ok().unwrap();
    assert!(matches!(sp.part_type, PartType::StaticText));
    assert_eq!(sp.text_color, Some(0x1A2B3C));
    assert_eq!(sp.text_align, Some(TextAlign::Right));
    assert_eq!(sp.vertical_align, Some(VerticalAlign::Center));
    assert_eq!((sp.x, sp.y, sp.width, sp.height, sp.z), (1, 2, 3, 4, 5));
}

#[test]
fn child_errors_come_through() {
    let mut p = raw("s", "vscroll_container");
    p.child = Some(Box::new(raw("c", "wheel")));
    assert!(matches!(convert_part(p), Err(SkinError::InvalidPartType(_))));
}

#[test]
fn hex_colors() {
    assert_eq!(parse_color("0xFF00aa"), Some(0xFF00AA));
    assert_eq!(parse_color("0x0x10"), Some(16));
    assert_eq!(parse_color("0X7"), Some(7));
    assert_eq!(parse_color("zz"), None);
    assert_eq!(parse_color("0x"), None);
    assert_eq!(parse_hex_u32("+1f"), Some(31));
    assert_eq!(parse_hex_u32("+"), None);
    assert_eq!(parse_hex_u32("-1"), None);
    assert_eq!(parse_hex_u32("ffffffff"), Some(u32::MAX));
    assert_eq!(parse_hex_u32("100000000"), None);
}

#[test]
fn missing_invalid_image_fails_the_build() {
    let mut input = SkinPart::new("in".to_string(), PartType::TextInput, 0, 0, 10, 10, 0);
    input.text_input_draw = Some(TextInputDraw {
        normal: "n".to_string(),
        hover: "n".to_string(),
        focused: "n".to_string(),
        invalid: Some("absent".to_string()),
    });
    let skin = skin_with(vec![input], &["n"]);
    match SkinBuilder::build(&skin) {
        Err(SkinError::AssetNotFound(k)) => assert_eq!(k, "absent"),
        _ => panic!("expected a missing asset"),
    }
}
