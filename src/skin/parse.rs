use vstd::prelude::*;
use vstd::string::{StrSliceExecFns, StringExecFns};
use crate::skin::assets::str_eq;
use crate::skin::types::{
    HitType, PartDraw, PartHit, PartType, ScrollbarDraw, SkinError, SkinErrorView, SkinPart,
    TextAlign, TextInputDraw, TextValidation, VerticalAlign,
};

verus! {

/// A part as a skin description spells it, before its words are read: the
/// type, alignments, validation and color are still text.
pub struct RawPart {
    pub id: String,
    pub part_type: String,
    pub asset: Option<String>,
    pub x: i32,
    pub y: i32,
    pub width: u32,
    pub height: u32,
    pub z: i32,
    pub action: Option<String>,
    pub draw: Option<PartDraw>,
    pub text_input_draw: Option<TextInputDraw>,
    pub scrollbar: Option<ScrollbarDraw>,
    pub hit: Option<String>,
    pub text_color: Option<String>,
    pub padding: Option<u32>,
    /// The font size in pixels, as the bit pattern of an IEEE-754 single.
    pub font_size_bits: Option<u32>,
    pub max_length: Option<u32>,
    pub validation: Option<String>,
    pub content: Option<String>,
    pub text_align: Option<String>,
    pub vertical_align: Option<String>,
    pub binding: Option<String>,
    pub content_height: Option<u32>,
    pub child: Option<Box<RawPart>>,
}

/// The value of a hexadecimal digit.
pub open spec fn hex_digit(c: char) -> Option<nat> {
    if '0' <= c <= '9' {
        Some((c as u32 - '0' as u32) as nat)
    } else if 'a' <= c <= 'f' {
        Some((c as u32 - 'a' as u32 + 10) as nat)
    } else if 'A' <= c <= 'F' {
        Some((c as u32 - 'A' as u32 + 10) as nat)
    } else {
        None
    }
}

/// The number a string of hexadecimal digits spells, most significant first.
pub open spec fn hex_nat(s: Seq<char>) -> Option<nat>
    decreases s.len(),
{
    if s.len() == 0 {
        Some(0)
    } else {
        match (hex_nat(s.drop_last()), hex_digit(s.last())) {
            (Some(a), Some(d)) => Some(a * 16 + d),
            _ => None,
        }
    }
}

/// A `u32` written in base 16: an optional `+`, then at least one digit,
/// with a value that fits.
pub open spec fn hex_u32(s: Seq<char>) -> Option<u32> {
    let body = if s.len() > 0 && s[0] == '+' {
        s.drop_first()
    } else {
        s
    };
    if body.len() == 0 {
        None
    } else {
        match hex_nat(body) {
            Some(v) => if v <= u32::MAX {
                Some(v as u32)
            } else {
                None
            },
            None => None,
        }
    }
}

/// `s` with every leading copy of the two-character prefix `[a, b]` removed.
pub open spec fn strip_prefixes(s: Seq<char>, a: char, b: char) -> Seq<char>
    decreases s.len(),
{
    if s.len() >= 2 && s[0] == a && s[1] == b {
        strip_prefixes(s.subrange(2, s.len() as int), a, b)
    } else {
        s
    }
}

/// The color a `text_color` entry gives: hexadecimal after any `0x` and then
/// any `0X` prefixes; an entry that does not read gives none.
pub open spec fn color_of(s: Seq<char>) -> Option<u32> {
    hex_u32(strip_prefixes(strip_prefixes(s, '0', 'x'), '0', 'X'))
}

/// Reads a hexadecimal `u32`, as `hex_u32` describes.
pub fn parse_hex_u32(s: &str) -> (r: Option<u32>)
    ensures
        r == hex_u32(s@),
{
    let n = s.unicode_len();
    let mut start: usize = 0;
    if n > 0 && s.get_char(0) == '+' {
        start = 1;
    }
    let ghost body = if s@.len() > 0 && s@[0] == '+' {
        s@.drop_first()
    } else {
        s@
    };
    assert(body == s@.subrange(start as int, n as int));
    if start == n {
        return None;
    }
    let mut acc: u64 = 0;
    let mut i: usize = start;
    while i < n
        invariant
            start <= i <= n,
            start < n,
            n == s@.len(),
            body == s@.subrange(start as int, n as int),
            body == (if s@.len() > 0 && s@[0] == '+' {
                s@.drop_first()
            } else {
                s@
            }),
            hex_nat(s@.subrange(start as int, i as int)) == Some(acc as nat),
            acc <= u32::MAX,
        decreases n - i,
    {
        let c = s.get_char(i);
        let d: u64 = if '0' <= c && c <= '9' {
            (c as u32 - '0' as u32) as u64
        } else if 'a' <= c && c <= 'f' {
            (c as u32 - 'a' as u32 + 10) as u64
        } else if 'A' <= c && c <= 'F' {
            (c as u32 - 'A' as u32 + 10) as u64
        } else {
            proof {
                let t = s@.subrange(start as int, i + 1);
                assert(t.drop_last() == s@.subrange(start as int, i as int));
                assert(t.last() == c);
                assert(hex_digit(c) is None);
                assert(s@.subrange(start as int, n as int).subrange(0, (i + 1 - start) as int) == t);
                lemma_hex_prefix_fails(s@.subrange(start as int, n as int), (i + 1 - start) as int);
            }
            return None;
        };
        let next = acc * 16 + d;
        proof {
            let t = s@.subrange(start as int, i + 1);
            assert(t.drop_last() == s@.subrange(start as int, i as int));
            assert(t.last() == c);
            assert(hex_digit(c) == Some(d as nat));
            assert(hex_nat(t) == Some(next as nat));
        }
        if next > u32::MAX as u64 {
            proof {
                assert(s@.subrange(start as int, n as int).subrange(0, (i + 1 - start) as int)
                    == s@.subrange(start as int, i + 1));
                lemma_hex_prefix_big(s@.subrange(start as int, n as int), (i + 1 - start) as int);
            }
            return None;
        }
        acc = next;
        i += 1;
    }
    assert(s@.subrange(start as int, n as int) == body);
    Some(acc as u32)
}

/// A prefix that is not all digits spoils the whole string.
proof fn lemma_hex_prefix_fails(s: Seq<char>, k: int)
    requires
        0 < k <= s.len(),
        hex_nat(s.subrange(0, k)) is None,
    ensures
        hex_nat(s) is None,
    decreases s.len() - k,
{
    if k < s.len() {
        let t = s.subrange(0, k + 1);
        assert(t.drop_last() == s.subrange(0, k));
        lemma_hex_prefix_fails(s, k + 1);
    } else {
        assert(s.subrange(0, k) == s);
    }
}

/// A prefix worth more than `u32::MAX` makes the whole worth more.
proof fn lemma_hex_prefix_big(s: Seq<char>, k: int)
    requires
        0 < k <= s.len(),
        hex_nat(s.subrange(0, k)) is Some,
        hex_nat(s.subrange(0, k))->Some_0 > u32::MAX,
    ensures
        hex_nat(s) is None || hex_nat(s)->Some_0 > u32::MAX,
    decreases s.len() - k,
{
    if k < s.len() {
        let t = s.subrange(0, k + 1);
        assert(t.drop_last() == s.subrange(0, k));
        if hex_nat(t) is Some {
            lemma_hex_prefix_big(s, k + 1);
        } else {
            lemma_hex_prefix_fails(s, k + 1);
        }
    } else {
        assert(s.subrange(0, k) == s);
    }
}

/// Removes every leading copy of the prefix `[a, b]`.
fn strip_all(s: &str, a: char, b: char) -> (r: String)
    ensures
        r@ == strip_prefixes(s@, a, b),
{
    let n = s.unicode_len();
    let mut i: usize = 0;
    assert(s@.subrange(0, n as int) == s@);
    while n >= 2 && i <= n - 2 && s.get_char(i) == a && s.get_char(i + 1) == b
        invariant
            0 <= i <= n,
            n == s@.len(),
            strip_prefixes(s@, a, b) == strip_prefixes(s@.subrange(i as int, n as int), a, b),
        decreases n - i,
    {
        proof {
            let t = s@.subrange(i as int, n as int);
            assert(t.subrange(2, t.len() as int) == s@.subrange(i + 2, n as int));
        }
        i += 2;
    }
    String::from_str(s.substring_char(i, n))
}

/// The color a `text_color` entry gives, as `color_of` describes.
pub fn parse_color(s: &str) -> (r: Option<u32>)
    ensures
        r == color_of(s@),
{
    let once = strip_all(s, '0', 'x');
    let twice = strip_all(once.as_str(), '0', 'X');
    parse_hex_u32(twice.as_str())
}

/// The part type a type name gives; the image variant takes its asset.
pub open spec fn type_named(name: Seq<char>) -> Option<int> {
    if name == "image"@ {
        Some(0)
    } else if name == "button"@ {
        Some(1)
    } else if name == "text_input"@ {
        Some(2)
    } else if name == "static_text"@ {
        Some(3)
    } else if name == "vscroll_container"@ {
        Some(4)
    } else {
        None
    }
}

/// Why a raw part cannot be read: an unknown type name, an image without
/// an asset, or a child that cannot be read.
pub open spec fn raw_error(p: RawPart) -> Option<SkinErrorView>
    decreases p,
{
    match type_named(p.part_type@) {
        None => Some(SkinErrorView::InvalidPartType(p.part_type@)),
        Some(t) => if t == 0 && p.asset is None {
            Some(
                SkinErrorView::AssetNotFound(
                    "Image part '"@ + p.id@ + "' missing 'asset' field"@,
                ),
            )
        } else {
            match p.child {
                Some(c) => raw_error(*c),
                None => None,
            }
        },
    }
}

/// The alignment an alignment word gives; an unknown word reads as left.
pub open spec fn align_named(s: Seq<char>) -> TextAlign {
    if s == "center"@ {
        TextAlign::Center
    } else if s == "right"@ {
        TextAlign::Right
    } else {
        TextAlign::Left
    }
}

/// The alignment a vertical alignment word gives; an unknown word reads as center.
pub open spec fn valign_named(s: Seq<char>) -> VerticalAlign {
    if s == "top"@ {
        VerticalAlign::Top
    } else if s == "bottom"@ {
        VerticalAlign::Bottom
    } else {
        VerticalAlign::Center
    }
}

/// The validation mode a word gives; any other word is a character whitelist.
pub open spec fn validation_named(s: Seq<char>) -> TextValidation {
    if s == "numeric"@ {
        TextValidation::Numeric
    } else if s == "alpha"@ {
        TextValidation::Alpha
    } else if s == "alphanumeric"@ {
        TextValidation::Alphanumeric
    } else if s == "any"@ {
        TextValidation::Any
    } else {
        TextValidation::Pattern(arbitrary())
    }
}

fn is_word(s: &String, w: &str) -> (r: bool)
    ensures
        r == (s@ == w@),
{
    str_eq(s.as_str(), w)
}

fn read_align(s: &String) -> (r: TextAlign)
    ensures
        r == align_named(s@),
{
    proof {
        reveal_strlit("center");
        reveal_strlit("right");
    }
    if is_word(s, "center") {
        TextAlign::Center
    } else if is_word(s, "right") {
        TextAlign::Right
    } else {
        TextAlign::Left
    }
}

fn read_valign(s: &String) -> (r: VerticalAlign)
    ensures
        r == valign_named(s@),
{
    proof {
        reveal_strlit("top");
        reveal_strlit("bottom");
    }
    if is_word(s, "top") {
        VerticalAlign::Top
    } else if is_word(s, "bottom") {
        VerticalAlign::Bottom
    } else {
        VerticalAlign::Center
    }
}

fn read_validation(s: String) -> (r: TextValidation)
    ensures
        match validation_named(s@) {
            TextValidation::Pattern(_) => r is Pattern && r->Pattern_0@ == s@,
            other => r == other,
        },
{
    proof {
        reveal_strlit("numeric");
        reveal_strlit("alpha");
        reveal_strlit("alphanumeric");
        reveal_strlit("any");
    }
    if is_word(&s, "numeric") {
        TextValidation::Numeric
    } else if is_word(&s, "alpha") {
        TextValidation::Alpha
    } else if is_word(&s, "alphanumeric") {
        TextValidation::Alphanumeric
    } else if is_word(&s, "any") {
        TextValidation::Any
    } else {
        TextValidation::Pattern(s)
    }
}

/// `sp` is what reading `p` gives: the same id, geometry, sections,
/// action, content and binding; its words and color read; and its child
/// read in the same way.
pub open spec fn converted(p: RawPart, sp: SkinPart) -> bool
    decreases p,
{
    &&& sp.id@ == p.id@
    &&& sp.x == p.x && sp.y == p.y && sp.width == p.width && sp.height == p.height
    &&& sp.z == p.z
    &&& type_named(p.part_type@) == Some(0int) ==> sp.part_type is Image
        && sp.part_type->asset@ == p.asset->Some_0@
    &&& type_named(p.part_type@) == Some(1int) ==> sp.part_type is Button
    &&& type_named(p.part_type@) == Some(2int) ==> sp.part_type is TextInput
    &&& type_named(p.part_type@) == Some(3int) ==> sp.part_type is StaticText
    &&& type_named(p.part_type@) == Some(4int) ==> sp.part_type is VScrollContainer
    &&& sp.text_color == match p.text_color {
        Some(c) => color_of(c@),
        None => None,
    }
    &&& sp.text_align == match p.text_align {
        Some(a) => Some(align_named(a@)),
        None => None,
    }
    &&& sp.vertical_align == match p.vertical_align {
        Some(a) => Some(valign_named(a@)),
        None => None,
    }
    &&& sp.padding == p.padding && sp.font_size_bits == p.font_size_bits
    &&& sp.max_length == p.max_length && sp.content_height == p.content_height
    &&& sp.draw == p.draw && sp.text_input_draw == p.text_input_draw && sp.scrollbar == p.scrollbar
    &&& sp.action == p.action && sp.content == p.content && sp.binding == p.binding
    &&& (sp.hit is Some) == (p.hit is Some)
    &&& (sp.hit is Some ==> sp.hit->Some_0.hit_type == HitType::Rect)
    &&& match p.validation {
        Some(v) => sp.validation is Some && match validation_named(v@) {
            TextValidation::Pattern(_) => sp.validation->Some_0 is Pattern
                && sp.validation->Some_0->Pattern_0@ == v@,
            other => sp.validation->Some_0 == other,
        },
        None => sp.validation is None,
    }
    &&& match (p.child, sp.child) {
        (Some(c), Some(d)) => converted(*c, *d),
        (None, None) => true,
        _ => false,
    }
}

/// Reads a raw part into a skin part: its type name, alignment and
/// validation words and its color, and its child, recursively.
pub fn convert_part(p: RawPart) -> (r: Result<SkinPart, SkinError>)
    ensures
        match r {
            Ok(sp) => raw_error(p) is None && converted(p, sp),
            Err(e) => raw_error(p) == Some(e@),
        },
    decreases p,
{
    proof {
        reveal_strlit("image");
        reveal_strlit("button");
        reveal_strlit("text_input");
        reveal_strlit("static_text");
        reveal_strlit("vscroll_container");
    }
    let part_type = if is_word(&p.part_type, "image") {
        match p.asset {
            Some(asset) => PartType::Image { asset },
            None => {
                let mut msg = String::from_str("Image part '");
                msg.append(p.id.as_str());
                msg.append("' missing 'asset' field");
                proof {
                    reveal_strlit("Image part '");
                    reveal_strlit("' missing 'asset' field");
                }
                return Err(SkinError::AssetNotFound(msg));
            },
        }
    } else if is_word(&p.part_type, "button") {
        PartType::Button
    } else if is_word(&p.part_type, "text_input") {
        PartType::TextInput
    } else if is_word(&p.part_type, "static_text") {
        PartType::StaticText
    } else if is_word(&p.part_type, "vscroll_container") {
        PartType::VScrollContainer
    } else {
        return Err(SkinError::InvalidPartType(p.part_type));
    };
    let child = match p.child {
        Some(c) => match convert_part(*c) {
            Ok(sp) => Some(Box::new(sp)),
            Err(e) => {
                return Err(e);
            },
        },
        None => None,
    };
    let text_color = match &p.text_color {
        Some(c) => parse_color(c.as_str()),
        None => None,
    };
    let text_align = match &p.text_align {
        Some(a) => Some(read_align(a)),
        None => None,
    };
    let vertical_align = match &p.vertical_align {
        Some(a) => Some(read_valign(a)),
        None => None,
    };
    let validation = match p.validation {
        Some(v) => Some(read_validation(v)),
        None => None,
    };
    let hit = match p.hit {
        Some(_) => Some(PartHit { hit_type: HitType::Rect }),
        None => None,
    };
    Ok(SkinPart {
        id: p.id,
        part_type,
        x: p.x,
        y: p.y,
        width: p.width,
        height: p.height,
        z: p.z,
        draw: p.draw,
        text_input_draw: p.text_input_draw,
        directory_picker_draw: None,
        file_picker_draw: None,
        scrollbar: p.scrollbar,
        hit,
        action: p.action,
        text_color,
        padding: p.padding,
        font_size_bits: p.font_size_bits,
        max_length: p.max_length,
        validation,
        content: p.content,
        text_align,
        vertical_align,
        binding: p.binding,
        content_height: p.content_height,
        child,
        filter: None,
        on_select: None,
    })
}

} // verus!
