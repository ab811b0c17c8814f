use vstd::prelude::*;
use vstd::string::StringExecFns;
use crate::image::{same_image, Image};
use crate::rect::Rect;
use crate::skin::assets::LoadedSkin;
use crate::skin::types::{
    PartType, SkinError, SkinErrorView, SkinPart, SkinWindow, TextAlign, TextValidation,
    VerticalAlign,
};
use crate::tree::{NodeId, UiTree};
use crate::widget::Widget;
use crate::widgets::container::Container;
use crate::widgets::skin_button::SkinButton;
use crate::widgets::skin_image::SkinImage;
use crate::widgets::skin_vscroll::SkinVScroll;
use crate::widgets::static_text::{StaticText, DEFAULT_FONT_SIZE_BITS};
use crate::widgets::text_input::TextInput;

verus! {

pub open spec fn opt_view(o: Option<String>) -> Option<Seq<char>> {
    match o {
        Some(s) => Some(s@),
        None => None,
    }
}

/// The first of `keys` the skin holds no image for, as an error.
pub open spec fn first_missing(skin: LoadedSkin, keys: Seq<Seq<char>>) -> Option<SkinErrorView>
    decreases keys.len(),
{
    if keys.len() == 0 {
        None
    } else if !skin.has_image(keys[0]) {
        Some(SkinErrorView::AssetNotFound(keys[0]))
    } else {
        first_missing(skin, keys.drop_first())
    }
}

/// Why a part cannot be built, if it cannot: a missing draw section, a
/// missing asset (the first in the order the variant needs them), or a
/// variant this library does not build. A scroll container's child is built
/// before the container's own images are looked up.
pub open spec fn part_error(skin: LoadedSkin, p: SkinPart) -> Option<SkinErrorView>
    decreases p,
{
    match p.part_type {
        PartType::Image { asset } => first_missing(skin, seq![asset@]),
        PartType::Button => match p.draw {
            None => Some(SkinErrorView::MissingDrawSection(p.id@)),
            Some(d) => first_missing(skin, seq![d.normal@, d.hover@, d.pressed@]),
        },
        PartType::TextInput => match p.text_input_draw {
            None => Some(SkinErrorView::MissingDrawSection(p.id@)),
            Some(d) => match d.invalid {
                Some(k) => first_missing(skin, seq![d.normal@, d.hover@, d.focused@, k@]),
                None => first_missing(skin, seq![d.normal@, d.hover@, d.focused@]),
            },
        },
        PartType::StaticText => None,
        PartType::VScrollContainer => match p.scrollbar {
            None => Some(SkinErrorView::MissingDrawSection(p.id@)),
            Some(sb) => {
                let child_error = match p.child {
                    Some(c) => part_error(skin, *c),
                    None => None,
                };
                match child_error {
                    Some(e) => Some(e),
                    None => first_missing(skin, seq![sb.track@, sb.thumb@]),
                }
            },
        },
        PartType::DirectoryPicker => Some(SkinErrorView::InvalidPartType("directory_picker"@)),
        PartType::FilePicker => Some(SkinErrorView::InvalidPartType("file_picker"@)),
    }
}

/// `w` is the widget the builder makes for `p`: the variant that matches the
/// part type, carrying the part's action or binding.
pub open spec fn built_as(skin: LoadedSkin, w: Widget, p: SkinPart) -> bool
    decreases p,
{
    match p.part_type {
        PartType::Image { asset } => w is SkinImage && same_image(
            w->SkinImage_0.image_spec(),
            skin.image_of(asset@),
        ),
        PartType::Button => {
            &&& w is SkinButton
            &&& w->SkinButton_0.action_spec() == opt_view(p.action)
            &&& p.draw is Some
            &&& same_image(w->SkinButton_0.images_spec().0, skin.image_of(p.draw->Some_0.normal@))
            &&& same_image(w->SkinButton_0.images_spec().1, skin.image_of(p.draw->Some_0.hover@))
            &&& same_image(w->SkinButton_0.images_spec().2, skin.image_of(p.draw->Some_0.pressed@))
        },
        PartType::TextInput => {
            &&& w is TextInput
            &&& w->TextInput_0.binding_spec() == opt_view(p.binding)
            &&& w->TextInput_0.text_spec() == Seq::<char>::empty()
            &&& !w->TextInput_0.dirty_spec()
            &&& w->TextInput_0.max_length_spec() == p.max_length
            &&& w->TextInput_0.change_action_spec() == opt_view(p.action)
            &&& p.text_input_draw is Some
            &&& {
                let d = p.text_input_draw->Some_0;
                let imgs = w->TextInput_0.images_spec();
                &&& same_image(imgs.0, skin.image_of(d.normal@))
                &&& same_image(imgs.1, skin.image_of(d.hover@))
                &&& same_image(imgs.2, skin.image_of(d.focused@))
                &&& match d.invalid {
                    Some(k) => imgs.3 is Some && same_image(imgs.3->Some_0, skin.image_of(k@)),
                    None => imgs.3 is None,
                }
            }
            &&& match p.validation {
                Some(v) => same_mode(w->TextInput_0.mode(), v),
                None => w->TextInput_0.mode() == TextValidation::Any,
            }
        },
        PartType::StaticText => {
            &&& w is StaticText
            &&& w->StaticText_0.binding_spec() == opt_view(p.binding)
            &&& w->StaticText_0.content_spec() == match p.content {
                Some(c) => c@,
                None => Seq::<char>::empty(),
            }
            &&& w->StaticText_0.style() == (
                match p.font_size_bits {
                    Some(b) => b,
                    None => DEFAULT_FONT_SIZE_BITS,
                },
                match p.text_color {
                    Some(c) => c,
                    None => 0u32,
                },
                match p.text_align {
                    Some(a) => a,
                    None => TextAlign::Left,
                },
                match p.vertical_align {
                    Some(a) => a,
                    None => VerticalAlign::Center,
                },
                match p.padding {
                    Some(x) => x,
                    None => 0u32,
                },
            )
        },
        PartType::VScrollContainer => {
            &&& w is SkinVScroll
            &&& w->SkinVScroll_0.size_spec() == (p.width, p.height)
            &&& match (p.child, w->SkinVScroll_0.child_spec()) {
                (Some(cp), Some(cw)) => built_as(skin, cw, *cp),
                (None, None) => true,
                _ => false,
            }
        },
        _ => false,
    }
}

proof fn lemma_missing_of_three(skin: LoadedSkin, a: Seq<char>, b: Seq<char>, c: Seq<char>)
    ensures
        first_missing(skin, seq![a, b, c]) == if !skin.has_image(a) {
            Some(SkinErrorView::AssetNotFound(a))
        } else if !skin.has_image(b) {
            Some(SkinErrorView::AssetNotFound(b))
        } else if !skin.has_image(c) {
            Some(SkinErrorView::AssetNotFound(c))
        } else {
            None
        },
{
    reveal_with_fuel(first_missing, 4);
    assert(seq![a, b, c].drop_first() =~= seq![b, c]);
    assert(seq![b, c].drop_first() =~= seq![c]);
    assert(seq![c].drop_first() =~= Seq::<Seq<char>>::empty());
}

proof fn lemma_missing_of_four(skin: LoadedSkin, a: Seq<char>, b: Seq<char>, c: Seq<char>, d: Seq<char>)
    ensures
        first_missing(skin, seq![a, b, c, d]) == if !skin.has_image(a) {
            Some(SkinErrorView::AssetNotFound(a))
        } else if !skin.has_image(b) {
            Some(SkinErrorView::AssetNotFound(b))
        } else if !skin.has_image(c) {
            Some(SkinErrorView::AssetNotFound(c))
        } else if !skin.has_image(d) {
            Some(SkinErrorView::AssetNotFound(d))
        } else {
            None
        },
{
    reveal_with_fuel(first_missing, 5);
    assert(seq![a, b, c, d].drop_first() =~= seq![b, c, d]);
    assert(seq![b, c, d].drop_first() =~= seq![c, d]);
    assert(seq![c, d].drop_first() =~= seq![d]);
    assert(seq![d].drop_first() =~= Seq::<Seq<char>>::empty());
}

proof fn lemma_missing_of_two(skin: LoadedSkin, a: Seq<char>, b: Seq<char>)
    ensures
        first_missing(skin, seq![a, b]) == if !skin.has_image(a) {
            Some(SkinErrorView::AssetNotFound(a))
        } else if !skin.has_image(b) {
            Some(SkinErrorView::AssetNotFound(b))
        } else {
            None
        },
{
    reveal_with_fuel(first_missing, 3);
    assert(seq![a, b].drop_first() =~= seq![b]);
    assert(seq![b].drop_first() =~= Seq::<Seq<char>>::empty());
}

proof fn lemma_missing_of_one(skin: LoadedSkin, a: Seq<char>)
    ensures
        first_missing(skin, seq![a]) == if !skin.has_image(a) {
            Some(SkinErrorView::AssetNotFound(a))
        } else {
            None
        },
{
    reveal_with_fuel(first_missing, 2);
    assert(seq![a].drop_first() =~= Seq::<Seq<char>>::empty());
}

/// The rectangle a part declares.
pub open spec fn part_rect(p: SkinPart) -> Rect {
    Rect { x: p.x, y: p.y, width: p.width, height: p.height }
}

/// Part `a` paints before part `b`: lower z first, and declaration order
/// among equal z.
pub open spec fn paints_before(parts: Seq<SkinPart>, a: int, b: int) -> bool {
    parts[a].z < parts[b].z || (parts[a].z == parts[b].z && a < b)
}

/// `order` lists every part index once, in paint order.
pub open spec fn z_sorted(parts: Seq<SkinPart>, order: Seq<usize>) -> bool {
    &&& order.len() == parts.len()
    &&& forall|q: int| 0 <= q < order.len() ==> (#[trigger] order[q]) < parts.len()
    &&& forall|j: usize| 0 <= j < parts.len() ==> #[trigger] order.contains(j)
    &&& forall|a: int, b: int|
        0 <= a < b < order.len() ==> paints_before(parts, order[a] as int, order[b] as int)
}

/// The first error met when building the parts in `order` from position `q` on.
pub open spec fn first_failure(skin: LoadedSkin, parts: Seq<SkinPart>, order: Seq<usize>, q: int) -> Option<
    SkinErrorView,
>
    decreases order.len() - q,
{
    if q < 0 || q >= order.len() {
        None
    } else {
        match part_error(skin, parts[order[q] as int]) {
            Some(e) => Some(e),
            None => first_failure(skin, parts, order, q + 1),
        }
    }
}

proof fn lemma_first_failure_skip(skin: LoadedSkin, parts: Seq<SkinPart>, order: Seq<usize>, k: int)
    requires
        0 <= k <= order.len(),
        forall|j: int| 0 <= j < k ==> part_error(skin, parts[#[trigger] order[j] as int]) is None,
    ensures
        first_failure(skin, parts, order, 0) == first_failure(skin, parts, order, k),
    decreases k,
{
    if k > 0 {
        lemma_first_failure_skip(skin, parts, order, k - 1);
        assert(part_error(skin, parts[order[k - 1] as int]) is None);
    }
}

/// The tree `build` makes from `skin` with its parts in `order`: a
/// transparent root container as large as the window, and below it one leaf
/// per part, in paint order, each at its declared rectangle.
pub open spec fn built_tree(skin: LoadedSkin, tree: UiTree, order: Seq<usize>) -> bool {
    let parts = skin.skin_spec().parts@;
    let win = skin.skin_spec().window;
    &&& tree.wf()
    &&& tree.root_spec() is Some
    &&& {
        let root = tree.root_spec()->Some_0;
        let kids = tree.node(root).children_spec();
        &&& tree.has(root)
        &&& tree.node(root).widget_spec() is Container
        &&& tree.node(root).widget_spec()->Container_0.is_transparent()
        &&& tree.node(root).widget_spec()->Container_0.size_spec() == (win.width, win.height)
        &&& tree.node(root).bounds_spec() == (Rect { x: 0, y: 0, width: win.width, height: win.height })
        &&& tree.node(root).parent_spec() is None
        &&& kids.len() == order.len()
        &&& forall|n: NodeId| #[trigger] tree.has(n) <==> (n == root || kids.contains(n))
        &&& forall|k: int|
            0 <= k < kids.len() ==> {
                let c = #[trigger] kids[k];
                let p = parts[order[k] as int];
                &&& tree.has(c)
                &&& tree.node(c).bounds_spec() == part_rect(p)
                &&& built_as(skin, tree.node(c).widget_spec(), p)
                &&& tree.node(c).children_spec() == Seq::<NodeId>::empty()
                &&& tree.node(c).parent_spec() == Some(root)
            }
    }
    &&& tree.hovered_spec() is None
    &&& tree.pressed_spec() is None
    &&& tree.focused_spec() is None
    &&& tree.captured_spec() is None
}

/// Paint order among equal z follows declaration order.
pub proof fn lemma_ties_keep_declaration_order(parts: Seq<SkinPart>, order: Seq<usize>, a: int, b: int)
    requires
        z_sorted(parts, order),
        0 <= a < order.len(),
        0 <= b < order.len(),
        parts[order[a] as int].z == parts[order[b] as int].z,
        order[a] < order[b],
    ensures
        a < b,
{
    if b < a {
        assert(paints_before(parts, order[b] as int, order[a] as int));
    } else if a == b {
    }
}

proof fn lemma_failure_from(skin: LoadedSkin, parts: Seq<SkinPart>, order: Seq<usize>, q0: int, q: int)
    requires
        0 <= q0 <= q < order.len(),
        part_error(skin, parts[order[q] as int]) is Some,
    ensures
        first_failure(skin, parts, order, q0) is Some,
    decreases q - q0,
{
    if q0 < q {
        lemma_failure_from(skin, parts, order, q0 + 1, q);
    }
}

/// A skin with any part that cannot be built yields no tree: whatever the
/// paint order, building meets a failure.
pub proof fn lemma_bad_part_fails_build(skin: LoadedSkin, order: Seq<usize>, j: usize)
    requires
        z_sorted(skin.skin_spec().parts@, order),
        j < skin.skin_spec().parts@.len(),
        part_error(skin, skin.skin_spec().parts@[j as int]) is Some,
    ensures
        first_failure(skin, skin.skin_spec().parts@, order, 0) is Some,
{
    let parts = skin.skin_spec().parts@;
    assert(order.contains(j));
    let q = order.index_of(j);
    lemma_failure_from(skin, parts, order, 0, q);
}

/// When the first part in paint order that cannot be built is an image whose
/// asset the skin lacks, building fails with that key as not found.
pub proof fn lemma_missing_image_asset(skin: LoadedSkin, order: Seq<usize>, q: int, key: Seq<char>)
    requires
        z_sorted(skin.skin_spec().parts@, order),
        0 <= q < order.len(),
        forall|j: int|
            0 <= j < q ==> part_error(skin, skin.skin_spec().parts@[#[trigger] order[j] as int]) is None,
        skin.skin_spec().parts@[order[q] as int].part_type is Image,
        skin.skin_spec().parts@[order[q] as int].part_type->asset@ == key,
        !skin.has_image(key),
    ensures
        first_failure(skin, skin.skin_spec().parts@, order, 0) == Some(SkinErrorView::AssetNotFound(key)),
{
    let parts = skin.skin_spec().parts@;
    lemma_first_failure_skip(skin, parts, order, q);
    lemma_missing_of_one(skin, key);
}

/// When the first part in paint order that cannot be built is a button and
/// `key` is the first of its normal, hover and pressed images that the skin
/// lacks, building fails with that key as not found.
pub proof fn lemma_missing_button_asset(skin: LoadedSkin, order: Seq<usize>, q: int, key: Seq<char>)
    requires
        z_sorted(skin.skin_spec().parts@, order),
        0 <= q < order.len(),
        forall|j: int|
            0 <= j < q ==> part_error(skin, skin.skin_spec().parts@[#[trigger] order[j] as int]) is None,
        skin.skin_spec().parts@[order[q] as int].part_type is Button,
        skin.skin_spec().parts@[order[q] as int].draw is Some,
        !skin.has_image(key),
        ({
            let d = skin.skin_spec().parts@[order[q] as int].draw->Some_0;
            key == d.normal@ || (key == d.hover@ && skin.has_image(d.normal@)) || (key == d.pressed@
                && skin.has_image(d.normal@) && skin.has_image(d.hover@))
        }),
    ensures
        first_failure(skin, skin.skin_spec().parts@, order, 0) == Some(SkinErrorView::AssetNotFound(key)),
{
    let parts = skin.skin_spec().parts@;
    let d = parts[order[q] as int].draw->Some_0;
    lemma_first_failure_skip(skin, parts, order, q);
    lemma_missing_of_three(skin, d.normal@, d.hover@, d.pressed@);
}

/// When the first part in paint order that cannot be built is a text input
/// and `key` is the first of its normal, hover, focused and (if named)
/// invalid images that the skin lacks, building fails with that key as not found.
pub proof fn lemma_missing_input_asset(skin: LoadedSkin, order: Seq<usize>, q: int, key: Seq<char>)
    requires
        z_sorted(skin.skin_spec().parts@, order),
        0 <= q < order.len(),
        forall|j: int|
            0 <= j < q ==> part_error(skin, skin.skin_spec().parts@[#[trigger] order[j] as int]) is None,
        skin.skin_spec().parts@[order[q] as int].part_type is TextInput,
        skin.skin_spec().parts@[order[q] as int].text_input_draw is Some,
        !skin.has_image(key),
        ({
            let d = skin.skin_spec().parts@[order[q] as int].text_input_draw->Some_0;
            key == d.normal@ || (key == d.hover@ && skin.has_image(d.normal@)) || (key == d.focused@
                && skin.has_image(d.normal@) && skin.has_image(d.hover@)) || (d.invalid is Some
                && key == d.invalid->Some_0@ && skin.has_image(d.normal@) && skin.has_image(d.hover@)
                && skin.has_image(d.focused@))
        }),
    ensures
        first_failure(skin, skin.skin_spec().parts@, order, 0) == Some(SkinErrorView::AssetNotFound(key)),
{
    let parts = skin.skin_spec().parts@;
    let d = parts[order[q] as int].text_input_draw->Some_0;
    lemma_first_failure_skip(skin, parts, order, q);
    lemma_missing_of_three(skin, d.normal@, d.hover@, d.focused@);
    if let Some(k) = d.invalid {
        lemma_missing_of_four(skin, d.normal@, d.hover@, d.focused@, k@);
    }
}

/// Builds live trees from skins.
pub struct SkinBuilder;

/// Looks up the image under `key` and copies it.
fn image_for(skin: &LoadedSkin, key: &String) -> (r: Result<Image, SkinError>)
    requires
        skin.wf(),
    ensures
        match r {
            Ok(img) => skin.has_image(key@) && img.wf() && same_image(img, skin.image_of(key@)),
            Err(e) => !skin.has_image(key@) && e@ == SkinErrorView::AssetNotFound(key@),
        },
{
    match skin.get_image(key.as_str()) {
        Some(img) => Ok(img.duplicate()),
        None => Err(SkinError::AssetNotFound(key.clone())),
    }
}

/// Two validation modes are the same, a pattern by its characters.
pub open spec fn same_mode(a: TextValidation, b: TextValidation) -> bool {
    match (a, b) {
        (TextValidation::Pattern(x), TextValidation::Pattern(y)) => x@ == y@,
        _ => a == b,
    }
}

fn copy_validation(v: &TextValidation) -> (r: TextValidation)
    ensures
        same_mode(r, *v),
{
    match v {
        TextValidation::Any => TextValidation::Any,
        TextValidation::Numeric => TextValidation::Numeric,
        TextValidation::Alpha => TextValidation::Alpha,
        TextValidation::Alphanumeric => TextValidation::Alphanumeric,
        TextValidation::Pattern(p) => TextValidation::Pattern(p.clone()),
    }
}

fn copy_opt(o: &Option<String>) -> (r: Option<String>)
    ensures
        opt_view(r) == opt_view(*o),
{
    match o {
        Some(s) => Some(s.clone()),
        None => None,
    }
}

impl SkinBuilder {
    /// Builds the live tree of a skin: a transparent root container as large
    /// as the window, then one child of the root per part, in paint order (z
    /// ascending, declaration order among equal z), each at its declared
    /// rectangle. The first part that cannot be built ends the build with its
    /// error, and no tree is handed back.
    pub fn build(skin: &LoadedSkin) -> (r: Result<(UiTree, SkinWindow), SkinError>)
        requires
            skin.wf(),
        ensures
            match r {
                Ok((tree, window)) => {
                    &&& window == skin.skin_spec().window
                    &&& exists|order: Seq<usize>|
                        z_sorted(skin.skin_spec().parts@, order) && first_failure(
                            *skin,
                            skin.skin_spec().parts@,
                            order,
                            0,
                        ) is None && built_tree(*skin, tree, order)
                },
                Err(e) => exists|order: Seq<usize>|
                    z_sorted(skin.skin_spec().parts@, order) && first_failure(
                        *skin,
                        skin.skin_spec().parts@,
                        order,
                        0,
                    ) == Some(e@),
            },
    {
        let ghost parts = skin.skin_spec().parts@;
        let window = *skin.window();
        let mut tree = UiTree::new();
        let root_widget = Widget::Container(Container::transparent(window.width, window.height));
        let root = tree.add(root_widget, None);
        let ghost t0 = tree;
        tree.set_bounds(root, Rect::new(0, 0, window.width, window.height));
        proof {
            assert(t0.has(root));
            assert(tree.has(root));
            assert forall|m: NodeId| #[trigger] tree.has(m) <==> m == root by {
                assert(tree.has(m) == t0.has(m));
            }
        }
        let order = SkinBuilder::z_order(skin.parts());
        let n = order.len();
        let ghost mut ids: Seq<NodeId> = Seq::empty();
        let mut k: usize = 0;
        while k < n
            invariant
                skin.wf(),
                parts == skin.skin_spec().parts@,
                window == skin.skin_spec().window,
                z_sorted(parts, order@),
                n == order@.len(),
                0 <= k <= n,
                ids.len() == k,
                tree.wf(),
                tree.root_spec() == Some(root),
                tree.has(root),
                tree.node(root).widget_spec() is Container,
                tree.node(root).widget_spec()->Container_0.is_transparent(),
                tree.node(root).widget_spec()->Container_0.size_spec() == (window.width, window.height),
                tree.node(root).bounds_spec() == (Rect { x: 0, y: 0, width: window.width, height: window.height }),
                tree.node(root).parent_spec() is None,
                tree.node(root).children_spec() == ids,
                forall|m: NodeId| #[trigger] tree.has(m) <==> (m == root || ids.contains(m)),
                forall|j: int|
                    0 <= j < k ==> part_error(*skin, parts[#[trigger] order@[j] as int]) is None,
                forall|j: int|
                    0 <= j < ids.len() ==> {
                        let c = #[trigger] ids[j];
                        let p = parts[order@[j] as int];
                        &&& tree.has(c)
                        &&& tree.node(c).bounds_spec() == part_rect(p)
                        &&& built_as(*skin, tree.node(c).widget_spec(), p)
                        &&& tree.node(c).children_spec() == Seq::<NodeId>::empty()
                        &&& tree.node(c).parent_spec() == Some(root)
                    },
                tree.hovered_spec() is None,
                tree.pressed_spec() is None,
                tree.focused_spec() is None,
                tree.captured_spec() is None,
            decreases n - k,
        {
            let idx = order[k];
            let part = &skin.parts()[idx];
            let widget = match SkinBuilder::create_widget(part, skin) {
                Ok(w) => w,
                Err(e) => {
                    proof {
                        lemma_first_failure_skip(*skin, parts, order@, k as int);
                        assert(z_sorted(skin.skin_spec().parts@, order@) && first_failure(
                            *skin,
                            skin.skin_spec().parts@,
                            order@,
                            0,
                        ) == Some(e@));
                    }
                    return Err(e);
                },
            };
            let ghost before = tree;
            let id = tree.add(widget, Some(root));
            let ghost mid = tree;
            tree.set_bounds(id, Rect::new(part.x, part.y, part.width, part.height));
            proof {
                assert(before.has(root));
                assert(mid.has(root) && mid.has(id));
                assert(tree.has(root) && tree.has(id));
                let ids2 = ids.push(id);
                assert(!ids.contains(id));
                assert forall|m: NodeId| #[trigger] tree.has(m) <==> (m == root || ids2.contains(m)) by {
                    if ids2.contains(m) && m != id {
                        let j = ids2.index_of(m);
                        assert(ids[j] == m);
                    }
                    if ids.contains(m) {
                        let j = ids.index_of(m);
                        assert(ids2[j] == m);
                    }
                    assert(ids2[ids.len() as int] == id);
                }
                assert forall|j: int| 0 <= j < ids2.len() implies {
                    let c = #[trigger] ids2[j];
                    let p = parts[order@[j] as int];
                    &&& tree.has(c)
                    &&& tree.node(c).bounds_spec() == part_rect(p)
                    &&& built_as(*skin, tree.node(c).widget_spec(), p)
                    &&& tree.node(c).children_spec() == Seq::<NodeId>::empty()
                    &&& tree.node(c).parent_spec() == Some(root)
                } by {
                    if j < ids.len() {
                        assert(ids2[j] == ids[j]);
                        assert(before.has(ids[j]));
                        assert(mid.has(ids[j]));
                        assert(tree.has(ids[j]));
                    } else {
                        assert(ids2[j] == id);
                    }
                }
                ids = ids2;
            }
            k += 1;
        }
        proof {
            lemma_first_failure_skip(*skin, parts, order@, n as int);
            assert(built_tree(*skin, tree, order@));
            assert(z_sorted(skin.skin_spec().parts@, order@) && first_failure(
                *skin,
                skin.skin_spec().parts@,
                order@,
                0,
            ) is None && built_tree(*skin, tree, order@));
            assert(window == skin.skin_spec().window);
        }
        let result = (tree, window);
        assert(result.1 == skin.skin_spec().window);
        assert(built_tree(*skin, result.0, order@));
        Ok(result)
    }

    /// The indices of `parts` in paint order: a stable sort by z.
    pub fn z_order(parts: &Vec<SkinPart>) -> (r: Vec<usize>)
        ensures
            z_sorted(parts@, r@),
    {
        let n = parts.len();
        let mut order: Vec<usize> = Vec::new();
        let mut i: usize = 0;
        while i < n
            invariant
                0 <= i <= n,
                n == parts@.len(),
                order@.len() == i,
                forall|q: int| 0 <= q < order@.len() ==> (#[trigger] order@[q]) < i,
                forall|j: usize| 0 <= j < i ==> #[trigger] order@.contains(j),
                forall|a: int, b: int|
                    0 <= a < b < order@.len() ==> paints_before(
                        parts@,
                        order@[a] as int,
                        order@[b] as int,
                    ),
            decreases n - i,
        {
            let z = parts[i].z;
            let mut pos: usize = 0;
            while pos < order.len() && parts[order[pos]].z <= z
                invariant
                    0 <= pos <= order@.len(),
                    i < n,
                    n == parts@.len(),
                    z == parts@[i as int].z,
                    forall|q: int| 0 <= q < order@.len() ==> (#[trigger] order@[q]) < i,
                    forall|q: int| 0 <= q < pos ==> parts@[#[trigger] order@[q] as int].z <= z,
                decreases order@.len() - pos,
            {
                pos += 1;
            }
            let ghost old_order = order@;
            order.insert(pos, i);
            proof {
                assert(order@ == old_order.insert(pos as int, i));
                assert forall|q: int| 0 <= q < order@.len() implies (#[trigger] order@[q]) < i + 1 by {
                    if q < pos {
                        assert(order@[q] == old_order[q]);
                    } else if q > pos {
                        assert(order@[q] == old_order[q - 1]);
                    }
                }
                assert forall|j: usize| 0 <= j < i + 1 implies #[trigger] order@.contains(j) by {
                    if j == i {
                        assert(order@[pos as int] == i);
                    } else {
                        assert(old_order.contains(j));
                        let q = old_order.index_of(j);
                        if q < pos {
                            assert(order@[q] == j);
                        } else {
                            assert(order@[q + 1] == j);
                        }
                    }
                }
                assert forall|a: int, b: int| 0 <= a < b < order@.len() implies paints_before(
                    parts@,
                    order@[a] as int,
                    order@[b] as int,
                ) by {
                    if pos < old_order.len() {
                        assert(parts@[old_order[pos as int] as int].z > z);
                    }
                    if a < pos && b < pos {
                        assert(order@[a] == old_order[a] && order@[b] == old_order[b]);
                    } else if a < pos && b == pos {
                        assert(order@[a] == old_order[a]);
                    } else if a < pos && b > pos {
                        assert(order@[a] == old_order[a] && order@[b] == old_order[b - 1]);
                    } else if a == pos {
                        assert(order@[b] == old_order[b - 1]);
                        if b - 1 > pos {
                            assert(paints_before(parts@, old_order[pos as int] as int, old_order[b - 1] as int));
                        }
                    } else {
                        assert(order@[a] == old_order[a - 1] && order@[b] == old_order[b - 1]);
                    }
                }
            }
            i += 1;
        }
        order
    }

    /// Makes the widget for one part, failing fast on a missing draw section
    /// or asset; a scroll container's child is made first.
    pub fn create_widget(part: &SkinPart, skin: &LoadedSkin) -> (r: Result<Widget, SkinError>)
        requires
            skin.wf(),
        ensures
            match r {
                Ok(w) => part_error(*skin, *part) is None && w.wf() && built_as(*skin, w, *part),
                Err(e) => part_error(*skin, *part) == Some(e@),
            },
        decreases part,
    {
        match &part.part_type {
            PartType::Image { asset } => {
                proof {
                    lemma_missing_of_one(*skin, asset@);
                }
                let image = image_for(skin, asset)?;
                Ok(Widget::SkinImage(SkinImage::new(image)))
            },
            PartType::Button => {
                let draw = match &part.draw {
                    Some(d) => d,
                    None => {
                        return Err(SkinError::MissingDrawSection(part.id.clone()));
                    },
                };
                proof {
                    lemma_missing_of_three(*skin, draw.normal@, draw.hover@, draw.pressed@);
                }
                let normal = image_for(skin, &draw.normal)?;
                let hover = image_for(skin, &draw.hover)?;
                let pressed = image_for(skin, &draw.pressed)?;
                Ok(Widget::SkinButton(SkinButton::new(normal, hover, pressed, copy_opt(&part.action))))
            },
            PartType::TextInput => {
                let draw = match &part.text_input_draw {
                    Some(d) => d,
                    None => {
                        return Err(SkinError::MissingDrawSection(part.id.clone()));
                    },
                };
                proof {
                    lemma_missing_of_three(*skin, draw.normal@, draw.hover@, draw.focused@);
                    if let Some(k) = &draw.invalid {
                        lemma_missing_of_four(*skin, draw.normal@, draw.hover@, draw.focused@, k@);
                    }
                }
                let normal = image_for(skin, &draw.normal)?;
                let hover = image_for(skin, &draw.hover)?;
                let focused = image_for(skin, &draw.focused)?;
                let invalid = match &draw.invalid {
                    Some(key) => {
                        proof {
                            lemma_missing_of_four(*skin, draw.normal@, draw.hover@, draw.focused@, key@);
                        }
                        Some(image_for(skin, key)?)
                    },
                    None => None,
                };
                let mut input = TextInput::new(normal, hover, focused, invalid);
                if let Some(action) = &part.action {
                    input = input.with_on_change(action.clone());
                }
                if let Some(color) = part.text_color {
                    input = input.with_text_color(color);
                }
                if let Some(padding) = part.padding {
                    input = input.with_padding(padding);
                }
                if let Some(bits) = part.font_size_bits {
                    input = input.with_font_size_bits(bits);
                }
                if let Some(max) = part.max_length {
                    input = input.with_max_length(max);
                }
                if let Some(validation) = &part.validation {
                    input = input.with_validation(copy_validation(validation));
                }
                if let Some(binding) = &part.binding {
                    input = input.with_binding(binding.clone());
                }
                Ok(Widget::TextInput(input))
            },
            PartType::StaticText => {
                let content = match &part.content {
                    Some(c) => c.clone(),
                    None => String::new(),
                };
                let mut text = StaticText::new(content);
                if let Some(bits) = part.font_size_bits {
                    text = text.with_font_size_bits(bits);
                }
                if let Some(color) = part.text_color {
                    text = text.with_text_color(color);
                }
                if let Some(align) = part.text_align {
                    text = text.with_text_align(align);
                }
                if let Some(valign) = part.vertical_align {
                    text = text.with_vertical_align(valign);
                }
                if let Some(padding) = part.padding {
                    text = text.with_padding(padding);
                }
                if let Some(binding) = &part.binding {
                    text = text.with_binding(binding.clone());
                }
                Ok(Widget::StaticText(text))
            },
            PartType::VScrollContainer => {
                let bar = match &part.scrollbar {
                    Some(b) => b,
                    None => {
                        return Err(SkinError::MissingDrawSection(part.id.clone()));
                    },
                };
                let child = match &part.child {
                    Some(c) => Some(SkinBuilder::create_widget(&**c, skin)?),
                    None => None,
                };
                proof {
                    lemma_missing_of_two(*skin, bar.track@, bar.thumb@);
                }
                let track = image_for(skin, &bar.track)?;
                let thumb = image_for(skin, &bar.thumb)?;
                let mut scroll = SkinVScroll::new(part.width, part.height, track, thumb);
                if let Some(c) = child {
                    scroll = scroll.with_child(Box::new(c));
                }
                if let Some(h) = part.content_height {
                    scroll = scroll.with_content_height(h);
                }
                Ok(Widget::SkinVScroll(scroll))
            },
            PartType::DirectoryPicker => {
                let name = String::from_str("directory_picker");
                proof {
                    reveal_strlit("directory_picker");
                }
                Err(SkinError::InvalidPartType(name))
            },
            PartType::FilePicker => {
                let name = String::from_str("file_picker");
                proof {
                    reveal_strlit("file_picker");
                }
                Err(SkinError::InvalidPartType(name))
            },
        }
    }
}

} // verus!
