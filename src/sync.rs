use vstd::prelude::*;
use crate::skin::assets::str_eq;
use crate::store::{text_of, Store, Value, ValueView};
use crate::tree::{NodeId, UiTree};
use crate::widget::Widget;
use crate::widgets::container::Container;

verus! {

/// What an input widget has to write back, if anything: the key it is
/// bound to and its value, when it changed since the last sweep.
pub open spec fn pending(w: Widget) -> Option<(Seq<char>, ValueView)> {
    match w {
        Widget::TextInput(t) => if t.dirty_spec() && t.binding_spec() is Some {
            Some((t.binding_spec()->Some_0, ValueView::Text(t.text_spec())))
        } else {
            None
        },
        Widget::Checkbox(c) => if c.dirty_spec() && c.binding_spec() is Some {
            Some((c.binding_spec()->Some_0, ValueView::Bool(c.checked_spec())))
        } else {
            None
        },
        _ => None,
    }
}

/// The store after writing back the pending values of the nodes `ids` of
/// `t`, in that order.
pub open spec fn pushed(t: UiTree, m: Map<Seq<char>, ValueView>, ids: Seq<NodeId>) -> Map<
    Seq<char>,
    ValueView,
>
    decreases ids.len(),
{
    if ids.len() == 0 {
        m
    } else {
        let before = pushed(t, m, ids.drop_last());
        match pending(t.node(ids.last()).widget_spec()) {
            Some((k, v)) => before.insert(k, v),
            None => before,
        }
    }
}

/// `after` is `before` with its change flag cleared and nothing else changed
/// that the sweeps look at.
pub open spec fn settled(before: Widget, after: Widget) -> bool {
    match before {
        Widget::TextInput(t) => after is TextInput && {
            let u = after->TextInput_0;
            &&& u.text_spec() == t.text_spec()
            &&& u.binding_spec() == t.binding_spec()
            &&& !u.dirty_spec()
        },
        Widget::Checkbox(c) => after is Checkbox && {
            let u = after->Checkbox_0;
            &&& u.checked_spec() == c.checked_spec()
            &&& u.binding_spec() == c.binding_spec()
            &&& !u.dirty_spec()
        },
        _ => after == before,
    }
}

/// A widget's write-back, and the widget with its flag cleared.
fn settle(w: Widget) -> (r: (Widget, Option<(String, Value)>))
    requires
        w.wf(),
    ensures
        r.0.wf(),
        settled(w, r.0),
        match r.1 {
            Some((k, v)) => pending(w) == Some((k@, v@)),
            None => pending(w) is None,
        },
{
    match w {
        Widget::TextInput(mut t) => {
            let ghost t0 = t;
            let mut out = None;
            if t.is_dirty() {
                if let Some(b) = t.binding() {
                    let key = b.to_owned();
                    let text = t.text().to_owned();
                    out = Some((key, Value::string(text)));
                }
                t.clear_dirty();
            }
            assert(t.text_spec() == t0.text_spec());
            assert(t.binding_spec() == t0.binding_spec());
            assert(!t.dirty_spec());
            (Widget::TextInput(t), out)
        },
        Widget::Checkbox(mut c) => {
            let mut out = None;
            if c.is_dirty() {
                if let Some(b) = c.binding() {
                    let key = b.to_owned();
                    out = Some((key, Value::bool(c.is_checked())));
                }
                c.clear_dirty();
            }
            (Widget::Checkbox(c), out)
        },
        other => (other, None),
    }
}

/// Inputs to store: every input widget whose value changed writes it to the
/// key it is bound to, and its change flag is cleared.
pub fn sync_inputs_to_store(tree: &mut UiTree, store: &mut Store)
    requires
        old(tree).wf(),
        old(store).wf(),
    ensures
        final(tree).wf(),
        final(store).wf(),
        UiTree::same_shape(*old(tree), *final(tree)),
        forall|n: NodeId|
            #[trigger] final(tree).has(n) ==> settled(
                old(tree).node(n).widget_spec(),
                final(tree).node(n).widget_spec(),
            ),
        exists|ids: Seq<NodeId>|
            ids.no_duplicates() && (forall|n: NodeId| #[trigger] ids.contains(n) <==> old(tree).has(n))
                && final(store)@ == pushed(*old(tree), old(store)@, ids),
{
    let ids = tree.node_ids();
    let ghost t0 = *tree;
    let ghost m0 = store@;
    let mut i: usize = 0;
    while i < ids.len()
        invariant
            0 <= i <= ids@.len(),
            tree.wf(),
            store.wf(),
            ids@.no_duplicates(),
            forall|n: NodeId| #[trigger] ids@.contains(n) <==> t0.has(n),
            UiTree::same_shape(t0, *tree),
            forall|n: NodeId|
                #[trigger] tree.has(n) ==> if ids@.subrange(0, i as int).contains(n) {
                    settled(t0.node(n).widget_spec(), tree.node(n).widget_spec())
                } else {
                    tree.node(n).widget_spec() == t0.node(n).widget_spec()
                },
            store@ == pushed(t0, m0, ids@.subrange(0, i as int)),
        decreases ids@.len() - i,
    {
        let id = ids[i];
        let ghost before = *tree;
        let ghost done = ids@.subrange(0, i as int);
        let ghost done2 = ids@.subrange(0, i + 1);
        assert(done2.drop_last() == done);
        assert(done2.last() == id);
        assert(ids@.contains(id));
        assert(!done.contains(id)) by {
            if done.contains(id) {
                let j = done.index_of(id);
                assert(ids@[j] == id);
                assert(ids@[i as int] == id);
            }
        }
        let placeholder = Widget::Container(Container::transparent(0, 0));
        match tree.replace_widget(id, placeholder) {
            Some(w) => {
                let (w2, out) = settle(w);
                if let Some((k, v)) = out {
                    store.set(k, v);
                }
                tree.replace_widget(id, w2);
                proof {
                    assert forall|n: NodeId|
                        #[trigger] tree.has(n) implies if done2.contains(n) {
                        settled(t0.node(n).widget_spec(), tree.node(n).widget_spec())
                    } else {
                        tree.node(n).widget_spec() == t0.node(n).widget_spec()
                    } by {
                        assert(before.has(n));
                        if n != id {
                            if done2.contains(n) {
                                let j = done2.index_of(n);
                                assert(done[j] == n);
                            }
                            if done.contains(n) {
                                let j = done.index_of(n);
                                assert(done2[j] == n);
                            }
                        }
                    }
                }
            },
            None => {
                assert(false);
            },
        }
        i += 1;
    }
    proof {
        assert(ids@.subrange(0, ids@.len() as int) == ids@);
    }
}

/// The text a store holds for a key: the value as text, or nothing.
pub open spec fn shown(m: Map<Seq<char>, ValueView>, k: Seq<char>) -> Seq<char> {
    if m.contains_key(k) {
        text_of(m[k])
    } else {
        Seq::empty()
    }
}

/// Store to outputs: a static text bound to a key takes that key's text,
/// unless the text is empty or already shown.
pub fn sync_store_to_outputs(tree: &mut UiTree, store: &Store)
    requires
        old(tree).wf(),
        store.wf(),
    ensures
        final(tree).wf(),
        UiTree::same_shape(*old(tree), *final(tree)),
        forall|n: NodeId|
            #[trigger] final(tree).has(n) ==> match old(tree).node(n).widget_spec() {
                Widget::StaticText(s) => final(tree).node(n).widget_spec() is StaticText && {
                    let u = final(tree).node(n).widget_spec()->StaticText_0;
                    &&& u.binding_spec() == s.binding_spec()
                    &&& u.style() == s.style()
                    &&& u.content_spec() == match s.binding_spec() {
                        Some(k) => if shown(store@, k).len() > 0 && shown(store@, k)
                            != s.content_spec() {
                            shown(store@, k)
                        } else {
                            s.content_spec()
                        },
                        None => s.content_spec(),
                    }
                },
                other => final(tree).node(n).widget_spec() == other,
            },
{
    let ids = tree.node_ids();
    let ghost t0 = *tree;
    let mut i: usize = 0;
    while i < ids.len()
        invariant
            0 <= i <= ids@.len(),
            tree.wf(),
            store.wf(),
            ids@.no_duplicates(),
            forall|n: NodeId| #[trigger] ids@.contains(n) <==> t0.has(n),
            UiTree::same_shape(t0, *tree),
            forall|n: NodeId|
                #[trigger] tree.has(n) ==> if ids@.subrange(0, i as int).contains(n) {
                    match t0.node(n).widget_spec() {
                        Widget::StaticText(s) => tree.node(n).widget_spec() is StaticText && {
                            let u = tree.node(n).widget_spec()->StaticText_0;
                            &&& u.binding_spec() == s.binding_spec()
                            &&& u.style() == s.style()
                            &&& u.content_spec() == match s.binding_spec() {
                                Some(k) => if shown(store@, k).len() > 0 && shown(store@, k)
                                    != s.content_spec() {
                                    shown(store@, k)
                                } else {
                                    s.content_spec()
                                },
                                None => s.content_spec(),
                            }
                        },
                        other => tree.node(n).widget_spec() == other,
                    }
                } else {
                    tree.node(n).widget_spec() == t0.node(n).widget_spec()
                },
        decreases ids@.len() - i,
    {
        let id = ids[i];
        let ghost before = *tree;
        let ghost done = ids@.subrange(0, i as int);
        let ghost done2 = ids@.subrange(0, i + 1);
        assert(ids@.contains(id));
        assert(!done.contains(id)) by {
            if done.contains(id) {
                let j = done.index_of(id);
                assert(ids@[j] == id);
                assert(ids@[i as int] == id);
            }
        }
        let placeholder = Widget::Container(Container::transparent(0, 0));
        match tree.replace_widget(id, placeholder) {
            Some(w) => {
                let w2 = match w {
                    Widget::StaticText(mut s) => {
                        if let Some(b) = s.binding() {
                            let value = store.get_string(b);
                            if value.as_str().unicode_len() > 0 && !str_eq(value.as_str(), s.content()) {
                                s.set_content(value);
                            }
                        }
                        Widget::StaticText(s)
                    },
                    other => other,
                };
                tree.replace_widget(id, w2);
                proof {
                    assert forall|n: NodeId|
                        #[trigger] tree.has(n) implies if done2.contains(n) {
                        match t0.node(n).widget_spec() {
                            Widget::StaticText(s) => tree.node(n).widget_spec() is StaticText && {
                                let u = tree.node(n).widget_spec()->StaticText_0;
                                &&& u.binding_spec() == s.binding_spec()
                                &&& u.style() == s.style()
                                &&& u.content_spec() == match s.binding_spec() {
                                    Some(k) => if shown(store@, k).len() > 0 && shown(store@, k)
                                        != s.content_spec() {
                                        shown(store@, k)
                                    } else {
                                        s.content_spec()
                                    },
                                    None => s.content_spec(),
                                }
                            },
                            other => tree.node(n).widget_spec() == other,
                        }
                    } else {
                        tree.node(n).widget_spec() == t0.node(n).widget_spec()
                    } by {
                        assert(before.has(n));
                        if n != id {
                            if done2.contains(n) {
                                let j = done2.index_of(n);
                                assert(done[j] == n);
                            }
                            if done.contains(n) {
                                let j = done.index_of(n);
                                assert(done2[j] == n);
                            }
                        } else {
                            assert(done2[i as int] == id);
                        }
                    }
                }
            },
            None => {
                assert(false);
            },
        }
        i += 1;
    }
    proof {
        assert(ids@.subrange(0, ids@.len() as int) == ids@);
    }
}

/// A key no node of `ids` writes back keeps what the store held.
pub proof fn lemma_pushed_untouched(t: UiTree, m: Map<Seq<char>, ValueView>, ids: Seq<NodeId>, k: Seq<char>)
    requires
        forall|n: NodeId|
            ids.contains(n) ==> !(pending(t.node(n).widget_spec()) is Some
                && (#[trigger] pending(t.node(n).widget_spec()))->Some_0.0 == k),
    ensures
        pushed(t, m, ids).contains_key(k) == m.contains_key(k),
        m.contains_key(k) ==> pushed(t, m, ids)[k] == m[k],
    decreases ids.len(),
{
    if ids.len() > 0 {
        let rest = ids.drop_last();
        assert forall|n: NodeId| rest.contains(n) implies !(pending(t.node(n).widget_spec()) is Some
            && (#[trigger] pending(t.node(n).widget_spec()))->Some_0.0 == k) by {
            let j = rest.index_of(n);
            assert(ids[j] == n);
        }
        lemma_pushed_untouched(t, m, rest, k);
        assert(ids.contains(ids.last()));
    }
}

/// When exactly one node of `ids` writes back to a key, the store ends up
/// holding that node's value there.
pub proof fn lemma_pushed_single_writer(
    t: UiTree,
    m: Map<Seq<char>, ValueView>,
    ids: Seq<NodeId>,
    n: NodeId,
    k: Seq<char>,
    v: ValueView,
)
    requires
        ids.contains(n),
        pending(t.node(n).widget_spec()) == Some((k, v)),
        forall|o: NodeId|
            ids.contains(o) && o != n ==> !(pending(t.node(o).widget_spec()) is Some
                && (#[trigger] pending(t.node(o).widget_spec()))->Some_0.0 == k),
    ensures
        pushed(t, m, ids).contains_key(k),
        pushed(t, m, ids)[k] == v,
    decreases ids.len(),
{
    let rest = ids.drop_last();
    if ids.last() == n {
    } else {
        let j = ids.index_of(n);
        assert(rest[j] == n);
        assert forall|o: NodeId| rest.contains(o) && o != n implies !(pending(
            t.node(o).widget_spec(),
        ) is Some && (#[trigger] pending(t.node(o).widget_spec()))->Some_0.0 == k) by {
            let i = rest.index_of(o);
            assert(ids[i] == o);
        }
        lemma_pushed_single_writer(t, m, rest, n, k, v);
        assert(ids.contains(ids.last()));
    }
}

} // verus!
