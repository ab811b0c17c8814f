use vstd::prelude::*;
use crate::action::{Action, ActionDispatcher, ActionError, Services};
use crate::store::{Store, ValueView};
use crate::sync::{settled, shown, sync_inputs_to_store, sync_store_to_outputs};
use crate::tree::{NodeId, UiTree};
use crate::widget::{Widget, WidgetEvent};

verus! {

/// A window event, as the session sees it once the platform layer has read
/// it.
#[derive(Debug, Clone, Copy, PartialEq, Eq, Structural)]
pub enum InputEvent {
    /// The pointer moved to a point.
    CursorMoved { x: i32, y: i32 },
    /// The pointer button went down.
    ButtonPressed,
    /// The pointer button came up.
    ButtonReleased,
    /// The wheel turned, in pixels.
    Wheel { delta_y: i32 },
    /// A key that means something to a text input, already read as a
    /// character or a named key.
    Key(WidgetEvent),
}

/// What handling an event came to: whether the window needs repainting, and
/// the error of an action that failed.
#[derive(Debug)]
pub struct Outcome {
    pub redraw: bool,
    pub error: Option<ActionError>,
}

/// How a widget stands after an action ran: an input has written back and
/// cleared its change flag; a bound static text shows the store's text for
/// its key unless that is empty or already shown; any other widget is as it was.
pub open spec fn shown_after_action(before: Widget, after: Widget, m: Map<Seq<char>, ValueView>) -> bool {
    match before {
        Widget::StaticText(s) => after is StaticText && {
            let u = after->StaticText_0;
            &&& u.binding_spec() == s.binding_spec()
            &&& u.style() == s.style()
            &&& u.content_spec() == match s.binding_spec() {
                Some(k) => if shown(m, k).len() > 0 && shown(m, k) != s.content_spec() {
                    shown(m, k)
                } else {
                    s.content_spec()
                },
                None => s.content_spec(),
            }
        },
        _ => settled(before, after),
    }
}

/// The widget of `n` reacted to `ev`, with some answer.
pub open spec fn reacted(pre: UiTree, post: UiTree, n: NodeId, ev: WidgetEvent) -> bool {
    exists|b: bool| #[trigger] Widget::reacts(pre.node(n).widget_spec(), post.node(n).widget_spec(), ev, b)
}

/// Every node outside `touched` holds the widget it held.
pub open spec fn others_kept(pre: UiTree, post: UiTree, touched: Set<NodeId>) -> bool {
    forall|n: NodeId|
        #[trigger] post.has(n) && !touched.contains(n) ==> post.node(n).widget_spec()
            == pre.node(n).widget_spec()
}

/// Which widgets an event reaches, and what becomes of them.
pub open spec fn delivered(pre: UiTree, post: UiTree, store: Map<Seq<char>, ValueView>, event: InputEvent, redraw: bool) -> bool {
    match event {
        InputEvent::CursorMoved { x, y } => match pre.hit_spec(x as int, y as int) {
            Some(h) => reacted(pre, post, h, WidgetEvent::MouseMove { x, y }) && others_kept(
                pre,
                post,
                set![h],
            ),
            None => others_kept(pre, post, Set::empty()),
        },
        InputEvent::ButtonPressed => match (pre.hovered_spec(), pre.focused_spec()) {
            (Some(h), Some(o)) => if o == h {
                others_kept(pre, post, Set::empty())
            } else {
                &&& reacted(pre, post, o, WidgetEvent::FocusLost)
                &&& reacted(pre, post, h, WidgetEvent::FocusGained)
                &&& others_kept(pre, post, set![o, h])
            },
            (Some(h), None) => reacted(pre, post, h, WidgetEvent::FocusGained) && others_kept(
                pre,
                post,
                set![h],
            ),
            (None, Some(o)) => reacted(pre, post, o, WidgetEvent::FocusLost) && others_kept(
                pre,
                post,
                set![o],
            ),
            (None, None) => others_kept(pre, post, Set::empty()),
        },
        InputEvent::ButtonReleased => if pre.pressed_spec() is Some && pre.hovered_spec()
            == pre.pressed_spec() {
            let p = pre.pressed_spec()->Some_0;
            let w = pre.node(p).widget_spec();
            if w is SkinButton && w->SkinButton_0.action_spec() is Some {
                forall|n: NodeId|
                    #[trigger] post.has(n) ==> shown_after_action(
                        pre.node(n).widget_spec(),
                        post.node(n).widget_spec(),
                        store,
                    )
            } else {
                reacted(pre, post, p, WidgetEvent::Click) && others_kept(pre, post, set![p])
            }
        } else {
            others_kept(pre, post, Set::empty())
        },
        InputEvent::Wheel { delta_y } => match pre.hovered_spec() {
            Some(h) => Widget::reacts(
                pre.node(h).widget_spec(),
                post.node(h).widget_spec(),
                WidgetEvent::MouseWheel { delta_y },
                redraw,
            ) && others_kept(pre, post, set![h]),
            None => others_kept(pre, post, Set::empty()),
        },
        InputEvent::Key(ev) => match pre.focused_spec() {
            Some(f) => {
                &&& exists|mid: Widget, b: bool|
                    #[trigger] Widget::reacts(pre.node(f).widget_spec(), mid, ev, b) && settled(
                        mid,
                        post.node(f).widget_spec(),
                    )
                &&& forall|n: NodeId|
                    #[trigger] post.has(n) && n != f ==> settled(
                        pre.node(n).widget_spec(),
                        post.node(n).widget_spec(),
                    )
            },
            None => others_kept(pre, post, Set::empty()),
        },
    }
}

/// The action an event runs: on a release over the pressed node, that
/// node's button action, if it is a skin button with one; else none.
pub open spec fn action_run(pre: UiTree, event: InputEvent) -> Seq<Seq<char>> {
    if event is ButtonReleased && pre.pressed_spec() is Some && pre.hovered_spec() == pre.pressed_spec() {
        let w = pre.node(pre.pressed_spec()->Some_0).widget_spec();
        if w is SkinButton && w->SkinButton_0.action_spec() is Some {
            seq![w->SkinButton_0.action_spec()->Some_0]
        } else {
            Seq::empty()
        }
    } else {
        Seq::empty()
    }
}

/// A running skinned application: its tree and its store. The action chain
/// its buttons feed is handed in with each event.
pub struct Session {
    tree: UiTree,
    title: String,
    store: Store,
    services: Services,
}

impl Session {
    /// The tree and the store keep their invariants.
    pub closed spec fn wf(&self) -> bool {
        self.tree.wf() && self.store.wf()
    }

    pub closed spec fn tree_spec(&self) -> UiTree {
        self.tree
    }

    pub closed spec fn store_spec(&self) -> Store {
        self.store
    }

    pub fn new(tree: UiTree, title: String) -> (r: Self)
        requires
            tree.wf(),
        ensures
            r.wf(),
            r.tree_spec() == tree,
    {
        Session { tree, title, store: Store::new(), services: Services::new() }
    }

    pub fn tree(&self) -> (r: &UiTree)
        ensures
            *r == self.tree_spec(),
    {
        &self.tree
    }

    pub fn store(&self) -> (r: &Store)
        ensures
            *r == self.store_spec(),
    {
        &self.store
    }

    pub fn title(&self) -> &str {
        self.title.as_str()
    }

    /// Writes the changed inputs to the store, runs the named action, and
    /// shows the store's values in the bound outputs.
    pub fn run_action(&mut self, name: String, dispatcher: &mut ActionDispatcher) -> (r: Option<
        ActionError,
    >)
        requires
            old(self).wf(),
        ensures
            final(self).wf(),
            UiTree::same_shape(old(self).tree_spec(), final(self).tree_spec()),
            final(dispatcher).len_spec() == old(dispatcher).len_spec(),
            final(dispatcher).log_spec() == old(dispatcher).log_spec().push(name@),
            old(dispatcher).len_spec() == 0 ==> r is None,
            forall|n: NodeId|
                #[trigger] final(self).tree_spec().has(n) ==> shown_after_action(
                    old(self).tree_spec().node(n).widget_spec(),
                    final(self).tree_spec().node(n).widget_spec(),
                    final(self).store_spec()@,
                ),
    {
        sync_inputs_to_store(&mut self.tree, &mut self.store);
        let action = Action::new(name);
        let result = dispatcher.dispatch(&action, &mut self.store, &self.services);
        sync_store_to_outputs(&mut self.tree, &self.store);
        match result {
            Ok(_) => None,
            Err(e) => Some(e),
        }
    }

    /// Handles one event:
    /// - a move hovers the node under the pointer and tells it where the pointer is;
    /// - a press presses the hovered node and moves the focus to it (or drops
    ///   the focus when nothing is hovered), telling the old and new focus;
    /// - a release over the pressed node clicks it, and a button's action then
    ///   runs between the two store sweeps; the press always ends;
    /// - the wheel goes to the hovered node;
    /// - a key goes to the focused node, and the inputs are written back.
    pub fn on_event(&mut self, event: InputEvent, dispatcher: &mut ActionDispatcher) -> (r: Outcome)
        requires
            old(self).wf(),
        ensures
            final(self).wf(),
            match event {
                InputEvent::CursorMoved { x, y } => {
                    &&& final(self).tree_spec().hovered_spec() == old(self).tree_spec().hit_spec(
                        x as int,
                        y as int,
                    )
                    &&& r.redraw
                },
                InputEvent::ButtonPressed => {
                    &&& r.redraw
                    &&& match old(self).tree_spec().hovered_spec() {
                        Some(h) => {
                            &&& final(self).tree_spec().pressed_spec() == Some(h)
                            &&& final(self).tree_spec().focused_spec() == Some(h)
                        },
                        None => {
                            &&& final(self).tree_spec().pressed_spec()
                                == old(self).tree_spec().pressed_spec()
                            &&& final(self).tree_spec().focused_spec() is None
                        },
                    }
                    &&& final(self).tree_spec().hovered_spec() == old(self).tree_spec().hovered_spec()
                },
                InputEvent::ButtonReleased => {
                    &&& r.redraw
                    &&& final(self).tree_spec().pressed_spec() is None
                    &&& final(self).tree_spec().hovered_spec() == old(self).tree_spec().hovered_spec()
                    &&& final(self).tree_spec().focused_spec() == old(self).tree_spec().focused_spec()
                },
                InputEvent::Wheel { .. } => {
                    &&& old(self).tree_spec().hovered_spec() is None ==> !r.redraw
                    &&& UiTree::same_shape(old(self).tree_spec(), final(self).tree_spec())
                },
                InputEvent::Key(_) => {
                    &&& r.redraw == old(self).tree_spec().focused_spec() is Some
                    &&& UiTree::same_shape(old(self).tree_spec(), final(self).tree_spec())
                },
            },
            delivered(
                old(self).tree_spec(),
                final(self).tree_spec(),
                final(self).store_spec()@,
                event,
                r.redraw,
            ),
            final(dispatcher).log_spec() == old(dispatcher).log_spec() + action_run(
                old(self).tree_spec(),
                event,
            ),
    {
        match event {
            InputEvent::CursorMoved { x, y } => {
                let hit = self.tree.hit_test(x, y);
                proof {
                    self.tree.lemma_hit_is_live(x as int, y as int);
                }
                let ghost t0 = self.tree;
                self.tree.set_hovered(hit);
                let ghost t1 = self.tree;
                if let Some(h) = hit {
                    let b = self.tree.send_event(h, &WidgetEvent::MouseMove { x, y });
                    proof {
                        assert(t1.node(h) == t0.node(h));
                        assert(Widget::reacts(
                            t0.node(h).widget_spec(),
                            self.tree.node(h).widget_spec(),
                            WidgetEvent::MouseMove { x, y },
                            b,
                        ));
                    }
                }
                proof {
                    assert forall|n: NodeId| #[trigger] self.tree.has(n) && !(match hit {
                        Some(h) => set![h],
                        None => Set::<NodeId>::empty(),
                    }).contains(n) implies self.tree.node(n).widget_spec() == t0.node(n).widget_spec() by {
                        assert(t1.node(n) == t0.node(n));
                        assert(t1.has(n));
                    }
                    assert(delivered(t0, self.tree, self.store@, event, true));
                }
                Outcome { redraw: true, error: None }
            },
            InputEvent::ButtonPressed => {
                let ghost t0 = self.tree;
                proof {
                    UiTree::lemma_singletons_live(self.tree);
                }
                match self.tree.hovered() {
                    Some(h) => {
                        self.tree.set_pressed(Some(h));
                        let ghost t1 = self.tree;
                        let old_focus = self.tree.focused();
                        let already = match old_focus {
                            Some(o) => o == h,
                            None => false,
                        };
                        if !already {
                            if let Some(o) = old_focus {
                                let b1 = self.tree.send_event(o, &WidgetEvent::FocusLost);
                                proof {
                                    assert(t1.node(o) == t0.node(o));
                                    assert(Widget::reacts(
                                        t0.node(o).widget_spec(),
                                        self.tree.node(o).widget_spec(),
                                        WidgetEvent::FocusLost,
                                        b1,
                                    ));
                                }
                            }
                            let ghost t2 = self.tree;
                            self.tree.set_focused(Some(h));
                            let ghost t3 = self.tree;
                            let b2 = self.tree.send_event(h, &WidgetEvent::FocusGained);
                            proof {
                                assert(t1.node(h) == t0.node(h));
                                assert(t1.has(h));
                                assert(t2.has(h));
                                assert(t2.node(h).widget_spec() == t1.node(h).widget_spec());
                                assert(t3.node(h) == t2.node(h));
                                assert(Widget::reacts(
                                    t0.node(h).widget_spec(),
                                    self.tree.node(h).widget_spec(),
                                    WidgetEvent::FocusGained,
                                    b2,
                                ));
                                if let Some(o) = old_focus {
                                    assert(t3.node(o) == t2.node(o));
                                    assert(t2.has(o));
                                    assert(self.tree.has(o));
                                    assert(self.tree.node(o).widget_spec() == t2.node(o).widget_spec());
                                }
                                assert forall|n: NodeId| #[trigger] self.tree.has(n) && !(match old_focus {
                                    Some(o) => set![o, h],
                                    None => set![h],
                                }).contains(n) implies self.tree.node(n).widget_spec()
                                    == t0.node(n).widget_spec() by {
                                    assert(t3.has(n) && t3.node(n) == t2.node(n));
                                    assert(t2.has(n));
                                    assert(t1.has(n) && t1.node(n) == t0.node(n));
                                }
                            }
                        } else {
                            proof {
                                assert forall|n: NodeId| #[trigger] self.tree.has(n) && !Set::<NodeId>::empty().contains(n)
                                    implies self.tree.node(n).widget_spec() == t0.node(n).widget_spec() by {
                                    assert(t1.node(n) == t0.node(n));
                                }
                            }
                        }
                    },
                    None => {
                        let old_focus = self.tree.focused();
                        if let Some(o) = old_focus {
                            let b1 = self.tree.send_event(o, &WidgetEvent::FocusLost);
                            proof {
                                assert(Widget::reacts(
                                    t0.node(o).widget_spec(),
                                    self.tree.node(o).widget_spec(),
                                    WidgetEvent::FocusLost,
                                    b1,
                                ));
                            }
                        }
                        let ghost t2 = self.tree;
                        self.tree.set_focused(None);
                        proof {
                            if let Some(o) = old_focus {
                                assert(t2.has(o));
                                assert(self.tree.node(o) == t2.node(o));
                            }
                            assert forall|n: NodeId| #[trigger] self.tree.has(n) && !(match old_focus {
                                Some(o) => set![o],
                                None => Set::<NodeId>::empty(),
                            }).contains(n) implies self.tree.node(n).widget_spec()
                                == t0.node(n).widget_spec() by {
                                assert(t2.has(n));
                                assert(self.tree.node(n) == t2.node(n));
                            }
                        }
                    },
                }
                proof {
                    assert(delivered(t0, self.tree, self.store@, event, true));
                }
                Outcome { redraw: true, error: None }
            },
            InputEvent::ButtonReleased => {
                let ghost t0 = self.tree;
                let mut error = None;
                proof {
                    UiTree::lemma_singletons_live(t0);
                }
                if let Some(p) = self.tree.pressed() {
                    let over = match self.tree.hovered() {
                        Some(h) => h == p,
                        None => false,
                    };
                    if over {
                        let action = self.tree.button_action(p);
                        let b = self.tree.send_event(p, &WidgetEvent::Click);
                        let ghost t1 = self.tree;
                        proof {
                            assert(Widget::reacts(
                                t0.node(p).widget_spec(),
                                t1.node(p).widget_spec(),
                                WidgetEvent::Click,
                                b,
                            ));
                        }
                        if let Some(name) = action {
                            error = self.run_action(name, dispatcher);
                            proof {
                                assert forall|n: NodeId| #[trigger] self.tree.has(n) implies shown_after_action(
                                    t0.node(n).widget_spec(),
                                    self.tree.node(n).widget_spec(),
                                    self.store@,
                                ) by {
                                    assert(t1.has(n));
                                    assert(t1.node(n).widget_spec() == t0.node(n).widget_spec());
                                }
                            }
                        }
                    }
                }
                let ghost t2 = self.tree;
                self.tree.set_pressed(None);
                proof {
                    assert forall|n: NodeId| #[trigger] self.tree.has(n) implies self.tree.node(n)
                        == t2.node(n) && t2.has(n) by {}
                    assert(delivered(t0, self.tree, self.store@, event, true));
                }
                Outcome { redraw: true, error }
            },
            InputEvent::Wheel { delta_y } => {
                let ghost t0 = self.tree;
                let redraw = match self.tree.hovered() {
                    Some(h) => self.tree.send_event(h, &WidgetEvent::MouseWheel { delta_y }),
                    None => false,
                };
                proof {
                    UiTree::lemma_singletons_live(t0);
                    assert(delivered(t0, self.tree, self.store@, event, redraw));
                }
                Outcome { redraw, error: None }
            },
            InputEvent::Key(ev) => {
                match self.tree.focused() {
                    Some(f) => {
                        let ghost t0 = self.tree;
                        let b = self.tree.send_event(f, &ev);
                        let ghost t1 = self.tree;
                        sync_inputs_to_store(&mut self.tree, &mut self.store);
                        proof {
                            UiTree::lemma_singletons_live(t0);
                            assert(t1.has(f));
                            assert(self.tree.has(f));
                            assert(Widget::reacts(t0.node(f).widget_spec(), t1.node(f).widget_spec(), ev, b)
                                && settled(t1.node(f).widget_spec(), self.tree.node(f).widget_spec()));
                            assert forall|n: NodeId| #[trigger] self.tree.has(n) && n != f implies settled(
                                t0.node(n).widget_spec(),
                                self.tree.node(n).widget_spec(),
                            ) by {
                                assert(t1.has(n));
                            }
                            assert(delivered(t0, self.tree, self.store@, event, true));
                        }
                        Outcome { redraw: true, error: None }
                    },
                    None => Outcome { redraw: false, error: None },
                }
            },
        }
    }
}

} // verus!
