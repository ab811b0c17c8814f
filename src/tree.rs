use vstd::prelude::*;
use crate::rect::Rect;
use crate::canvas::{at, painted, Canvas};
use crate::widget::{Widget, WidgetEvent, WidgetState};

verus! {

/// A handle to one slot of a tree's arena. It names a node only while that
/// slot is occupied; a stale or foreign handle simply finds nothing.
#[derive(Debug, Clone, Copy, PartialEq, Eq, Hash, Structural)]
pub struct NodeId(pub usize);

impl NodeId {
    pub(crate) fn index(&self) -> (r: usize)
        ensures
            r == self.0,
    {
        self.0
    }
}

/// One node of the tree: its widget, its ordered children (last = topmost),
/// a non-owning back reference to its parent, and its layout bounds.
pub struct Node {
    pub(crate) widget: Widget,
    pub(crate) children: Vec<NodeId>,
    pub(crate) parent: Option<NodeId>,
    pub(crate) bounds: Rect,
    /// When the node was created, on the tree's clock: a child is always
    /// younger than its parent, which is what makes every walk down finite.
    pub(crate) stamp: Ghost<nat>,
}

impl Node {
    pub closed spec fn widget_spec(&self) -> Widget {
        self.widget
    }

    pub closed spec fn children_spec(&self) -> Seq<NodeId> {
        self.children@
    }

    pub closed spec fn parent_spec(&self) -> Option<NodeId> {
        self.parent
    }

    pub closed spec fn bounds_spec(&self) -> Rect {
        self.bounds
    }

    /// Created at the same moment as `other`.
    pub closed spec fn same_stamp(&self, other: Node) -> bool {
        self.stamp == other.stamp
    }

    pub(crate) fn new(widget: Widget, stamp: Ghost<nat>) -> (r: Node)
        ensures
            r.widget == widget,
            r.children@ == Seq::<NodeId>::empty(),
            r.parent is None,
            r.bounds == (Rect { x: 0, y: 0, width: 0, height: 0 }),
            r.stamp == stamp,
    {
        Node {
            widget,
            children: Vec::new(),
            parent: None,
            bounds: Rect::new(0, 0, 0, 0),
            stamp,
        }
    }

    pub fn bounds(&self) -> (r: &Rect)
        ensures
            *r == self.bounds_spec(),
    {
        &self.bounds
    }

    pub fn children(&self) -> (r: &[NodeId])
        ensures
            r@ == self.children_spec(),
    {
        self.children.as_slice()
    }

    pub fn parent(&self) -> (r: Option<NodeId>)
        ensures
            r == self.parent_spec(),
    {
        self.parent
    }

    pub fn widget(&self) -> (r: &Widget)
        ensures
            *r == self.widget_spec(),
    {
        &self.widget
    }

    pub fn widget_mut(&mut self) -> (r: &mut Widget)
        ensures
            *r == old(self).widget_spec(),
            final(self).widget_spec() == *final(r),
            final(self).children_spec() == old(self).children_spec(),
            final(self).parent_spec() == old(self).parent_spec(),
            final(self).bounds_spec() == old(self).bounds_spec(),
            final(self).same_stamp(*old(self)),
    {
        &mut self.widget
    }
}

/// The arena that owns every node, with a free list of reclaimed slots, the
/// root, and the four interaction singletons.
pub struct UiTree {
    nodes: Vec<Option<Node>>,
    free_list: Vec<usize>,
    root: Option<NodeId>,
    hovered: Option<NodeId>,
    pressed: Option<NodeId>,
    focused: Option<NodeId>,
    captured: Option<NodeId>,
    clock: Ghost<nat>,
}

impl UiTree {
    /// The slot of `id` is occupied.
    pub closed spec fn has(&self, id: NodeId) -> bool {
        id.0 < self.nodes@.len() && self.nodes@[id.0 as int] is Some
    }

    /// The node in the slot of `id` (meaningful when `has(id)`).
    pub closed spec fn node(&self, id: NodeId) -> Node {
        self.nodes@[id.0 as int]->Some_0
    }

    /// The number of slots, occupied or free.
    pub closed spec fn slots(&self) -> nat {
        self.nodes@.len()
    }

    pub closed spec fn root_spec(&self) -> Option<NodeId> {
        self.root
    }

    pub closed spec fn hovered_spec(&self) -> Option<NodeId> {
        self.hovered
    }

    pub closed spec fn pressed_spec(&self) -> Option<NodeId> {
        self.pressed
    }

    pub closed spec fn focused_spec(&self) -> Option<NodeId> {
        self.focused
    }

    pub closed spec fn captured_spec(&self) -> Option<NodeId> {
        self.captured
    }

    pub closed spec fn stamp(&self, id: NodeId) -> nat {
        self.node(id).stamp@
    }

    /// How far below the clock a node's stamp is; it shrinks along every edge
    /// from a parent to a child.
    pub closed spec fn measure(&self, id: NodeId) -> nat {
        if self.has(id) && self.stamp(id) < self.clock@ {
            (self.clock@ - self.stamp(id)) as nat
        } else {
            0
        }
    }

    /// `n` is `a` or lies below it: following parent links from `n` reaches `a`.
    pub open spec fn descends(&self, n: NodeId, a: NodeId) -> bool
        decreases self.stamp(n),
    {
        if n == a {
            true
        } else if self.has(n) && self.node(n).parent_spec() is Some && self.stamp(
            self.node(n).parent_spec()->Some_0,
        ) < self.stamp(n) {
            self.descends(self.node(n).parent_spec()->Some_0, a)
        } else {
            false
        }
    }

    /// A singleton reference is empty or names an occupied slot.
    pub open spec fn names_live(&self, s: Option<NodeId>) -> bool {
        s is None || self.has(s->Some_0)
    }

    /// Every interaction singleton (and the root) is empty or names an occupied slot.
    pub closed spec fn singletons_live(&self) -> bool {
        &&& self.names_live(self.root)
        &&& self.names_live(self.hovered)
        &&& self.names_live(self.pressed)
        &&& self.names_live(self.focused)
        &&& self.names_live(self.captured)
    }

    spec fn edges_wf(&self) -> bool {
        &&& forall|n: NodeId| #[trigger] self.has(n) ==> self.stamp(n) < self.clock@
        &&& forall|n: NodeId, k: int|
            self.has(n) && 0 <= k < self.node(n).children@.len() ==> {
                let c = #[trigger] self.node(n).children@[k];
                &&& self.has(c)
                &&& self.node(c).parent == Some(n)
                &&& self.stamp(n) < self.stamp(c)
            }
        &&& forall|n: NodeId| #[trigger] self.has(n) ==> self.node(n).children@.no_duplicates()
        &&& forall|n: NodeId| #[trigger]
            self.has(n) && self.node(n).parent_spec() is Some ==> {
                let p = self.node(n).parent_spec()->Some_0;
                self.has(p) && self.node(p).children@.contains(n)
            }
    }

    spec fn free_wf(&self) -> bool {
        &&& forall|k: int|
            0 <= k < self.free_list@.len() ==> {
                let f = #[trigger] self.free_list@[k];
                f < self.nodes@.len() && !self.has(NodeId(f))
            }
        &&& self.free_list@.no_duplicates()
    }

    /// The tree's invariant: parent and child links agree and form a forest,
    /// the free list names distinct empty slots, and every singleton is live.
    pub closed spec fn wf(&self) -> bool {
        &&& self.edges_wf()
        &&& self.free_wf()
        &&& self.singletons_live()
        &&& self.widgets_wf()
    }

    /// Every widget in the tree satisfies its own invariant.
    pub closed spec fn widgets_wf(&self) -> bool {
        forall|n: NodeId| #[trigger] self.has(n) ==> self.node(n).widget.wf()
    }

    /// What a removal of the subtree at `id` clears: a singleton naming a removed node.
    pub open spec fn cleared(&self, s: Option<NodeId>, id: NodeId) -> Option<NodeId> {
        if s is Some && self.has(id) && self.has(s->Some_0) && self.descends(s->Some_0, id) {
            None
        } else {
            s
        }
    }

    /// The node hit at a point below `id`: the first child, from the last one
    /// back, whose subtree is hit, else `id` itself, provided its bounds hold
    /// the point.
    pub open spec fn hit_at(&self, id: NodeId, x: int, y: int) -> Option<NodeId>
        decreases self.measure(id), 1nat, 0int,
    {
        if !self.has(id) || !self.node(id).bounds_spec().contains_spec(x, y) {
            None
        } else {
            match self.hit_among(id, self.node(id).children_spec().len() as int, x, y) {
                Some(h) => Some(h),
                None => Some(id),
            }
        }
    }

    /// The hit among the first `k` children of `id`, trying the later ones first.
    pub open spec fn hit_among(&self, id: NodeId, k: int, x: int, y: int) -> Option<NodeId>
        decreases self.measure(id), 0nat, k,
    {
        if k <= 0 || !self.has(id) || k > self.node(id).children_spec().len() {
            None
        } else {
            let c = self.node(id).children_spec()[k - 1];
            if self.measure(c) < self.measure(id) {
                match self.hit_at(c, x, y) {
                    Some(h) => Some(h),
                    None => self.hit_among(id, k - 1, x, y),
                }
            } else {
                self.hit_among(id, k - 1, x, y)
            }
        }
    }

    /// The node a hit test at a point finds, starting from the root.
    pub open spec fn hit_spec(&self, x: int, y: int) -> Option<NodeId> {
        match self.root_spec() {
            Some(r) => self.hit_at(r, x, y),
            None => None,
        }
    }

    // ---- lemmas on the forest structure ----

    proof fn lemma_parent_younger(&self, n: NodeId)
        requires
            self.wf(),
            self.has(n),
            self.node(n).parent is Some,
        ensures
            self.has(self.node(n).parent->Some_0),
            self.stamp(self.node(n).parent->Some_0) < self.stamp(n),
    {
        let p = self.node(n).parent->Some_0;
        let k = self.node(p).children@.index_of(n);
        assert(self.node(p).children@[k] == n);
    }

    proof fn lemma_descends_step(&self, n: NodeId, a: NodeId)
        requires
            self.wf(),
            self.has(n),
            n != a,
        ensures
            self.descends(n, a) <==> (self.node(n).parent is Some && self.descends(
                self.node(n).parent->Some_0,
                a,
            )),
    {
        if self.node(n).parent is Some {
            self.lemma_parent_younger(n);
        }
    }

    proof fn lemma_descends_older(&self, n: NodeId, a: NodeId)
        requires
            self.wf(),
            self.has(n),
            self.descends(n, a),
            n != a,
        ensures
            self.has(a),
            self.stamp(a) < self.stamp(n),
        decreases self.stamp(n),
    {
        self.lemma_descends_step(n, a);
        let p = self.node(n).parent->Some_0;
        self.lemma_parent_younger(n);
        if p != a {
            self.lemma_descends_older(p, a);
        }
    }

    /// Below `a` means `a` itself or below one of its children.
    proof fn lemma_descends_split(&self, n: NodeId, a: NodeId)
        requires
            self.wf(),
            self.has(n),
            self.has(a),
        ensures
            self.descends(n, a) <==> (n == a || exists|k: int|
                0 <= k < self.node(a).children@.len() && self.descends(
                    n,
                    #[trigger] self.node(a).children@[k],
                )),
        decreases self.stamp(n),
    {
        let ch = self.node(a).children@;
        if n != a {
            self.lemma_descends_step(n, a);
            if self.descends(n, a) {
                let p = self.node(n).parent->Some_0;
                self.lemma_parent_younger(n);
                if p == a {
                    let k = ch.index_of(n);
                    assert(ch[k] == n);
                    assert(self.descends(n, ch[k]));
                } else {
                    self.lemma_descends_split(p, a);
                    let k = choose|k: int| 0 <= k < ch.len() && self.descends(p, #[trigger] ch[k]);
                    if n != ch[k] {
                        self.lemma_descends_step(n, ch[k]);
                    }
                    assert(self.descends(n, ch[k]));
                }
            }
            if exists|k: int| 0 <= k < ch.len() && self.descends(n, #[trigger] ch[k]) {
                let k = choose|k: int| 0 <= k < ch.len() && self.descends(n, #[trigger] ch[k]);
                self.lemma_below_child(n, a, ch[k]);
            }
        }
    }

    proof fn lemma_below_child(&self, n: NodeId, a: NodeId, c: NodeId)
        requires
            self.wf(),
            self.has(n),
            self.has(a),
            self.node(a).children@.contains(c),
            self.descends(n, c),
        ensures
            self.descends(n, a),
        decreases self.stamp(n),
    {
        let k = self.node(a).children@.index_of(c);
        assert(self.node(a).children@[k] == c);
        if n == c {
            self.lemma_descends_step(c, a);
        } else {
            self.lemma_descends_step(n, c);
            let p = self.node(n).parent->Some_0;
            self.lemma_parent_younger(n);
            self.lemma_below_child(p, a, c);
            if n != a {
                self.lemma_descends_step(n, a);
            }
        }
    }

    /// `s`, unless it names one of `gone`.
    pub closed spec fn cut(s: Option<NodeId>, gone: Seq<NodeId>) -> Option<NodeId> {
        if s is Some && gone.contains(s->Some_0) {
            None
        } else {
            s
        }
    }

    proof fn lemma_after_removal(&self, pre: UiTree, mid: UiTree, id: NodeId, gone: Seq<NodeId>)
        requires
            pre.wf(),
            pre.has(id),
            forall|x: NodeId| #[trigger] gone.contains(x) <==> (pre.has(x) && pre.descends(x, id)),
            self.nodes@.len() == pre.nodes@.len(),
            self.clock == pre.clock,
            forall|n: NodeId| #[trigger] self.has(n) == (pre.has(n) && !gone.contains(n)),
            forall|n: NodeId| #[trigger] self.has(n) ==> self.node(n) == mid.node(n),
            forall|n: NodeId| #[trigger]
                pre.has(n) ==> mid.has(n) && mid.node(n).widget == pre.node(n).widget
                    && mid.node(n).bounds == pre.node(n).bounds && mid.node(n).parent
                    == pre.node(n).parent && mid.node(n).stamp == pre.node(n).stamp
                    && mid.node(n).children@ == without(pre.node(n).children@, id),
            self.free_wf(),
            self.root == UiTree::cut(pre.root, gone),
            self.hovered == UiTree::cut(pre.hovered, gone),
            self.pressed == UiTree::cut(pre.pressed, gone),
            self.focused == UiTree::cut(pre.focused, gone),
            self.captured == UiTree::cut(pre.captured, gone),
        ensures
            self.wf(),
            self.root == pre.cleared(pre.root, id),
            self.hovered == pre.cleared(pre.hovered, id),
            self.pressed == pre.cleared(pre.pressed, id),
            self.focused == pre.cleared(pre.focused, id),
            self.captured == pre.cleared(pre.captured, id),
    {
        assert forall|n: NodeId| #[trigger] self.has(n) implies self.stamp(n) < self.clock@ by {
            assert(pre.has(n));
        }
        assert forall|n: NodeId, k: int|
            self.has(n) && 0 <= k < self.node(n).children@.len() implies {
            let c = #[trigger] self.node(n).children@[k];
            &&& self.has(c)
            &&& self.node(c).parent == Some(n)
            &&& self.stamp(n) < self.stamp(c)
        } by {
            assert(pre.has(n));
            let s0 = pre.node(n).children@;
            assert(self.node(n).children@ == without(s0, id));
            lemma_without(s0, id);
            let c = self.node(n).children@[k];
            assert(without(s0, id)[k] == c);
            assert(s0.contains(c));
            let j = s0.index_of(c);
            assert(s0[j] == c);
            assert(pre.has(c) && pre.node(c).parent == Some(n) && pre.stamp(n) < pre.stamp(c));
            assert(c != id);
            if gone.contains(c) {
                pre.lemma_descends_step(c, id);
                assert(gone.contains(n));
            }
            assert(self.has(c));
            assert(self.node(c).parent == pre.node(c).parent);
            assert(self.node(c).stamp == pre.node(c).stamp);
            assert(self.node(n).stamp == pre.node(n).stamp);
        }
        assert forall|n: NodeId| #[trigger] self.has(n) implies self.node(n).children@.no_duplicates() by {
            lemma_without(pre.node(n).children@, id);
        }
        assert forall|n: NodeId| #[trigger]
            self.has(n) && self.node(n).parent is Some implies {
            let p = self.node(n).parent->Some_0;
            self.has(p) && self.node(p).children@.contains(n)
        } by {
            let p = self.node(n).parent->Some_0;
            assert(pre.has(n));
            assert(self.node(n).parent == pre.node(n).parent);
            assert(pre.has(p) && pre.node(p).children@.contains(n));
            if gone.contains(p) {
                assert(n != id);
                pre.lemma_descends_step(n, id);
                assert(gone.contains(n));
            }
            assert(self.has(p));
            assert(self.node(p).children@ == without(pre.node(p).children@, id));
            lemma_without(pre.node(p).children@, id);
            assert(n != id);
        }
        assert(self.edges_wf());
    }

    /// What `remove(id)` does, from the state `pre` to the state `post`: the
    /// subtree at `id` is gone, the survivors keep their widget, bounds and
    /// parent and lose `id` from their children, and each singleton that named
    /// a removed node is cleared.
    pub open spec fn removal(pre: UiTree, post: UiTree, id: NodeId) -> bool {
        &&& post.slots() == pre.slots()
        &&& forall|n: NodeId|
            #[trigger] post.has(n) == (pre.has(n) && !(pre.has(id) && pre.descends(n, id)))
        &&& forall|n: NodeId|
            #[trigger] post.has(n) ==> {
                &&& post.node(n).widget_spec() == pre.node(n).widget_spec()
                &&& post.node(n).bounds_spec() == pre.node(n).bounds_spec()
                &&& post.node(n).parent_spec() == pre.node(n).parent_spec()
                &&& post.node(n).children_spec() == without(pre.node(n).children_spec(), id)
            }
        &&& post.root_spec() == pre.cleared(pre.root_spec(), id)
        &&& post.hovered_spec() == pre.cleared(pre.hovered_spec(), id)
        &&& post.pressed_spec() == pre.cleared(pre.pressed_spec(), id)
        &&& post.focused_spec() == pre.cleared(pre.focused_spec(), id)
        &&& post.captured_spec() == pre.cleared(pre.captured_spec(), id)
    }

    /// `post` has the nodes, links, bounds, root and singletons of `pre`; only
    /// widgets may differ.
    pub open spec fn same_shape(pre: UiTree, post: UiTree) -> bool {
        &&& post.slots() == pre.slots()
        &&& forall|n: NodeId| #[trigger] post.has(n) == pre.has(n)
        &&& forall|n: NodeId|
            #[trigger] post.has(n) ==> {
                &&& post.node(n).bounds_spec() == pre.node(n).bounds_spec()
                &&& post.node(n).parent_spec() == pre.node(n).parent_spec()
                &&& post.node(n).children_spec() == pre.node(n).children_spec()
            }
        &&& post.root_spec() == pre.root_spec()
        &&& post.hovered_spec() == pre.hovered_spec()
        &&& post.pressed_spec() == pre.pressed_spec()
        &&& post.focused_spec() == pre.focused_spec()
        &&& post.captured_spec() == pre.captured_spec()
    }

    /// Everything but the node of `id` is as in `other`.
    pub closed spec fn same_but(&self, other: UiTree, id: NodeId) -> bool {
        &&& self.nodes@.len() == other.nodes@.len()
        &&& forall|i: int| 0 <= i < self.nodes@.len() && i != id.0 ==> self.nodes@[i] == other.nodes@[i]
        &&& self.free_list == other.free_list
        &&& self.clock == other.clock
        &&& self.root == other.root
        &&& self.hovered == other.hovered
        &&& self.pressed == other.pressed
        &&& self.focused == other.focused
        &&& self.captured == other.captured
    }

    /// The same nodes in the same slots, and the same clock.
    pub closed spec fn same_nodes(&self, other: UiTree) -> bool {
        self.nodes == other.nodes && self.clock == other.clock && self.free_list == other.free_list
    }

    /// Links, stamps and occupancy alone decide the invariant's shape part.
    proof fn lemma_edges_kept(&self, b: UiTree)
        requires
            self.wf(),
            b.clock == self.clock,
            b.free_list == self.free_list,
            b.nodes@.len() == self.nodes@.len(),
            forall|n: NodeId| #[trigger] b.has(n) == self.has(n),
            forall|n: NodeId|
                #[trigger] b.has(n) ==> b.stamp(n) == self.stamp(n) && b.node(n).children@
                    == self.node(n).children@ && b.node(n).parent == self.node(n).parent,
            b.names_live(b.root),
            b.names_live(b.hovered),
            b.names_live(b.pressed),
            b.names_live(b.focused),
            b.names_live(b.captured),
            forall|n: NodeId|
                #[trigger] b.has(n) ==> b.node(n).widget == self.node(n).widget
                    || b.node(n).widget.wf(),
        ensures
            b.wf(),
    {
        assert forall|n: NodeId| #[trigger] b.has(n) implies b.node(n).widget.wf() by {
            assert(self.has(n));
        }
        assert forall|n: NodeId| #[trigger] b.has(n) implies b.stamp(n) < b.clock@ by {
            assert(self.has(n));
        }
        assert forall|n: NodeId, k: int|
            b.has(n) && 0 <= k < b.node(n).children@.len() implies {
            let c = #[trigger] b.node(n).children@[k];
            &&& b.has(c)
            &&& b.node(c).parent == Some(n)
            &&& b.stamp(n) < b.stamp(c)
        } by {
            assert(self.has(n));
            let c = self.node(n).children@[k];
            assert(self.has(c));
            assert(b.has(c));
        }
        assert forall|n: NodeId| #[trigger] b.has(n) implies b.node(n).children@.no_duplicates() by {
            assert(self.has(n));
        }
        assert forall|n: NodeId| #[trigger]
            b.has(n) && b.node(n).parent is Some implies {
            let p = b.node(n).parent->Some_0;
            b.has(p) && b.node(p).children@.contains(n)
        } by {
            assert(self.has(n));
            let p = b.node(n).parent->Some_0;
            assert(self.has(p));
            assert(b.has(p));
        }
        assert forall|k: int| 0 <= k < b.free_list@.len() implies {
            let f = #[trigger] b.free_list@[k];
            f < b.nodes@.len() && !b.has(NodeId(f))
        } by {
            assert(!self.has(NodeId(self.free_list@[k])));
        }
    }

    // ---- construction and queries ----

    pub fn new() -> (r: Self)
        ensures
            r.wf(),
            r.slots() == 0,
            forall|n: NodeId| !r.has(n),
            r.root_spec() is None,
            r.hovered_spec() is None,
            r.pressed_spec() is None,
            r.focused_spec() is None,
            r.captured_spec() is None,
    {
        UiTree {
            nodes: Vec::new(),
            free_list: Vec::new(),
            root: None,
            hovered: None,
            pressed: None,
            focused: None,
            captured: None,
            clock: Ghost(0),
        }
    }

    /// Whether `id` names an occupied slot.
    pub fn contains(&self, id: NodeId) -> (r: bool)
        ensures
            r == self.has(id),
    {
        id.0 < self.nodes.len() && self.nodes[id.0].is_some()
    }

    /// The number of slots, occupied or free; every live id is below it.
    pub fn slot_count(&self) -> (r: usize)
        ensures
            r == self.slots(),
    {
        self.nodes.len()
    }

    pub fn get(&self, id: NodeId) -> (r: Option<&Node>)
        ensures
            match r {
                Some(n) => self.has(id) && *n == self.node(id),
                None => !self.has(id),
            },
    {
        if id.0 < self.nodes.len() {
            self.nodes[id.0].as_ref()
        } else {
            None
        }
    }

    /// The node of `id` for changing in place; only its widget can change
    /// from outside the tree.
    pub fn get_mut(&mut self, id: NodeId) -> (r: Option<&mut Node>)
        ensures
            r is Some ==> {
                &&& old(self).has(id)
                &&& *r.unwrap() == old(self).node(id)
                &&& final(self).has(id)
                &&& final(self).node(id) == *final(r.unwrap())
                &&& final(self).same_but(*old(self), id)
            },
            final(self).slots() == old(self).slots(),
            forall|n: NodeId|
                n != id ==> #[trigger] final(self).has(n) == old(self).has(n) && (old(self).has(n)
                    ==> final(self).node(n) == old(self).node(n)),
            final(self).root_spec() == old(self).root_spec(),
            final(self).hovered_spec() == old(self).hovered_spec(),
            final(self).pressed_spec() == old(self).pressed_spec(),
            final(self).focused_spec() == old(self).focused_spec(),
            final(self).captured_spec() == old(self).captured_spec(),
            r is None ==> !old(self).has(id) && !final(self).has(id) && final(self).same_but(
                *old(self),
                id,
            ),
    {
        if id.0 >= self.nodes.len() {
            return None;
        }
        self.nodes[id.0].as_mut()
    }

    pub fn root(&self) -> (r: Option<NodeId>)
        ensures
            r == self.root_spec(),
    {
        self.root
    }

    pub fn hovered(&self) -> (r: Option<NodeId>)
        ensures
            r == self.hovered_spec(),
    {
        self.hovered
    }

    pub fn pressed(&self) -> (r: Option<NodeId>)
        ensures
            r == self.pressed_spec(),
    {
        self.pressed
    }

    pub fn focused(&self) -> (r: Option<NodeId>)
        ensures
            r == self.focused_spec(),
    {
        self.focused
    }

    pub fn captured(&self) -> (r: Option<NodeId>)
        ensures
            r == self.captured_spec(),
    {
        self.captured
    }

    /// Keeps `id` when it names an occupied slot, and nothing otherwise.
    fn live(&self, id: Option<NodeId>) -> (r: Option<NodeId>)
        ensures
            r == (if self.names_live(id) { id } else { None }),
    {
        match id {
            Some(n) => if self.contains(n) {
                id
            } else {
                None
            },
            None => None,
        }
    }

    // ---- mutation ----

    /// Places `node` in a reclaimed slot (the most recently freed one) or in a new slot.
    fn allocate_slot(&mut self, node: Node) -> (r: NodeId)
        requires
            old(self).free_wf(),
        ensures
            r.0 <= old(self).nodes@.len(),
            !old(self).has(r),
            final(self).nodes@ == (if r.0 < old(self).nodes@.len() {
                old(self).nodes@.update(r.0 as int, Some(node))
            } else {
                old(self).nodes@.push(Some(node))
            }),
            r.0 < old(self).nodes@.len() ==> old(self).free_list@.len() > 0
                && old(self).free_list@.last() == r.0
                && final(self).free_list@ == old(self).free_list@.drop_last(),
            r.0 == old(self).nodes@.len() ==> final(self).free_list@ == old(self).free_list@,
            final(self).root_spec() == old(self).root_spec(),
            final(self).hovered_spec() == old(self).hovered_spec(),
            final(self).pressed_spec() == old(self).pressed_spec(),
            final(self).focused_spec() == old(self).focused_spec(),
            final(self).captured_spec() == old(self).captured_spec(),
            final(self).clock == old(self).clock,
    {
        if let Some(index) = self.free_list.pop() {
            assert(old(self).free_list@[old(self).free_list@.len() - 1] == index);
            self.nodes.set(index, Some(node));
            NodeId(index)
        } else {
            let index = self.nodes.len();
            self.nodes.push(Some(node));
            NodeId(index)
        }
    }

    /// Adds a widget as a new node. With a live `parent` the node becomes its
    /// last (topmost) child; with no parent and no root yet it becomes the root;
    /// a stale parent leaves the node detached.
    pub fn add(&mut self, widget: Widget, parent: Option<NodeId>) -> (r: NodeId)
        requires
            old(self).wf(),
            widget.wf(),
        ensures
            final(self).wf(),
            !old(self).has(r),
            final(self).has(r),
            forall|n: NodeId| n != r ==> final(self).has(n) == old(self).has(n),
            final(self).node(r).widget_spec() == widget,
            final(self).node(r).bounds_spec() == (Rect { x: 0, y: 0, width: 0, height: 0 }),
            final(self).node(r).children_spec() == Seq::<NodeId>::empty(),
            final(self).node(r).parent_spec() == (match parent {
                Some(p) => if old(self).has(p) {
                    Some(p)
                } else {
                    None
                },
                None => None,
            }),
            forall|n: NodeId|
                n != r && #[trigger] old(self).has(n) ==> {
                    &&& final(self).node(n).widget_spec() == old(self).node(n).widget_spec()
                    &&& final(self).node(n).bounds_spec() == old(self).node(n).bounds_spec()
                    &&& final(self).node(n).parent_spec() == old(self).node(n).parent_spec()
                    &&& final(self).node(n).children_spec() == if parent == Some(n) {
                        old(self).node(n).children_spec().push(r)
                    } else {
                        old(self).node(n).children_spec()
                    }
                },
            final(self).root_spec() == (if parent is None && old(self).root_spec() is None {
                Some(r)
            } else {
                old(self).root_spec()
            }),
            final(self).hovered_spec() == old(self).hovered_spec(),
            final(self).pressed_spec() == old(self).pressed_spec(),
            final(self).focused_spec() == old(self).focused_spec(),
            final(self).captured_spec() == old(self).captured_spec(),
    {
        let ghost pre = *self;
        let parent_live = self.live(parent);
        let node = Node::new(widget, Ghost(self.clock@));
        let id = self.allocate_slot(node);
        self.clock = Ghost(self.clock@ + 1);
        assert forall|k: int| 0 <= k < self.free_list@.len() implies {
            let f = #[trigger] self.free_list@[k];
            f < self.nodes@.len() && !self.has(NodeId(f))
        } by {
            assert(pre.free_list@[k] == self.free_list@[k]);
            if id.0 < pre.nodes@.len() {
                assert(pre.free_list@[pre.free_list@.len() - 1] == id.0);
            }
        }
        assert forall|n: NodeId| n != id implies self.has(n) == pre.has(n)
            && (pre.has(n) ==> self.node(n) == pre.node(n)) by {}
        let ghost mid = *self;
        assert(mid.node(id).stamp@ == pre.clock@ && mid.node(id).parent is None
            && mid.node(id).children@.len() == 0);
        match parent_live {
            Some(p) => {
                {
                    let ghost pc = self.node(p).children@;
                    assert(!pc.contains(id)) by {
                        if pc.contains(id) {
                            let k = pc.index_of(id);
                            assert(pre.node(p).children@[k] == id);
                        }
                    }
                    match &mut self.nodes[p.0] {
                        Some(pn) => {
                            pn.children.push(id);
                        },
                        None => {},
                    }
                    match &mut self.nodes[id.0] {
                        Some(cn) => {
                            cn.parent = Some(p);
                        },
                        None => {},
                    }
                    assert(self.node(p).children@ == pc.push(id));
                    assert(self.node(p).children@[pc.len() as int] == id);
                    assert(self.node(id).parent == Some(p));
                    assert(self.node(id).stamp == mid.node(id).stamp);
                    assert(self.node(id).children@ == mid.node(id).children@);
                }
            },
            None => {
                if parent.is_none() && self.root.is_none() {
                    self.root = Some(id);
                }
            },
        }
        let ghost pp: Option<NodeId> = match parent {
            Some(p) => if pre.has(p) {
                Some(p)
            } else {
                None
            },
            None => None,
        };
        assert(self.has(id) && self.node(id).parent == pp && self.stamp(id) == pre.clock@
            && self.node(id).children@.len() == 0);
        assert forall|n: NodeId| n != id && Some(n) != pp implies self.has(n) == pre.has(n) && (
        pre.has(n) ==> self.node(n) == pre.node(n)) by {
            assert(mid.has(n) == pre.has(n));
        }
        proof {
          if pp is Some {
            let p = pp->Some_0;
            assert(self.has(p) && self.stamp(p) == pre.stamp(p) && self.node(p).parent
                == pre.node(p).parent && self.node(p).children@ == pre.node(p).children@.push(
                id,
            ));
          }
        }
        assert forall|n: NodeId, k: int|
            self.has(n) && 0 <= k < self.node(n).children@.len() implies {
            let c = #[trigger] self.node(n).children@[k];
            &&& self.has(c)
            &&& self.node(c).parent == Some(n)
            &&& self.stamp(n) < self.stamp(c)
        } by {
            if n != id {
                assert(pre.has(n));
                if k < pre.node(n).children@.len() {
                    let c = pre.node(n).children@[k];
                    assert(self.node(n).children@[k] == c);
                    assert(pre.has(c) && c != id);
                    if Some(c) == pp {
                        assert(pre.stamp(n) < pre.stamp(c));
                        assert(pre.node(c).parent == Some(n));
                    }
                }
            }
        }
        assert forall|n: NodeId| #[trigger] self.has(n) implies self.stamp(n) < self.clock@ by {
            if n != id {
                assert(pre.has(n));
            }
        }
        assert forall|n: NodeId| #[trigger] self.has(n) implies self.node(n).children@.no_duplicates() by {
            if n != id && Some(n) == pp {
                assert(pre.has(n));
                let s0 = pre.node(n).children@;
                assert(!s0.contains(id)) by {
                    if s0.contains(id) {
                        let k = s0.index_of(id);
                        assert(pre.node(n).children@[k] == id);
                    }
                }
                assert(self.node(n).children@ == s0.push(id));
                assert forall|i: int, j: int| 0 <= i < j < s0.len() + 1 implies s0.push(id)[i] != s0.push(id)[j] by {
                    if j == s0.len() {
                        assert(s0[i] != id);
                    }
                }
            }
        }
        assert forall|n: NodeId| #[trigger]
            self.has(n) && self.node(n).parent is Some implies {
            let p = self.node(n).parent->Some_0;
            self.has(p) && self.node(p).children@.contains(n)
        } by {
            let p = self.node(n).parent->Some_0;
            if n != id {
                assert(pre.has(n));
                assert(pre.node(n).parent == self.node(n).parent);
                assert(pre.has(p) && pre.node(p).children@.contains(n));
                let k = pre.node(p).children@.index_of(n);
                assert(self.node(p).children@[k] == n);
            } else {
                assert(self.node(p).children@[self.node(p).children@.len() - 1] == n);
            }
        }
        assert(self.singletons_live());
        assert forall|n: NodeId| #[trigger] self.has(n) implies self.node(n).widget.wf() by {
            if n != id {
                assert(pre.has(n));
            }
        }
        id
    }

    /// Adds a boxed widget; the same as `add`.
    pub fn add_boxed(&mut self, widget: Box<Widget>, parent: Option<NodeId>) -> (r: NodeId)
        requires
            old(self).wf(),
            widget.wf(),
        ensures
            final(self).wf(),
            !old(self).has(r),
            final(self).has(r),
            forall|n: NodeId| n != r ==> final(self).has(n) == old(self).has(n),
            final(self).node(r).widget_spec() == *widget,
            final(self).node(r).bounds_spec() == (Rect { x: 0, y: 0, width: 0, height: 0 }),
            final(self).node(r).children_spec() == Seq::<NodeId>::empty(),
            final(self).node(r).parent_spec() == (match parent {
                Some(p) => if old(self).has(p) {
                    Some(p)
                } else {
                    None
                },
                None => None,
            }),
            forall|n: NodeId|
                n != r && #[trigger] old(self).has(n) ==> {
                    &&& final(self).node(n).widget_spec() == old(self).node(n).widget_spec()
                    &&& final(self).node(n).bounds_spec() == old(self).node(n).bounds_spec()
                    &&& final(self).node(n).parent_spec() == old(self).node(n).parent_spec()
                    &&& final(self).node(n).children_spec() == if parent == Some(n) {
                        old(self).node(n).children_spec().push(r)
                    } else {
                        old(self).node(n).children_spec()
                    }
                },
            final(self).root_spec() == (if parent is None && old(self).root_spec() is None {
                Some(r)
            } else {
                old(self).root_spec()
            }),
            final(self).hovered_spec() == old(self).hovered_spec(),
            final(self).pressed_spec() == old(self).pressed_spec(),
            final(self).focused_spec() == old(self).focused_spec(),
            final(self).captured_spec() == old(self).captured_spec(),
    {
        self.add(*widget, parent)
    }

    /// Appends the nodes of the subtree at `id` to `out`, children before parents.
    fn collect_subtree(&self, id: NodeId, out: &mut Vec<NodeId>)
        requires
            self.wf(),
            self.has(id),
        ensures
            forall|x: NodeId|
                #[trigger] final(out)@.contains(x) <==> (old(out)@.contains(x) || (self.has(x)
                    && self.descends(x, id))),
        decreases self.measure(id),
    {
        let node = match &self.nodes[id.0] {
            Some(n) => n,
            None => {
                return;
            },
        };
        let ghost ch = node.children@;
        let mut k: usize = 0;
        while k < node.children.len()
            invariant
                self.wf(),
                self.has(id),
                *node == self.node(id),
                ch == node.children@,
                0 <= k <= ch.len(),
                forall|x: NodeId|
                    #[trigger] out@.contains(x) <==> (old(out)@.contains(x) || (self.has(x)
                        && exists|m: int| 0 <= m < k && self.descends(x, #[trigger] ch[m]))),
            decreases ch.len() - k,
        {
            let c = node.children[k];
            assert(self.has(c) && self.stamp(id) < self.stamp(c) && self.stamp(c) < self.clock@);
            let ghost before = out@;
            self.collect_subtree(c, out);
            assert forall|x: NodeId| #[trigger] out@.contains(x) <==> (old(out)@.contains(x) || (
            self.has(x) && exists|m: int| 0 <= m < k + 1 && self.descends(x, #[trigger] ch[m]))) by {
                if self.has(x) && self.descends(x, c) {
                    assert(ch[k as int] == c);
                }
                if self.has(x) && exists|m: int| 0 <= m < k + 1 && self.descends(x, #[trigger] ch[m]) {
                    let m = choose|m: int| 0 <= m < k + 1 && self.descends(x, #[trigger] ch[m]);
                    if m < k {
                        assert(before.contains(x));
                    }
                }
            }
            k += 1;
        }
        let ghost before = out@;
        out.push(id);
        assert forall|x: NodeId| #[trigger] out@.contains(x) <==> (old(out)@.contains(x) || (
        self.has(x) && self.descends(x, id))) by {
            if self.has(x) {
                self.lemma_descends_split(x, id);
            }
            if out@.contains(x) && x != id {
                let j = out@.index_of(x);
                assert(before[j] == x);
            }
            if before.contains(x) {
                let j = before.index_of(x);
                assert(out@[j] == x);
            }
            assert(out@[before.len() as int] == id);
        }
    }

    /// The position of `x` in `v`, if it occurs.
    fn position(v: &Vec<NodeId>, x: NodeId) -> (r: Option<usize>)
        ensures
            match r {
                Some(j) => j < v@.len() && v@[j as int] == x,
                None => !v@.contains(x),
            },
    {
        let mut j: usize = 0;
        while j < v.len()
            invariant
                0 <= j <= v@.len(),
                forall|m: int| 0 <= m < j ==> v@[m] != x,
            decreases v@.len() - j,
        {
            if v[j] == x {
                return Some(j);
            }
            j += 1;
        }
        None
    }

    /// Removes the node `id` and its whole subtree. The removed slots go on the
    /// free list, `id` is unlinked from its parent, and every singleton (and the
    /// root) that named a removed node is cleared. A stale `id` changes nothing.
    pub fn remove(&mut self, id: NodeId)
        requires
            old(self).wf(),
        ensures
            final(self).wf(),
            UiTree::removal(*old(self), *final(self), id),
            !old(self).has(id) ==> *final(self) == *old(self),
    {
        if !self.contains(id) {
            proof {
                assert forall|n: NodeId| #[trigger] self.has(n) implies self.node(n).children@ == without(
                    self.node(n).children@,
                    id,
                ) by {
                    if self.node(n).children@.contains(id) {
                        let k = self.node(n).children@.index_of(id);
                        assert(self.node(n).children@[k] == id);
                    }
                }
            }
            return;
        }
        let ghost pre = *self;
        let mut doomed: Vec<NodeId> = Vec::new();
        self.collect_subtree(id, &mut doomed);
        // Unlink `id` from its parent's children.
        let parent = match &self.nodes[id.0] {
            Some(n) => n.parent,
            None => None,
        };
        if let Some(p) = parent {
            proof {
                self.lemma_parent_younger(id);
            }
            match &mut self.nodes[p.0] {
                Some(pn) => {
                    match UiTree::position(&pn.children, id) {
                        Some(j) => {
                            pn.children.remove(j);
                        },
                        None => {},
                    }
                },
                None => {},
            }
        }
        let ghost mid = *self;
        proof {
            assert forall|n: NodeId| #[trigger] pre.has(n) implies mid.has(n) && mid.node(n).widget
                == pre.node(n).widget && mid.node(n).bounds == pre.node(n).bounds && mid.node(n).parent
                == pre.node(n).parent && mid.node(n).stamp == pre.node(n).stamp
                && mid.node(n).children@ == without(pre.node(n).children@, id) by {
                let s0 = pre.node(n).children@;
                if s0.contains(id) {
                    let k = s0.index_of(id);
                    assert(s0[k] == id);
                    assert(pre.node(id).parent == Some(n));
                } else if Some(n) == parent {
                    assert(pre.node(n).children@.contains(id));
                }
            }
        }
        let mut k: usize = 0;
        while k < doomed.len()
            invariant
                0 <= k <= doomed@.len(),
                forall|x: NodeId| #[trigger]
                    doomed@.contains(x) <==> (pre.has(x) && pre.descends(x, id)),
                self.nodes@.len() == pre.nodes@.len(),
                self.clock == pre.clock,
                forall|n: NodeId| #[trigger]
                    self.has(n) == (pre.has(n) && !doomed@.subrange(0, k as int).contains(n)),
                forall|n: NodeId| #[trigger] self.has(n) ==> self.node(n) == mid.node(n),
                forall|n: NodeId| #[trigger] pre.has(n) ==> mid.has(n) && mid.node(n).widget
                    == pre.node(n).widget && mid.node(n).bounds == pre.node(n).bounds
                    && mid.node(n).parent == pre.node(n).parent && mid.node(n).stamp
                    == pre.node(n).stamp && mid.node(n).children@ == without(pre.node(n).children@, id),
                self.free_wf(),
                pre.wf(),
                self.root == UiTree::cut(pre.root, doomed@.subrange(0, k as int)),
                self.hovered == UiTree::cut(pre.hovered, doomed@.subrange(0, k as int)),
                self.pressed == UiTree::cut(pre.pressed, doomed@.subrange(0, k as int)),
                self.focused == UiTree::cut(pre.focused, doomed@.subrange(0, k as int)),
                self.captured == UiTree::cut(pre.captured, doomed@.subrange(0, k as int)),
            decreases doomed@.len() - k,
        {
            let d = doomed[k];
            let ghost done = doomed@.subrange(0, k as int);
            let ghost done2 = doomed@.subrange(0, k + 1);
            assert forall|x: NodeId| done2.contains(x) <==> (done.contains(x) || x == d) by {
                if done2.contains(x) {
                    let j = done2.index_of(x);
                    if j < k {
                        assert(done[j] == x);
                    }
                }
                if done.contains(x) {
                    let j = done.index_of(x);
                    assert(done2[j] == x);
                }
                assert(done2[k as int] == d);
            }
            let ghost st = *self;
            let live = d.0 < self.nodes.len() && self.nodes[d.0].is_some();
            if live {
                let ghost before = *self;
                self.nodes.set(d.0, None);
                self.free_list.push(d.0);
                assert forall|j: int| 0 <= j < self.free_list@.len() implies {
                    let f = #[trigger] self.free_list@[j];
                    f < self.nodes@.len() && !self.has(NodeId(f))
                } by {
                    if j < before.free_list@.len() {
                        assert(before.free_list@[j] == self.free_list@[j]);
                    }
                }
                assert(!before.free_list@.contains(d.0)) by {
                    if before.free_list@.contains(d.0) {
                        let j = before.free_list@.index_of(d.0);
                        assert(before.free_list@[j] == d.0);
                    }
                }
                if self.root == Some(d) {
                    self.root = None;
                }
                if self.hovered == Some(d) {
                    self.hovered = None;
                }
                if self.pressed == Some(d) {
                    self.pressed = None;
                }
                if self.focused == Some(d) {
                    self.focused = None;
                }
                if self.captured == Some(d) {
                    self.captured = None;
                }
            }
            proof {
                assert(doomed@.contains(d)) by {
                    assert(doomed@[k as int] == d);
                }
                assert(live == st.has(d));
                assert(st.has(d) <==> !done.contains(d));
                assert forall|n: NodeId| #[trigger] self.has(n) == (st.has(n) && n != d) by {}
                assert forall|n: NodeId| #[trigger] self.has(n) implies self.node(n) == st.node(n) by {}
                assert forall|n: NodeId| #[trigger]
                    self.has(n) == (pre.has(n) && !done2.contains(n)) by {
                    assert(st.has(n) == (pre.has(n) && !done.contains(n)));
                }
                assert(self.root == UiTree::cut(pre.root, done2));
                assert(self.hovered == UiTree::cut(pre.hovered, done2));
                assert(self.pressed == UiTree::cut(pre.pressed, done2));
                assert(self.focused == UiTree::cut(pre.focused, done2));
                assert(self.captured == UiTree::cut(pre.captured, done2));
            }
            k += 1;
        }
        proof {
            assert(doomed@.subrange(0, doomed@.len() as int) == doomed@);
            self.lemma_after_removal(pre, mid, id, doomed@);
        }
    }

    pub fn set_root(&mut self, id: Option<NodeId>)
        requires
            old(self).wf(),
        ensures
            final(self).wf(),
            final(self).root_spec() == (if old(self).names_live(id) { id } else { None }),
            final(self).same_nodes(*old(self)),
            final(self).slots() == old(self).slots(),
            forall|n: NodeId| #[trigger] final(self).has(n) == old(self).has(n),
            forall|n: NodeId| #[trigger] final(self).node(n) == old(self).node(n),
            final(self).hovered_spec() == old(self).hovered_spec(),
            final(self).pressed_spec() == old(self).pressed_spec(),
            final(self).focused_spec() == old(self).focused_spec(),
            final(self).captured_spec() == old(self).captured_spec(),
    {
        self.root = self.live(id);
        proof {
            old(self).lemma_edges_kept(*self);
        }
    }

    /// Records that the pointer is over `id`; a stale id records nothing.
    pub fn set_hovered(&mut self, id: Option<NodeId>)
        requires
            old(self).wf(),
        ensures
            final(self).wf(),
            final(self).hovered_spec() == (if old(self).names_live(id) { id } else { None }),
            final(self).same_nodes(*old(self)),
            final(self).slots() == old(self).slots(),
            forall|n: NodeId| #[trigger] final(self).has(n) == old(self).has(n),
            forall|n: NodeId| #[trigger] final(self).node(n) == old(self).node(n),
            final(self).root_spec() == old(self).root_spec(),
            final(self).pressed_spec() == old(self).pressed_spec(),
            final(self).focused_spec() == old(self).focused_spec(),
            final(self).captured_spec() == old(self).captured_spec(),
    {
        self.hovered = self.live(id);
        proof {
            old(self).lemma_edges_kept(*self);
        }
    }

    /// Records that `id` is pressed; a stale id records nothing.
    pub fn set_pressed(&mut self, id: Option<NodeId>)
        requires
            old(self).wf(),
        ensures
            final(self).wf(),
            final(self).pressed_spec() == (if old(self).names_live(id) { id } else { None }),
            final(self).same_nodes(*old(self)),
            final(self).slots() == old(self).slots(),
            forall|n: NodeId| #[trigger] final(self).has(n) == old(self).has(n),
            forall|n: NodeId| #[trigger] final(self).node(n) == old(self).node(n),
            final(self).root_spec() == old(self).root_spec(),
            final(self).hovered_spec() == old(self).hovered_spec(),
            final(self).focused_spec() == old(self).focused_spec(),
            final(self).captured_spec() == old(self).captured_spec(),
    {
        self.pressed = self.live(id);
        proof {
            old(self).lemma_edges_kept(*self);
        }
    }

    /// Records that `id` has the keyboard focus; a stale id records nothing.
    pub fn set_focused(&mut self, id: Option<NodeId>)
        requires
            old(self).wf(),
        ensures
            final(self).wf(),
            final(self).focused_spec() == (if old(self).names_live(id) { id } else { None }),
            final(self).same_nodes(*old(self)),
            final(self).slots() == old(self).slots(),
            forall|n: NodeId| #[trigger] final(self).has(n) == old(self).has(n),
            forall|n: NodeId| #[trigger] final(self).node(n) == old(self).node(n),
            final(self).root_spec() == old(self).root_spec(),
            final(self).hovered_spec() == old(self).hovered_spec(),
            final(self).pressed_spec() == old(self).pressed_spec(),
            final(self).captured_spec() == old(self).captured_spec(),
    {
        self.focused = self.live(id);
        proof {
            old(self).lemma_edges_kept(*self);
        }
    }

    /// Records that `id` captures the pointer; a stale id records nothing.
    pub fn set_captured(&mut self, id: Option<NodeId>)
        requires
            old(self).wf(),
        ensures
            final(self).wf(),
            final(self).captured_spec() == (if old(self).names_live(id) { id } else { None }),
            final(self).same_nodes(*old(self)),
            final(self).slots() == old(self).slots(),
            forall|n: NodeId| #[trigger] final(self).has(n) == old(self).has(n),
            forall|n: NodeId| #[trigger] final(self).node(n) == old(self).node(n),
            final(self).root_spec() == old(self).root_spec(),
            final(self).hovered_spec() == old(self).hovered_spec(),
            final(self).pressed_spec() == old(self).pressed_spec(),
            final(self).focused_spec() == old(self).focused_spec(),
    {
        self.captured = self.live(id);
        proof {
            old(self).lemma_edges_kept(*self);
        }
    }

    /// Overwrites the layout bounds of `id`; a stale id changes nothing.
    pub fn set_bounds(&mut self, id: NodeId, bounds: Rect)
        requires
            old(self).wf(),
        ensures
            final(self).wf(),
            final(self).slots() == old(self).slots(),
            forall|n: NodeId| #[trigger] final(self).has(n) == old(self).has(n),
            forall|n: NodeId|
                #[trigger] final(self).has(n) ==> {
                    &&& final(self).node(n).widget_spec() == old(self).node(n).widget_spec()
                    &&& final(self).node(n).bounds_spec() == if n == id {
                        bounds
                    } else {
                        old(self).node(n).bounds_spec()
                    }
                    &&& final(self).node(n).parent_spec() == old(self).node(n).parent_spec()
                    &&& final(self).node(n).children_spec() == old(self).node(n).children_spec()
                },
            final(self).root_spec() == old(self).root_spec(),
            final(self).hovered_spec() == old(self).hovered_spec(),
            final(self).pressed_spec() == old(self).pressed_spec(),
            final(self).focused_spec() == old(self).focused_spec(),
            final(self).captured_spec() == old(self).captured_spec(),
    {
        if id.0 < self.nodes.len() {
            match &mut self.nodes[id.0] {
                Some(node) => {
                    node.bounds = bounds;
                },
                None => {},
            }
        }
        proof {
            assert forall|n: NodeId| #[trigger] self.has(n) implies self.stamp(n) == old(self).stamp(n)
                && self.node(n).children@ == old(self).node(n).children@ && self.node(n).parent
                == old(self).node(n).parent by {}
            old(self).lemma_edges_kept(*self);
        }
    }

    /// Puts `widget` into the node `id` and hands back the widget it held; a
    /// stale id changes nothing and hands back nothing.
    pub fn replace_widget(&mut self, id: NodeId, widget: Widget) -> (r: Option<Widget>)
        requires
            old(self).wf(),
            widget.wf(),
        ensures
            final(self).wf(),
            UiTree::same_shape(*old(self), *final(self)),
            match r {
                Some(w) => old(self).has(id) && w == old(self).node(id).widget_spec() && w.wf(),
                None => !old(self).has(id),
            },
            forall|n: NodeId|
                #[trigger] final(self).has(n) ==> final(self).node(n).widget_spec() == if n == id {
                    widget
                } else {
                    old(self).node(n).widget_spec()
                },
    {
        proof {
            if self.has(id) {
                assert(self.node(id).widget.wf());
            }
        }
        if id.0 >= self.nodes.len() {
            return None;
        }
        let mut w = widget;
        let r = match &mut self.nodes[id.0] {
            Some(node) => {
                std::mem::swap(&mut node.widget, &mut w);
                Some(w)
            },
            None => None,
        };
        proof {
            assert forall|n: NodeId| #[trigger] self.has(n) implies self.stamp(n) == old(self).stamp(n)
                && self.node(n).children@ == old(self).node(n).children@ && self.node(n).parent
                == old(self).node(n).parent by {}
            old(self).lemma_edges_kept(*self);
        }
        r
    }

    /// Delivers an event to the widget of `id`; says whether it was
    /// consumed. A stale id consumes nothing.
    pub fn send_event(&mut self, id: NodeId, event: &WidgetEvent) -> (r: bool)
        requires
            old(self).wf(),
        ensures
            final(self).wf(),
            UiTree::same_shape(*old(self), *final(self)),
            !old(self).has(id) ==> !r,
            old(self).has(id) ==> Widget::reacts(
                old(self).node(id).widget_spec(),
                final(self).node(id).widget_spec(),
                *event,
                r,
            ),
            forall|n: NodeId|
                #[trigger] final(self).has(n) && n != id ==> final(self).node(n).widget_spec()
                    == old(self).node(n).widget_spec(),
    {
        if id.0 >= self.nodes.len() {
            return false;
        }
        proof {
            if self.has(id) {
                assert(self.node(id).widget.wf());
            }
        }
        let r = match &mut self.nodes[id.0] {
            Some(node) => node.widget.on_event(event),
            None => false,
        };
        proof {
            assert forall|n: NodeId| #[trigger] self.has(n) implies self.stamp(n) == old(self).stamp(n)
                && self.node(n).children@ == old(self).node(n).children@ && self.node(n).parent
                == old(self).node(n).parent by {}
            old(self).lemma_edges_kept(*self);
        }
        r
    }

    /// The action named by the button at `id`, if it is a skin button with one.
    pub fn button_action(&self, id: NodeId) -> (r: Option<String>)
        ensures
            match r {
                Some(a) => self.has(id) && self.node(id).widget_spec() is SkinButton
                    && self.node(id).widget_spec()->SkinButton_0.action_spec() == Some(a@),
                None => !(self.has(id) && self.node(id).widget_spec() is SkinButton
                    && self.node(id).widget_spec()->SkinButton_0.action_spec() is Some),
            },
    {
        if id.0 >= self.nodes.len() {
            return None;
        }
        match &self.nodes[id.0] {
            Some(node) => match &node.widget {
                Widget::SkinButton(b) => match b.action() {
                    Some(a) => Some(a.to_owned()),
                    None => None,
                },
                _ => None,
            },
            None => None,
        }
    }

    /// The ids of all occupied slots, in slot order.
    pub fn node_ids(&self) -> (r: Vec<NodeId>)
        ensures
            forall|n: NodeId| #[trigger] r@.contains(n) <==> self.has(n),
            forall|k: int| 0 <= k < r@.len() ==> (#[trigger] r@[k]).0 < self.slots(),
            r@.no_duplicates(),
    {
        let mut out: Vec<NodeId> = Vec::new();
        let mut i: usize = 0;
        while i < self.nodes.len()
            invariant
                0 <= i <= self.nodes@.len(),
                forall|n: NodeId| #[trigger] out@.contains(n) <==> (self.has(n) && n.0 < i),
                forall|k: int| 0 <= k < out@.len() ==> (#[trigger] out@[k]).0 < i,
                out@.no_duplicates(),
            decreases self.nodes@.len() - i,
        {
            if self.nodes[i].is_some() {
                let ghost before = out@;
                out.push(NodeId(i));
                assert forall|n: NodeId| #[trigger] out@.contains(n) <==> (self.has(n) && n.0 < i + 1) by {
                    if out@.contains(n) && n != NodeId(i) {
                        let j = out@.index_of(n);
                        assert(before[j] == n);
                    }
                    if before.contains(n) {
                        let j = before.index_of(n);
                        assert(out@[j] == n);
                    }
                    assert(out@[before.len() as int] == NodeId(i));
                }
            }
            i += 1;
        }
        out
    }

    fn hit_test_node(&self, id: NodeId, x: i32, y: i32) -> (r: Option<NodeId>)
        requires
            self.wf(),
        ensures
            r == self.hit_at(id, x as int, y as int),
        decreases self.measure(id),
    {
        if id.0 >= self.nodes.len() {
            return None;
        }
        let node = match &self.nodes[id.0] {
            Some(n) => n,
            None => {
                return None;
            },
        };
        if !node.bounds.contains(x, y) {
            return None;
        }
        let ghost ch = node.children@;
        let mut i = node.children.len();
        while i > 0
            invariant
                self.wf(),
                self.has(id),
                *node == self.node(id),
                ch == node.children@,
                0 <= i <= ch.len(),
                self.hit_at(id, x as int, y as int) == match self.hit_among(
                    id,
                    i as int,
                    x as int,
                    y as int,
                ) {
                    Some(h) => Some(h),
                    None => Some(id),
                },
            decreases i,
        {
            let c = node.children[i - 1];
            assert(self.has(c) && self.stamp(id) < self.stamp(c) && self.stamp(c) < self.clock@);
            if let Some(h) = self.hit_test_node(c, x, y) {
                return Some(h);
            }
            i -= 1;
        }
        Some(id)
    }

    /// The topmost node under the point: walking down from the root through
    /// nodes whose bounds hold it, later children before earlier ones.
    pub fn hit_test(&self, x: i32, y: i32) -> (r: Option<NodeId>)
        requires
            self.wf(),
        ensures
            r == self.hit_spec(x as int, y as int),
    {
        match self.root {
            Some(root) => self.hit_test_node(root, x, y),
            None => None,
        }
    }

    /// The interaction flags of `id`: which singletons name it.
    pub fn state_of(&self, id: NodeId) -> (r: WidgetState)
        ensures
            r.hovered == (self.hovered_spec() == Some(id)),
            r.pressed == (self.pressed_spec() == Some(id)),
            r.focused == (self.focused_spec() == Some(id)),
    {
        WidgetState {
            hovered: self.hovered == Some(id),
            pressed: self.pressed == Some(id),
            focused: self.focused == Some(id),
        }
    }

    /// The interaction flags of `id`, as `state_of` gives them.
    pub open spec fn state_spec(&self, id: NodeId) -> WidgetState {
        WidgetState {
            hovered: self.hovered_spec() == Some(id),
            pressed: self.pressed_spec() == Some(id),
            focused: self.focused_spec() == Some(id),
        }
    }

    /// A pixel, of value `v` before, after the subtree at `id` is drawn: the
    /// node's widget with its bounds and flags, then each child's subtree in
    /// order.
    pub open spec fn tree_px(
        &self,
        id: NodeId,
        fw: int,
        fh: int,
        clip: Option<Rect>,
        px: int,
        py: int,
        v: u32,
    ) -> u32
        decreases self.measure(id), 1nat, 0int,
    {
        if !self.has(id) {
            v
        } else {
            self.children_px(
                id,
                self.node(id).children_spec().len() as int,
                fw,
                fh,
                clip,
                px,
                py,
                self.node(id).widget_spec().paint_px(
                    fw,
                    fh,
                    clip,
                    self.node(id).bounds_spec(),
                    self.state_spec(id),
                    px,
                    py,
                    v,
                ),
            )
        }
    }

    /// A pixel after the subtrees of the first `k` children of `id` are drawn in order.
    pub open spec fn children_px(
        &self,
        id: NodeId,
        k: int,
        fw: int,
        fh: int,
        clip: Option<Rect>,
        px: int,
        py: int,
        v: u32,
    ) -> u32
        decreases self.measure(id), 0nat, k,
    {
        if k <= 0 || !self.has(id) || k > self.node(id).children_spec().len() {
            v
        } else {
            let before = self.children_px(id, k - 1, fw, fh, clip, px, py, v);
            let c = self.node(id).children_spec()[k - 1];
            if self.measure(c) < self.measure(id) {
                self.tree_px(c, fw, fh, clip, px, py, before)
            } else {
                before
            }
        }
    }

    fn draw_node(&self, id: NodeId, canvas: &mut Canvas)
        requires
            self.wf(),
            old(canvas).wf(),
        ensures
            old(canvas).same_frame(&*final(canvas)),
            painted(
                *old(canvas),
                *final(canvas),
                |px: int, py: int, v: u32|
                    self.tree_px(
                        id,
                        old(canvas).width_spec() as int,
                        old(canvas).height_spec() as int,
                        old(canvas).clip_spec(),
                        px,
                        py,
                        v,
                    ),
            ),
        decreases self.measure(id),
    {
        if id.0 >= self.nodes.len() {
            return;
        }
        let node = match &self.nodes[id.0] {
            Some(n) => n,
            None => {
                return;
            },
        };
        let ghost fw = canvas.width_spec() as int;
        let ghost fh = canvas.height_spec() as int;
        let ghost clip = canvas.clip_spec();
        let ghost start = canvas.pixels();
        let state = self.state_of(id);
        assert(state == self.state_spec(id));
        let bounds = node.bounds;
        node.widget.draw(canvas, &bounds, state);
        let ghost ch = node.children@;
        let mut k: usize = 0;
        while k < node.children.len()
            invariant
                self.wf(),
                self.has(id),
                *node == self.node(id),
                ch == node.children@,
                k <= ch.len(),
                old(canvas).same_frame(&*canvas),
                fw == old(canvas).width_spec() as int,
                fh == old(canvas).height_spec() as int,
                clip == old(canvas).clip_spec(),
                start == old(canvas).pixels(),
                forall|px: int, py: int|
                    0 <= px < fw && 0 <= py < fh ==> #[trigger] at(canvas.pixels(), fw, px, py)
                        == self.children_px(
                        id,
                        k as int,
                        fw,
                        fh,
                        clip,
                        px,
                        py,
                        self.node(id).widget_spec().paint_px(
                            fw,
                            fh,
                            clip,
                            self.node(id).bounds_spec(),
                            self.state_spec(id),
                            px,
                            py,
                            at(start, fw, px, py),
                        ),
                    ),
            decreases ch.len() - k,
        {
            let c = node.children[k];
            assert(self.has(c) && self.stamp(id) < self.stamp(c) && self.stamp(c) < self.clock@);
            let ghost mid = canvas.pixels();
            self.draw_node(c, canvas);
            proof {
                assert forall|px: int, py: int| 0 <= px < fw && 0 <= py < fh implies #[trigger] at(
                        canvas.pixels(),
                        fw,
                        px,
                        py,
                    ) == self.children_px(
                        id,
                        k + 1,
                        fw,
                        fh,
                        clip,
                        px,
                        py,
                        self.node(id).widget_spec().paint_px(
                            fw,
                            fh,
                            clip,
                            self.node(id).bounds_spec(),
                            self.state_spec(id),
                            px,
                            py,
                            at(start, fw, px, py),
                        ),
                    ) by {
                        assert(at(mid, fw, px, py) == at(mid, fw, px, py));
                        assert(self.node(id).children_spec()[k as int] == c);
                    }
            }
            k += 1;
        }
        proof {
            assert forall|px: int, py: int| 0 <= px < fw && 0 <= py < fh implies #[trigger] at(
                    canvas.pixels(),
                    fw,
                    px,
                    py,
                ) == self.tree_px(id, fw, fh, clip, px, py, at(start, fw, px, py)) by {}
        }
    }

    /// Paints the tree from the root down: each node's widget with its
    /// interaction flags, then its children in order, so later children end
    /// up on top. With no root nothing is painted.
    pub fn draw(&self, canvas: &mut Canvas)
        requires
            self.wf(),
            old(canvas).wf(),
        ensures
            old(canvas).same_frame(&*final(canvas)),
            self.root_spec() is None ==> *final(canvas) == *old(canvas),
            self.root_spec() is Some ==> painted(
                *old(canvas),
                *final(canvas),
                |px: int, py: int, v: u32|
                    self.tree_px(
                        self.root_spec()->Some_0,
                        old(canvas).width_spec() as int,
                        old(canvas).height_spec() as int,
                        old(canvas).clip_spec(),
                        px,
                        py,
                        v,
                    ),
            ),
    {
        if let Some(root) = self.root {
            self.draw_node(root, canvas);
        }
    }

    /// The size of the root's bounds, or nothing without a root.
    pub fn size(&self) -> (r: (u32, u32))
        requires
            self.wf(),
        ensures
            r == match self.root_spec() {
                Some(root) => (self.node(root).bounds_spec().width, self.node(root).bounds_spec().height),
                None => (0u32, 0u32),
            },
    {
        match self.root {
            Some(root) => match &self.nodes[root.0] {
                Some(n) => (n.bounds.width, n.bounds.height),
                None => (0, 0),
            },
            None => (0, 0),
        }
    }

    proof fn lemma_hit_at_live(&self, id: NodeId, x: int, y: int)
        ensures
            self.hit_at(id, x, y) is Some ==> self.has(self.hit_at(id, x, y)->Some_0),
        decreases self.measure(id), 1nat, 0int,
    {
        if self.has(id) && self.node(id).bounds.contains_spec(x, y) {
            self.lemma_hit_among_live(id, self.node(id).children@.len() as int, x, y);
        }
    }

    proof fn lemma_hit_among_live(&self, id: NodeId, k: int, x: int, y: int)
        ensures
            self.hit_among(id, k, x, y) is Some ==> self.has(self.hit_among(id, k, x, y)->Some_0),
        decreases self.measure(id), 0nat, k,
    {
        if !(k <= 0 || !self.has(id) || k > self.node(id).children@.len()) {
            let c = self.node(id).children@[k - 1];
            if self.measure(c) < self.measure(id) {
                self.lemma_hit_at_live(c, x, y);
            }
            self.lemma_hit_among_live(id, k - 1, x, y);
        }
    }

    /// A hit test finds nothing or an occupied slot.
    pub proof fn lemma_hit_is_live(&self, x: int, y: int)
        ensures
            self.hit_spec(x, y) is Some ==> self.has(self.hit_spec(x, y)->Some_0),
    {
        if let Some(r) = self.root_spec() {
            self.lemma_hit_at_live(r, x, y);
        }
    }

    // ---- laws ----

    /// In a well-formed tree every child is live, names its parent, and lies
    /// strictly lower in the walk order than it (its `measure` is smaller), so
    /// `hit_among`, `children_px` and `descends` always follow the child links.
    pub proof fn lemma_child_link(t: UiTree, n: NodeId, k: int)
        requires
            t.wf(),
            t.has(n),
            0 <= k < t.node(n).children_spec().len(),
        ensures
            t.has(t.node(n).children_spec()[k]),
            t.node(t.node(n).children_spec()[k]).parent_spec() == Some(n),
            t.measure(t.node(n).children_spec()[k]) < t.measure(n),
    {
        let c = t.node(n).children@[k];
        assert(t.has(c) && t.stamp(n) < t.stamp(c) && t.stamp(c) < t.clock@);
    }

    /// In a well-formed tree a live node's parent is live and lists it, and a
    /// node appears in no child list but its parent's.
    pub proof fn lemma_parent_link(t: UiTree, n: NodeId, m: NodeId)
        requires
            t.wf(),
        ensures
            t.has(n) && t.node(n).parent_spec() is Some ==> t.has(t.node(n).parent_spec()->Some_0)
                && t.node(t.node(n).parent_spec()->Some_0).children_spec().contains(n),
            t.has(m) && t.node(m).children_spec().contains(n) ==> t.node(n).parent_spec() == Some(m),
            t.has(m) ==> t.node(m).children_spec().no_duplicates(),
    {
        if t.has(m) && t.node(m).children_spec().contains(n) {
            let k = t.node(m).children@.index_of(n);
            assert(t.node(m).children@[k] == n);
        }
    }

    /// One step of the hit walk among children, in a well-formed tree: the
    /// `k`-th child's subtree is tried, and if it finds nothing, the earlier ones.
    pub proof fn lemma_hit_among_step(t: UiTree, id: NodeId, k: int, x: int, y: int)
        requires
            t.wf(),
            t.has(id),
            0 < k <= t.node(id).children_spec().len(),
        ensures
            t.hit_among(id, k, x, y) == match t.hit_at(t.node(id).children_spec()[k - 1], x, y) {
                Some(h) => Some(h),
                None => t.hit_among(id, k - 1, x, y),
            },
    {
        UiTree::lemma_child_link(t, id, k - 1);
    }

    /// One step of the drawing walk among children, in a well-formed tree:
    /// the first `k - 1` children's subtrees are drawn, then the `k`-th's.
    pub proof fn lemma_children_px_step(
        t: UiTree,
        id: NodeId,
        k: int,
        fw: int,
        fh: int,
        clip: Option<Rect>,
        px: int,
        py: int,
        v: u32,
    )
        requires
            t.wf(),
            t.has(id),
            0 < k <= t.node(id).children_spec().len(),
        ensures
            t.children_px(id, k, fw, fh, clip, px, py, v) == t.tree_px(
                t.node(id).children_spec()[k - 1],
                fw,
                fh,
                clip,
                px,
                py,
                t.children_px(id, k - 1, fw, fh, clip, px, py, v),
            ),
    {
        UiTree::lemma_child_link(t, id, k - 1);
    }

    /// Whatever sequence of operations produced a well-formed tree, each
    /// interaction singleton is empty or names an occupied slot.
    pub proof fn lemma_singletons_live(t: UiTree)
        requires
            t.wf(),
        ensures
            t.hovered_spec() is Some ==> t.has(t.hovered_spec()->Some_0),
            t.pressed_spec() is Some ==> t.has(t.pressed_spec()->Some_0),
            t.focused_spec() is Some ==> t.has(t.focused_spec()->Some_0),
            t.captured_spec() is Some ==> t.has(t.captured_spec()->Some_0),
    {
    }

    /// A child of a node below `a` is below `a` too; so everything reachable
    /// from `a` through child lists lies below it.
    pub proof fn lemma_child_descends(t: UiTree, n: NodeId, c: NodeId, a: NodeId)
        requires
            t.wf(),
            t.has(n),
            t.node(n).children_spec().contains(c),
            t.descends(n, a),
        ensures
            t.descends(c, a),
    {
        let k = t.node(n).children_spec().index_of(c);
        assert(t.node(n).children@[k] == c);
        if c != a {
            t.lemma_descends_step(c, a);
        }
    }

    /// After removing `id`, neither `id` nor any node that was below it can be found.
    pub proof fn lemma_removed_not_found(pre: UiTree, post: UiTree, id: NodeId)
        requires
            pre.wf(),
            UiTree::removal(pre, post, id),
        ensures
            !post.has(id),
            forall|n: NodeId| #[trigger] pre.descends(n, id) ==> !post.has(n),
    {
        assert(pre.descends(id, id));
        assert forall|n: NodeId| #[trigger] pre.descends(n, id) implies !post.has(n) by {
            if post.has(n) {
                assert(pre.has(n) && !(pre.has(id) && pre.descends(n, id)));
                if !pre.has(id) {
                    if n != id {
                        assert(pre.has(n) && pre.descends(n, id));
                        pre.lemma_descends_older(n, id);
                    }
                }
            }
        }
    }

    /// Removing `id` clears exactly the singletons that named `id` or a node
    /// below it, and leaves the others as they were.
    pub proof fn lemma_removal_clears_exactly(pre: UiTree, post: UiTree, id: NodeId)
        requires
            pre.wf(),
            pre.has(id),
            UiTree::removal(pre, post, id),
        ensures
            forall|s: NodeId|
                pre.hovered_spec() == Some(s) ==> (post.hovered_spec() is None <==> pre.descends(
                    s,
                    id,
                )) && (!pre.descends(s, id) ==> post.hovered_spec() == Some(s)),
            forall|s: NodeId|
                pre.pressed_spec() == Some(s) ==> (post.pressed_spec() is None <==> pre.descends(
                    s,
                    id,
                )) && (!pre.descends(s, id) ==> post.pressed_spec() == Some(s)),
            forall|s: NodeId|
                pre.focused_spec() == Some(s) ==> (post.focused_spec() is None <==> pre.descends(
                    s,
                    id,
                )) && (!pre.descends(s, id) ==> post.focused_spec() == Some(s)),
            forall|s: NodeId|
                pre.captured_spec() == Some(s) ==> (post.captured_spec() is None
                    <==> pre.descends(s, id)) && (!pre.descends(s, id) ==> post.captured_spec()
                    == Some(s)),
            pre.hovered_spec() is None ==> post.hovered_spec() is None,
            pre.pressed_spec() is None ==> post.pressed_spec() is None,
            pre.focused_spec() is None ==> post.focused_spec() is None,
            pre.captured_spec() is None ==> post.captured_spec() is None,
    {
    }
}

/// `s` without its first occurrence of `x`, if any.
pub open spec fn without(s: Seq<NodeId>, x: NodeId) -> Seq<NodeId> {
    if s.contains(x) {
        s.remove(s.index_of(x))
    } else {
        s
    }
}

proof fn lemma_without(s: Seq<NodeId>, x: NodeId)
    requires
        s.no_duplicates(),
    ensures
        without(s, x).no_duplicates(),
        forall|y: NodeId| #[trigger] without(s, x).contains(y) <==> (s.contains(y) && y != x),
        forall|k: int| 0 <= k < without(s, x).len() ==> s.contains(#[trigger] without(s, x)[k]),
{
    let w = without(s, x);
    if s.contains(x) {
        let i = s.index_of(x);
        assert forall|k: int| 0 <= k < w.len() implies s.contains(#[trigger] w[k]) by {
            if k < i {
                assert(s[k] == w[k]);
            } else {
                assert(s[k + 1] == w[k]);
            }
        }
        assert forall|y: NodeId| #[trigger] w.contains(y) <==> (s.contains(y) && y != x) by {
            if w.contains(y) {
                let k = w.index_of(y);
                if k < i {
                    assert(s[k] == y);
                } else {
                    assert(s[k + 1] == y);
                }
            }
            if s.contains(y) && y != x {
                let j = s.index_of(y);
                if j < i {
                    assert(w[j] == y);
                } else {
                    assert(w[j - 1] == y);
                }
            }
        }
        assert forall|a: int, b: int| 0 <= a < b < w.len() implies w[a] != w[b] by {
            let a2 = if a < i { a } else { a + 1 };
            let b2 = if b < i { b } else { b + 1 };
            assert(s[a2] == w[a] && s[b2] == w[b]);
        }
    } else {
        assert forall|k: int| 0 <= k < w.len() implies s.contains(#[trigger] w[k]) by {
            assert(s[k] == w[k]);
        }
    }
}

} // verus!
