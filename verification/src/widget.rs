//! The polymorphic widget capability and the manager that owns the widget
//! tree and issues unique widget identifiers.

use vstd::prelude::*;
use crate::{Backend, DrawCmd};
use crate::collection::{
    add_effect, bounds_tight, remove_effect, extent_h, extent_w, Collection, WidgetNode,
};

verus! {

/// The rectangle state every widget carries: a position relative to its
/// parent, a size, and its identifier.
#[derive(Clone, Copy, PartialEq, Eq, Structural, Debug)]
pub struct WidgetCommon {
    pub x: u32,
    pub y: u32,
    pub w: u32,
    pub h: u32,
    pub id: u32,
}

impl WidgetCommon {
    /// Zero-sized rect state at the origin, with a fresh identifier issued
    /// by `manager`.
    pub fn new(manager: &mut WidgetManager) -> (c: WidgetCommon)
        requires
            old(manager).wf(),
            old(manager).counter() < u32::MAX,
        ensures
            issues_one(*old(manager), *final(manager), c.id),
            c == (WidgetCommon { x: 0u32, y: 0u32, w: 0u32, h: 0u32, id: old(manager).counter() }),
    {
        WidgetCommon::new_with_id(manager.next_id())
    }

    /// Zero-sized rect state at the origin, carrying the given identifier.
    pub fn new_with_id(id: u32) -> (c: WidgetCommon)
        ensures
            c == (WidgetCommon { x: 0u32, y: 0u32, w: 0u32, h: 0u32, id }),
    {
        WidgetCommon { x: 0, y: 0, w: 0, h: 0, id }
    }
}

/// The widget capability: identity, bounding rect, and a paint operation
/// parameterized by the absolute offset of the widget's local origin.
pub trait Widget: Sized {
    /// The widget's rect state, at the specification level.
    spec fn wcommon(&self) -> WidgetCommon;

    /// The exact command sequence this widget's paint appends to a backend
    /// when painted with its local origin translated by (off_x, off_y).
    spec fn paint_model(&self, off_x: u32, off_y: u32) -> Seq<DrawCmd>;

    /// When painting at (off_x, off_y) stays within machine coordinates.
    spec fn paint_ready(&self, off_x: u32, off_y: u32) -> bool;

    fn common(&self) -> (c: &WidgetCommon)
        ensures
            *c == self.wcommon(),
    ;

    /// Draws the widget onto `backend`, treating (off_x, off_y) as the
    /// absolute-pixel translation of the widget's local origin.
    fn paint<B: Backend>(&self, backend: &mut B, off_x: u32, off_y: u32)
        requires
            self.paint_ready(off_x, off_y),
        ensures
            final(backend).cmds() == old(backend).cmds() + self.paint_model(off_x, off_y),
    ;

    fn x(&self) -> (r: u32)
        ensures
            r == self.wcommon().x,
    {
        self.common().x
    }

    fn y(&self) -> (r: u32)
        ensures
            r == self.wcommon().y,
    {
        self.common().y
    }

    fn width(&self) -> (r: u32)
        ensures
            r == self.wcommon().w,
    {
        self.common().w
    }

    fn height(&self) -> (r: u32)
        ensures
            r == self.wcommon().h,
    {
        self.common().h
    }

    fn id(&self) -> (r: u32)
        ensures
            r == self.wcommon().id,
    {
        self.common().id
    }
}

/// Owns the root collection of the widget tree, issues unique widget
/// identifiers, holds the focus slot, and drives a full-tree paint pass.
pub struct WidgetManager {
    pub widgets: Collection,
    pub focused: Option<u32>,
    pub next_widget_id: u32,
    pub issued: Ghost<Set<u32>>,
}

/// What one identifier-issuing step does to a manager: the returned id is
/// the counter's value, it was never issued before, it joins the issued set,
/// the counter advances by one, and nothing else changes. Since every step
/// returns an id outside the issued set, any two widgets registered under
/// the same manager carry distinct ids.
pub open spec fn issues_one(pre: WidgetManager, post: WidgetManager, id: u32) -> bool {
    &&& post.wf()
    &&& id == pre.counter()
    &&& !pre.issued_ids().contains(id)
    &&& post.issued_ids() == pre.issued_ids().insert(id)
    &&& post.counter() == pre.counter() + 1
    &&& post.widgets == pre.widgets
    &&& post.focused_id() == pre.focused_id()
}

/// Unique ids law: identifiers issued by two successive steps of the same
/// manager always differ.
pub proof fn lemma_issued_ids_unique(
    m0: WidgetManager,
    m1: WidgetManager,
    m2: WidgetManager,
    id1: u32,
    id2: u32,
)
    requires
        issues_one(m0, m1, id1),
        issues_one(m1, m2, id2),
    ensures
        id1 != id2,
{
    assert(m1.issued_ids().contains(id1));
}

impl WidgetManager {
    /// The identifiers this manager has handed out so far, with the root
    /// collection's reserved id 0.
    pub open spec fn issued_ids(&self) -> Set<u32> {
        self.issued@
    }

    /// The id the next issuing step will return.
    pub open spec fn counter(&self) -> u32 {
        self.next_widget_id
    }

    /// The id in the focus slot, if any.
    pub open spec fn focused_id(&self) -> Option<u32> {
        self.focused
    }

    /// Every issued identifier lies below the counter, so the counter's
    /// value is always fresh.
    pub open spec fn wf(&self) -> bool {
        forall|i: u32| self.issued@.contains(i) ==> i < self.next_widget_id
    }

    /// A manager whose root collection carries the reserved id 0 and whose
    /// first issued id will be 1.
    pub fn new() -> (m: WidgetManager)
        ensures
            m.wf(),
            m.counter() == 1u32,
            m.issued_ids() == set![0u32],
            m.focused_id() is None,
            m.widgets.common == (WidgetCommon { x: 0u32, y: 0u32, w: 0u32, h: 0u32, id: 0u32 }),
            m.widgets.elements@ == Seq::<WidgetNode>::empty(),
            bounds_tight(m.widgets),
    {
        let ghost initial_ids: Set<u32> = set![0u32];
        let m = WidgetManager {
            widgets: Collection { common: WidgetCommon::new_with_id(0), elements: Vec::new() },
            focused: None,
            next_widget_id: 1,
            issued: Ghost(initial_ids),
        };
        proof {
            assert(m.widgets.elements@ =~= Seq::<WidgetNode>::empty());
        }
        m
    }

    /// Returns a fresh unique id and advances the counter by one; the first
    /// call after construction returns 1.
    pub fn next_id(&mut self) -> (id: u32)
        requires
            old(self).wf(),
            old(self).counter() < u32::MAX,
        ensures
            issues_one(*old(self), *final(self), id),
    {
        let id = self.next_widget_id;
        self.next_widget_id = self.next_widget_id + 1;
        self.issued = Ghost(self.issued@.insert(id));
        id
    }

    /// Appends `widget` to the root collection, widening its bounding box.
    pub fn add(&mut self, widget: WidgetNode)
        requires
            extent_w(widget) <= u32::MAX,
            extent_h(widget) <= u32::MAX,
        ensures
            add_effect(old(self).widgets, final(self).widgets, widget),
            bounds_tight(old(self).widgets) ==> bounds_tight(final(self).widgets),
            final(self).wf() == old(self).wf(),
            final(self).counter() == old(self).counter(),
            final(self).issued_ids() == old(self).issued_ids(),
            final(self).focused_id() == old(self).focused_id(),
    {
        self.widgets.add(widget);
        proof {
            assert(self.issued@ == old(self).issued@);
            assert(self.next_widget_id == old(self).next_widget_id);
        }
    }

    /// Removes the first child of the root collection whose id equals
    /// `widget`'s id; a silent no-op when none matches.
    pub fn remove<W: Widget>(&mut self, widget: &W)
        requires
            forall|i: int|
                0 <= i < old(self).widgets.elements@.len() ==> extent_w(
                    #[trigger] old(self).widgets.elements@[i],
                ) <= u32::MAX && extent_h(old(self).widgets.elements@[i]) <= u32::MAX,
        ensures
            remove_effect(old(self).widgets, final(self).widgets, widget.wcommon().id),
            bounds_tight(old(self).widgets) ==> bounds_tight(final(self).widgets),
            final(self).wf() == old(self).wf(),
            final(self).counter() == old(self).counter(),
            final(self).issued_ids() == old(self).issued_ids(),
            final(self).focused_id() == old(self).focused_id(),
    {
        self.widgets.remove(widget);
        proof {
            assert(self.issued@ == old(self).issued@);
            assert(self.next_widget_id == old(self).next_widget_id);
        }
    }

    /// Stores `widget` in the focus slot; nothing checks that the id belongs
    /// to a widget of the tree.
    pub fn focus(&mut self, widget: Option<u32>)
        ensures
            final(self).focused_id() == widget,
            final(self).widgets == old(self).widgets,
            final(self).counter() == old(self).counter(),
            final(self).issued_ids() == old(self).issued_ids(),
            final(self).wf() == old(self).wf(),
    {
        self.focused = widget;
    }

    /// Reads the focus slot; an empty slot is a normal state, not an error.
    pub fn focused(&self) -> (r: Option<u32>)
        ensures
            r == self.focused_id(),
    {
        self.focused
    }

    /// Whether the whole tree can be painted without leaving machine
    /// coordinates: the runtime test for paint's premise.
    pub fn can_paint(&self) -> (r: bool)
        ensures
            r == self.widgets.paint_ready(0u32, 0u32),
    {
        self.widgets.can_paint(0, 0)
    }

    /// Paints the whole tree: invokes the root collection's paint with zero
    /// offset, appending exactly the tree's command sequence to `backend`.
    pub fn paint<B: Backend>(&self, backend: &mut B)
        requires
            self.widgets.paint_ready(0u32, 0u32),
        ensures
            final(backend).cmds() == old(backend).cmds() + self.widgets.paint_model(0u32, 0u32),
    {
        self.widgets.paint(backend, 0, 0);
    }
}

} // verus!
