//! A composite widget: an ordered sequence of child widgets, with a bounding
//! box kept as the maximum extent over the children.

use vstd::prelude::*;
use crate::{Backend, DrawCmd};
use crate::box_widget::{Box, box_paint_cmds, box_paint_ready};
use crate::widget::{Widget, WidgetCommon, WidgetManager};

verus! {

/// A node of the widget tree: either a leaf `Box` or a nested `Collection`.
pub enum WidgetNode {
    Boxed(Box),
    Group(Collection),
}

/// An ordered sequence of child widgets. Insertion order is paint order:
/// later children are drawn on top of earlier ones. After every `add` or
/// `remove`, the collection's own width and height are the maximum over its
/// children of (child.x + child.w) and (child.y + child.h).
pub struct Collection {
    pub common: WidgetCommon,
    pub elements: Vec<WidgetNode>,
}

/// The rect state of a tree node.
pub open spec fn node_common(n: WidgetNode) -> WidgetCommon {
    match n {
        WidgetNode::Boxed(b) => b.common,
        WidgetNode::Group(c) => c.common,
    }
}

/// The commands a tree node emits when painted at (off_x, off_y).
pub open spec fn node_paint_cmds(n: WidgetNode, off_x: u32, off_y: u32) -> Seq<DrawCmd>
    decreases n, 1int,
{
    match n {
        WidgetNode::Boxed(b) => box_paint_cmds(b, off_x, off_y),
        WidgetNode::Group(c) => nodes_paint_cmds(
            c.elements@,
            (c.common.x + off_x) as u32,
            (c.common.y + off_y) as u32,
        ),
    }
}

/// The commands a child sequence emits, children in order, all at the same
/// already-composed offset.
pub open spec fn nodes_paint_cmds(s: Seq<WidgetNode>, off_x: u32, off_y: u32) -> Seq<DrawCmd>
    decreases s, 0int,
{
    if s.len() == 0 {
        Seq::<DrawCmd>::empty()
    } else {
        node_paint_cmds(s[0], off_x, off_y) + nodes_paint_cmds(s.drop_first(), off_x, off_y)
    }
}

/// Whether every node of a child sequence can be painted at (off_x, off_y)
/// without leaving machine coordinates.
pub open spec fn nodes_paint_ready(s: Seq<WidgetNode>, off_x: u32, off_y: u32) -> bool
    decreases s, 0int,
{
    if s.len() == 0 {
        true
    } else {
        node_paint_ready(s[0], off_x, off_y) && nodes_paint_ready(
            s.drop_first(),
            off_x,
            off_y,
        )
    }
}

/// Whether a tree node can be painted at (off_x, off_y) without leaving
/// machine coordinates.
pub open spec fn node_paint_ready(n: WidgetNode, off_x: u32, off_y: u32) -> bool
    decreases n, 1int,
{
    match n {
        WidgetNode::Boxed(b) => box_paint_ready(b, off_x, off_y),
        WidgetNode::Group(c) => c.common.x + off_x <= u32::MAX && c.common.y + off_y <= u32::MAX
            && nodes_paint_ready(
            c.elements@,
            (c.common.x + off_x) as u32,
            (c.common.y + off_y) as u32,
        ),
    }
}

/// The larger of two mathematical integers.
pub open spec fn max_int(a: int, b: int) -> int {
    if a > b {
        a
    } else {
        b
    }
}

/// How far a node reaches to the right of its parent's origin.
pub open spec fn extent_w(n: WidgetNode) -> int {
    node_common(n).x + node_common(n).w
}

/// How far a node reaches below its parent's origin.
pub open spec fn extent_h(n: WidgetNode) -> int {
    node_common(n).y + node_common(n).h
}

/// The maximum rightward extent over a child sequence; 0 when empty.
pub open spec fn max_extent_w(s: Seq<WidgetNode>) -> int
    decreases s.len(),
{
    if s.len() == 0 {
        0
    } else {
        max_int(max_extent_w(s.drop_last()), extent_w(s.last()))
    }
}

/// The maximum downward extent over a child sequence; 0 when empty.
pub open spec fn max_extent_h(s: Seq<WidgetNode>) -> int
    decreases s.len(),
{
    if s.len() == 0 {
        0
    } else {
        max_int(max_extent_h(s.drop_last()), extent_h(s.last()))
    }
}

/// The bounding-box invariant: a collection's width and height equal the
/// maximum extent over its children, or (0, 0) when it has none.
pub open spec fn bounds_tight(c: Collection) -> bool {
    &&& c.common.w == max_extent_w(c.elements@)
    &&& c.common.h == max_extent_h(c.elements@)
}

/// The index of the first child whose id equals `id`, or -1 if none matches.
pub open spec fn find_index(s: Seq<WidgetNode>, id: u32) -> int
    decreases s.len(),
{
    if s.len() == 0 {
        -1
    } else if node_common(s[0]).id == id {
        0
    } else if find_index(s.drop_first(), id) == -1 {
        -1
    } else {
        find_index(s.drop_first(), id) + 1
    }
}

/// `find_index` names the least matching index, and -1 exactly when no
/// child matches.
pub proof fn lemma_find_index_spec(s: Seq<WidgetNode>, id: u32)
    ensures
        find_index(s, id) == -1 ==> forall|i: int|
            0 <= i < s.len() ==> node_common(#[trigger] s[i]).id != id,
        find_index(s, id) != -1 ==> {
            &&& 0 <= find_index(s, id) < s.len()
            &&& node_common(s[find_index(s, id)]).id == id
            &&& forall|i: int|
                0 <= i < find_index(s, id) ==> node_common(#[trigger] s[i]).id != id
        },
    decreases s.len(),
{
    if s.len() > 0 && node_common(s[0]).id != id {
        lemma_find_index_spec(s.drop_first(), id);
        assert(forall|i: int| 1 <= i < s.len() ==> s.drop_first()[i - 1] == #[trigger] s[i]);
    }
}

/// Appending a child extends the maximum extents by that child's extents.
pub proof fn lemma_max_extent_push(s: Seq<WidgetNode>, x: WidgetNode)
    ensures
        max_extent_w(s.push(x)) == max_int(max_extent_w(s), extent_w(x)),
        max_extent_h(s.push(x)) == max_int(max_extent_h(s), extent_h(x)),
{
    assert(s.push(x).drop_last() =~= s);
    assert(s.push(x).last() == x);
}

/// A sequence all of whose children are paint-ready is paint-ready.
pub proof fn lemma_nodes_paint_ready_all(s: Seq<WidgetNode>, off_x: u32, off_y: u32)
    requires
        forall|i: int| 0 <= i < s.len() ==> node_paint_ready(#[trigger] s[i], off_x, off_y),
    ensures
        nodes_paint_ready(s, off_x, off_y),
    decreases s.len(),
{
    if s.len() > 0 {
        assert forall|i: int| 0 <= i < s.drop_first().len() implies node_paint_ready(
            #[trigger] s.drop_first()[i],
            off_x,
            off_y,
        ) by {
            assert(s.drop_first()[i] == s[i + 1]);
        }
        lemma_nodes_paint_ready_all(s.drop_first(), off_x, off_y);
    }
}

/// Every child of a paint-ready sequence is itself paint-ready.
pub proof fn lemma_nodes_paint_ready_index(s: Seq<WidgetNode>, off_x: u32, off_y: u32, i: int)
    requires
        nodes_paint_ready(s, off_x, off_y),
        0 <= i < s.len(),
    ensures
        node_paint_ready(s[i], off_x, off_y),
    decreases s.len(),
{
    if i > 0 {
        lemma_nodes_paint_ready_index(s.drop_first(), off_x, off_y, i - 1);
    }
}

/// A child sequence's commands split around any one child: first the
/// commands of the children before it, then its own, then the rest's.
pub proof fn lemma_nodes_paint_cmds_split(s: Seq<WidgetNode>, off_x: u32, off_y: u32, i: int)
    requires
        0 <= i < s.len(),
    ensures
        nodes_paint_cmds(s, off_x, off_y) == nodes_paint_cmds(s.take(i), off_x, off_y)
            + node_paint_cmds(s[i], off_x, off_y) + nodes_paint_cmds(s.skip(i + 1), off_x, off_y),
    decreases i,
{
    if i == 0 {
        assert(s.take(0) =~= Seq::<WidgetNode>::empty());
        assert(s.drop_first() =~= s.skip(1));
        assert(nodes_paint_cmds(s, off_x, off_y) =~= nodes_paint_cmds(s.take(0), off_x, off_y)
            + node_paint_cmds(s[0], off_x, off_y) + nodes_paint_cmds(s.skip(1), off_x, off_y));
    } else {
        let d = s.drop_first();
        lemma_nodes_paint_cmds_split(d, off_x, off_y, i - 1);
        assert(d.take(i - 1) =~= s.take(i).drop_first());
        assert(d.skip(i) =~= s.skip(i + 1));
        assert(d[i - 1] == s[i]);
        assert(s.take(i)[0] == s[0]);
        assert(nodes_paint_cmds(s, off_x, off_y) =~= nodes_paint_cmds(s.take(i), off_x, off_y)
            + node_paint_cmds(s[i], off_x, off_y) + nodes_paint_cmds(
            s.skip(i + 1),
            off_x,
            off_y,
        ));
    }
}

/// Paint offset composition law: painting a collection that stands at
/// (c.common.x, c.common.y) with offset (off_x, off_y) paints each child
/// with the offset advanced to (off_x + c.common.x, off_y + c.common.y),
/// its commands standing between those of its earlier and later siblings.
pub proof fn lemma_paint_offset_composition(c: Collection, off_x: u32, off_y: u32, i: int)
    requires
        0 <= i < c.elements@.len(),
    ensures
        c.paint_model(off_x, off_y) == nodes_paint_cmds(
            c.elements@.take(i),
            (c.common.x + off_x) as u32,
            (c.common.y + off_y) as u32,
        ) + node_paint_cmds(
            c.elements@[i],
            (c.common.x + off_x) as u32,
            (c.common.y + off_y) as u32,
        ) + nodes_paint_cmds(
            c.elements@.skip(i + 1),
            (c.common.x + off_x) as u32,
            (c.common.y + off_y) as u32,
        ),
{
    lemma_nodes_paint_cmds_split(
        c.elements@,
        (c.common.x + off_x) as u32,
        (c.common.y + off_y) as u32,
        i,
    );
}

/// What `Collection::add` does: the child is appended, the origin and id are
/// kept, and each bound grows to cover the new child's extent.
pub open spec fn add_effect(pre: Collection, post: Collection, widget: WidgetNode) -> bool {
    &&& post.elements@ == pre.elements@.push(widget)
    &&& post.common.x == pre.common.x
    &&& post.common.y == pre.common.y
    &&& post.common.id == pre.common.id
    &&& post.common.w == max_int(pre.common.w as int, extent_w(widget))
    &&& post.common.h == max_int(pre.common.h as int, extent_h(widget))
}

/// What `Collection::remove` does: a silent no-op when no child carries the
/// id; otherwise the first matching child leaves and both bounds are
/// recomputed as the maximum extent over the remaining children.
pub open spec fn remove_effect(pre: Collection, post: Collection, id: u32) -> bool {
    if find_index(pre.elements@, id) == -1 {
        post == pre
    } else {
        &&& post.elements@ == pre.elements@.remove(find_index(pre.elements@, id))
        &&& post.common.x == pre.common.x
        &&& post.common.y == pre.common.y
        &&& post.common.id == pre.common.id
        &&& post.common.w == max_extent_w(post.elements@)
        &&& post.common.h == max_extent_h(post.elements@)
    }
}

impl Collection {
    /// An empty collection at the origin, with a fresh id from `manager`.
    pub fn new(manager: &mut WidgetManager) -> (c: Collection)
        requires
            old(manager).wf(),
            old(manager).counter() < u32::MAX,
        ensures
            crate::widget::issues_one(*old(manager), *final(manager), c.common.id),
            c.common == (WidgetCommon {
                x: 0u32,
                y: 0u32,
                w: 0u32,
                h: 0u32,
                id: old(manager).counter(),
            }),
            c.elements@ == Seq::<WidgetNode>::empty(),
            bounds_tight(c),
    {
        let c = Collection { common: WidgetCommon::new(manager), elements: Vec::new() };
        proof {
            assert(c.elements@ =~= Seq::<WidgetNode>::empty());
        }
        c
    }

    /// Appends `widget` and widens the bounding box to cover its extent.
    /// Keeps the bounding-box invariant: if the bounds were tight before,
    /// they are tight afterwards.
    pub fn add(&mut self, widget: WidgetNode)
        requires
            extent_w(widget) <= u32::MAX,
            extent_h(widget) <= u32::MAX,
        ensures
            add_effect(*old(self), *final(self), widget),
            bounds_tight(*old(self)) ==> bounds_tight(*final(self)),
    {
        let bounding_w = widget.x() + widget.width();
        let bounding_h = widget.y() + widget.height();
        proof {
            lemma_max_extent_push(old(self).elements@, widget);
        }
        self.elements.push(widget);
        if bounding_w > self.common.w {
            self.common.w = bounding_w;
        }
        if bounding_h > self.common.h {
            self.common.h = bounding_h;
        }
    }

    /// Whether the whole tree under this collection can be painted at
    /// (off_x, off_y) without leaving machine coordinates: the runtime test
    /// for paint's premise.
    pub fn can_paint(&self, off_x: u32, off_y: u32) -> (r: bool)
        ensures
            r == self.paint_ready(off_x, off_y),
        decreases *self,
    {
        if (self.common.x as u64) + (off_x as u64) > (u32::MAX as u64) {
            return false;
        }
        if (self.common.y as u64) + (off_y as u64) > (u32::MAX as u64) {
            return false;
        }
        let ox = self.common.x + off_x;
        let oy = self.common.y + off_y;
        let ghost s = self.elements@;
        let mut i: usize = 0;
        while i < self.elements.len()
            invariant
                s == self.elements@,
                i <= s.len(),
                ox == (self.common.x + off_x) as u32,
                oy == (self.common.y + off_y) as u32,
                forall|j: int| 0 <= j < i ==> node_paint_ready(#[trigger] s[j], ox, oy),
            decreases s.len() - i,
        {
            let child_ok = self.elements[i].can_paint(ox, oy);
            if !child_ok {
                proof {
                    if nodes_paint_ready(s, ox, oy) {
                        lemma_nodes_paint_ready_index(s, ox, oy, i as int);
                    }
                }
                return false;
            }
            i = i + 1;
        }
        proof {
            lemma_nodes_paint_ready_all(s, ox, oy);
        }
        true
    }

    /// Removes the first child whose id equals `widget`'s id, then rescans
    /// the remaining children to recompute both bounds; a silent no-op when
    /// no child matches. Keeps the bounding-box invariant.
    pub fn remove<W: Widget>(&mut self, widget: &W)
        requires
            forall|i: int|
                0 <= i < old(self).elements@.len() ==> extent_w(
                    #[trigger] old(self).elements@[i],
                ) <= u32::MAX && extent_h(old(self).elements@[i]) <= u32::MAX,
        ensures
            remove_effect(*old(self), *final(self), widget.wcommon().id),
            bounds_tight(*old(self)) ==> bounds_tight(*final(self)),
    {
        let target = widget.id();
        proof {
            lemma_find_index_spec(self.elements@, target);
        }
        let ghost s0 = self.elements@;
        let mut index: Option<usize> = None;
        let mut pos: usize = 0;
        while pos < self.elements.len() && index.is_none()
            invariant
                s0 == self.elements@,
                pos <= s0.len(),
                match index {
                    Some(p) => p == find_index(s0, target) && p < pos,
                    None => forall|j: int|
                        0 <= j < pos ==> node_common(#[trigger] s0[j]).id != target,
                },
            decreases s0.len() - pos,
        {
            if self.elements[pos].id() == target {
                index = Some(pos);
                proof {
                    lemma_find_index_spec(s0, target);
                    assert(find_index(s0, target) == pos as int);
                }
            }
            pos = pos + 1;
        }
        match index {
            Some(p) => {
                self.elements.remove(p);
                let ghost s1 = self.elements@;
                proof {
                    assert forall|j: int| 0 <= j < s1.len() implies extent_w(
                        #[trigger] s1[j],
                    ) <= u32::MAX && extent_h(s1[j]) <= u32::MAX by {
                        if j < p {
                            assert(s1[j] == s0[j]);
                        } else {
                            assert(s1[j] == s0[j + 1]);
                        }
                    }
                }
                let mut bounding_w: u32 = 0;
                let mut bounding_h: u32 = 0;
                let mut i: usize = 0;
                while i < self.elements.len()
                    invariant
                        s1 == self.elements@,
                        i <= s1.len(),
                        forall|j: int|
                            0 <= j < s1.len() ==> extent_w(#[trigger] s1[j]) <= u32::MAX
                                && extent_h(s1[j]) <= u32::MAX,
                        bounding_w == max_extent_w(s1.take(i as int)),
                        bounding_h == max_extent_h(s1.take(i as int)),
                        self.common.x == old(self).common.x,
                        self.common.y == old(self).common.y,
                        self.common.id == old(self).common.id,
                        self.common.w == old(self).common.w,
                        self.common.h == old(self).common.h,
                    decreases s1.len() - i,
                {
                    proof {
                        assert(s1.take(i + 1).drop_last() =~= s1.take(i as int));
                        assert(s1.take(i + 1).last() == s1[i as int]);
                    }
                    let cur_bounding_w = self.elements[i].x() + self.elements[i].width();
                    let cur_bounding_h = self.elements[i].y() + self.elements[i].height();
                    if cur_bounding_w > bounding_w {
                        bounding_w = cur_bounding_w;
                    }
                    if cur_bounding_h > bounding_h {
                        bounding_h = cur_bounding_h;
                    }
                    i = i + 1;
                }
                proof {
                    assert(s1.take(s1.len() as int) =~= s1);
                }
                self.common.w = bounding_w;
                self.common.h = bounding_h;
            },
            None => {
            },
        }
    }
}

impl WidgetNode {
    /// Whether this node's subtree can be painted at (off_x, off_y) without
    /// leaving machine coordinates: the runtime test for paint's premise.
    pub fn can_paint(&self, off_x: u32, off_y: u32) -> (r: bool)
        ensures
            r == node_paint_ready(*self, off_x, off_y),
        decreases *self,
    {
        match self {
            WidgetNode::Boxed(b) => b.can_paint(off_x, off_y),
            WidgetNode::Group(c) => c.can_paint(off_x, off_y),
        }
    }
}

impl Widget for WidgetNode {
    open spec fn wcommon(&self) -> WidgetCommon {
        node_common(*self)
    }

    open spec fn paint_model(&self, off_x: u32, off_y: u32) -> Seq<DrawCmd> {
        node_paint_cmds(*self, off_x, off_y)
    }

    open spec fn paint_ready(&self, off_x: u32, off_y: u32) -> bool {
        node_paint_ready(*self, off_x, off_y)
    }

    fn common(&self) -> (c: &WidgetCommon) {
        match self {
            WidgetNode::Boxed(b) => &b.common,
            WidgetNode::Group(c) => &c.common,
        }
    }

    fn paint<B: Backend>(&self, backend: &mut B, off_x: u32, off_y: u32)
        decreases *self,
    {
        match self {
            WidgetNode::Boxed(b) => b.paint(backend, off_x, off_y),
            WidgetNode::Group(c) => c.paint(backend, off_x, off_y),
        }
    }
}

impl Widget for Collection {
    open spec fn wcommon(&self) -> WidgetCommon {
        self.common
    }

    open spec fn paint_model(&self, off_x: u32, off_y: u32) -> Seq<DrawCmd> {
        nodes_paint_cmds(
            self.elements@,
            (self.common.x + off_x) as u32,
            (self.common.y + off_y) as u32,
        )
    }

    open spec fn paint_ready(&self, off_x: u32, off_y: u32) -> bool {
        &&& self.common.x + off_x <= u32::MAX
        &&& self.common.y + off_y <= u32::MAX
        &&& nodes_paint_ready(
            self.elements@,
            (self.common.x + off_x) as u32,
            (self.common.y + off_y) as u32,
        )
    }

    fn common(&self) -> (c: &WidgetCommon) {
        &self.common
    }

    /// Paints the children in order, each with the offset advanced by this
    /// collection's own position: offsets compose additively down the tree.
    fn paint<B: Backend>(&self, backend: &mut B, off_x: u32, off_y: u32)
        decreases *self,
    {
        let ox = self.common.x + off_x;
        let oy = self.common.y + off_y;
        let ghost s = self.elements@;
        proof {
            assert(s.skip(0) =~= s);
        }
        let mut i: usize = 0;
        while i < self.elements.len()
            invariant
                s == self.elements@,
                i <= s.len(),
                nodes_paint_ready(s, ox, oy),
                ox == (self.common.x + off_x) as u32,
                oy == (self.common.y + off_y) as u32,
                backend.cmds() + nodes_paint_cmds(s.skip(i as int), ox, oy) == old(
                    backend,
                ).cmds() + nodes_paint_cmds(s, ox, oy),
            decreases s.len() - i,
        {
            proof {
                lemma_nodes_paint_ready_index(s, ox, oy, i as int);
                assert(s.skip(i as int)[0] == s[i as int]);
                assert(s.skip(i as int).drop_first() =~= s.skip(i + 1));
            }
            let ghost pre = backend.cmds();
            self.elements[i].paint(backend, ox, oy);
            proof {
                assert(backend.cmds() + nodes_paint_cmds(s.skip(i + 1), ox, oy) =~= pre
                    + nodes_paint_cmds(s.skip(i as int), ox, oy));
            }
            i = i + 1;
        }
        proof {
            assert(s.skip(s.len() as int) =~= Seq::<WidgetNode>::empty());
            assert(backend.cmds() =~= old(backend).cmds() + nodes_paint_cmds(s, ox, oy));
        }
    }
}

} // verus!
