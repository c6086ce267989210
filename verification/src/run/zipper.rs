//! An owned tree and a cursor over it that moves in place.

use vstd::prelude::*;

verus! {

/// The mathematical tree that a [`Node`] stands for.
pub struct Tree<T> {
    pub value: T,
    pub kids: Seq<Tree<T>>,
}

/// The values of a sequence of trees, each tree in pre-order, one tree after
/// the other.
pub open spec fn forest_preorder<T>(kids: Seq<Tree<T>>) -> Seq<T>
    decreases kids,
{
    if kids.len() == 0 {
        Seq::empty()
    } else {
        kids.first().preorder() + forest_preorder(kids.drop_first())
    }
}

impl<T> Tree<T> {
    /// A tree without children.
    pub open spec fn leaf(value: T) -> Tree<T> {
        Tree { value, kids: Seq::empty() }
    }

    /// This tree with `child` appended as its last child.
    pub open spec fn with_child(self, child: Tree<T>) -> Tree<T> {
        Tree { value: self.value, kids: self.kids.push(child) }
    }

    /// This tree with `more` appended after its children.
    pub open spec fn with_children(self, more: Seq<Tree<T>>) -> Tree<T> {
        Tree { value: self.value, kids: self.kids + more }
    }

    /// The values of the tree in pre-order: the root first, then each child's
    /// subtree from the first child to the last.
    pub open spec fn preorder(self) -> Seq<T>
        decreases self,
    {
        seq![self.value] + forest_preorder(self.kids)
    }
}

/// Pre-order distributes over concatenation of forests.
pub proof fn lemma_forest_preorder_concat<T>(a: Seq<Tree<T>>, b: Seq<Tree<T>>)
    ensures
        forest_preorder(a + b) == forest_preorder(a) + forest_preorder(b),
    decreases a.len(),
{
    if a.len() == 0 {
        assert(a + b =~= b);
        assert(forest_preorder(a) =~= Seq::<T>::empty());
        assert(forest_preorder(a) + forest_preorder(b) =~= forest_preorder(b));
    } else {
        assert((a + b).first() == a.first());
        assert((a + b).drop_first() =~= a.drop_first() + b);
        lemma_forest_preorder_concat(a.drop_first(), b);
        assert(forest_preorder(a + b) =~= forest_preorder(a) + forest_preorder(b));
    }
}

/// The pre-order of a forest of one tree is that tree's pre-order.
pub proof fn lemma_forest_preorder_single<T>(t: Tree<T>)
    ensures
        forest_preorder(seq![t]) == t.preorder(),
{
    let s = seq![t];
    assert(s.first() == t);
    assert(s.drop_first() =~= Seq::<Tree<T>>::empty());
    assert(forest_preorder(s.drop_first()) =~= Seq::<T>::empty());
    assert(forest_preorder(s) =~= t.preorder());
}

/// One level of the path above a focused node: the parent's value and the
/// parent's other children, those before the hole and those after it.
pub struct Frame<T> {
    pub value: T,
    pub before: Seq<Tree<T>>,
    pub after: Seq<Tree<T>>,
}

impl<T> Frame<T> {
    /// The parent node again, with `t` put into the hole.
    pub open spec fn close(self, t: Tree<T>) -> Tree<T> {
        Tree { value: self.value, kids: self.before.push(t) + self.after }
    }
}

/// The mathematical value of a [`Zipper`]: the focused subtree and the frames
/// above it, the root's frame first and the immediate parent's frame last.
pub struct Cursor<T> {
    pub focus: Tree<T>,
    pub above: Seq<Frame<T>>,
}

impl<T> Cursor<T> {
    /// A cursor focused on the root of `tree`.
    pub open spec fn at(tree: Tree<T>) -> Cursor<T> {
        Cursor { focus: tree, above: Seq::empty() }
    }

    /// Whether the focus is the root of the whole tree.
    pub open spec fn at_root(self) -> bool {
        self.above.len() == 0
    }

    /// The cursor moved to the `i`-th child of the focus.
    pub open spec fn descend(self, i: int) -> Cursor<T>
        recommends
            0 <= i < self.focus.kids.len(),
    {
        Cursor {
            focus: self.focus.kids[i],
            above: self.above.push(
                Frame {
                    value: self.focus.value,
                    before: self.focus.kids.subrange(0, i),
                    after: self.focus.kids.subrange(i + 1, self.focus.kids.len() as int),
                },
            ),
        }
    }

    /// The cursor moved to the parent of the focus.
    pub open spec fn ascend(self) -> Cursor<T>
        recommends
            !self.at_root(),
    {
        Cursor { focus: self.above.last().close(self.focus), above: self.above.drop_last() }
    }

    /// The same position with another subtree in focus.
    pub open spec fn refocus(self, focus: Tree<T>) -> Cursor<T> {
        Cursor { focus, above: self.above }
    }

    /// The whole tree that the cursor walks, rebuilt from the focus and the
    /// frames above it.
    pub open spec fn root(self) -> Tree<T>
        decreases self.above.len(),
    {
        if self.above.len() == 0 {
            self.focus
        } else {
            self.ascend().root()
        }
    }

    /// The cursor moved up to the root.
    pub open spec fn top(self) -> Cursor<T>
        decreases self.above.len(),
    {
        if self.above.len() == 0 {
            self
        } else {
            self.ascend().top()
        }
    }

    /// The place that follows the focused subtree in pre-order: the next
    /// sibling of the nearest node, from the focus up, that has one.
    pub open spec fn onward(self) -> Option<Cursor<T>>
        decreases self.above.len(),
    {
        if self.above.len() == 0 {
            None
        } else if self.above.last().after.len() > 0 {
            Some(self.ascend().descend(self.above.last().before.len() as int + 1))
        } else {
            self.ascend().onward()
        }
    }

    /// The place that follows the focus in pre-order: its first child where
    /// it has children, else what follows its subtree.
    pub open spec fn successor(self) -> Option<Cursor<T>> {
        if self.focus.kids.len() > 0 {
            Some(self.descend(0))
        } else {
            self.onward()
        }
    }

    /// The values that follow the focused subtree in the pre-order of the
    /// whole tree.
    pub open spec fn beyond(self) -> Seq<T>
        decreases self.above.len(),
    {
        if self.above.len() == 0 {
            Seq::empty()
        } else {
            forest_preorder(self.above.last().after) + self.ascend().beyond()
        }
    }
}

/// Moving to a child and back to the parent restores the cursor.
pub proof fn lemma_descend_ascend<T>(c: Cursor<T>, i: int)
    requires
        0 <= i < c.focus.kids.len(),
    ensures
        c.descend(i).ascend() == c,
{
    let d = c.descend(i);
    let kids = c.focus.kids;
    assert(kids.subrange(0, i).push(kids[i]) + kids.subrange(i + 1, kids.len() as int) =~= kids);
    assert(d.above.drop_last() =~= c.above);
    assert(d.above.last().close(d.focus) == c.focus);
}

/// Moving to a child leaves the whole tree as it was.
pub proof fn lemma_descend_keeps_root<T>(c: Cursor<T>, i: int)
    requires
        0 <= i < c.focus.kids.len(),
    ensures
        c.descend(i).root() == c.root(),
{
    lemma_descend_ascend(c, i);
}

/// What follows a child's subtree is the subtrees of its later siblings, then
/// what follows the parent's subtree.
pub proof fn lemma_descend_beyond<T>(c: Cursor<T>, i: int)
    requires
        0 <= i < c.focus.kids.len(),
    ensures
        c.descend(i).beyond() == forest_preorder(
            c.focus.kids.subrange(i + 1, c.focus.kids.len() as int),
        ) + c.beyond(),
{
    lemma_descend_ascend(c, i);
    assert(c.descend(i).ascend().beyond() == c.beyond());
}

/// What follows a subtree does not depend on what the subtree holds.
pub proof fn lemma_refocus_beyond<T>(c: Cursor<T>, focus: Tree<T>)
    ensures
        c.refocus(focus).beyond() == c.beyond(),
    decreases c.above.len(),
{
    if c.above.len() > 0 {
        let f = c.above.last();
        lemma_refocus_beyond(c.ascend(), f.close(focus));
        assert(c.ascend().refocus(f.close(focus)) == c.refocus(focus).ascend());
    }
}

/// A node of an owned tree: a value and the children in order.
#[derive(Debug)]
pub struct Node<T> {
    data: T,
    children: Vec<Node<T>>,
}

impl<T> Node<T> {
    /// The tree that this node and its descendants make up.
    pub closed spec fn tree(self) -> Tree<T>
        decreases self,
    {
        Tree {
            value: self.data,
            kids: Seq::new(
                self.children.len() as nat,
                |i: int|
                    if 0 <= i < self.children.len() {
                        self.children[i].tree()
                    } else {
                        Tree::leaf(self.data)
                    },
            ),
        }
    }
}

/// The trees of a list of nodes.
pub open spec fn trees_of<T>(nodes: Seq<Node<T>>) -> Seq<Tree<T>> {
    Seq::new(nodes.len(), |i: int| nodes[i]@)
}

impl<T> View for Node<T> {
    type V = Tree<T>;

    open spec fn view(&self) -> Tree<T> {
        self.tree()
    }
}

impl<T> Node<T> {
    /// A node that holds `data` and has no children.
    pub fn new(data: T) -> (node: Self)
        ensures
            node@ == Tree::leaf(data),
    {
        let node = Self { data, children: Vec::new() };
        assert(node@.kids =~= Seq::empty());
        node
    }

    /// Whether the node has no children.
    pub fn is_empty(&self) -> (empty: bool)
        ensures
            empty == (self@.kids.len() == 0),
    {
        self.children.len() == 0
    }

    /// The number of children.
    pub fn len(&self) -> (len: usize)
        ensures
            len == self@.kids.len(),
    {
        self.children.len()
    }

    /// Appends `child` after the children that the node has.
    pub fn add_child(&mut self, child: Node<T>)
        ensures
            final(self)@ == old(self)@.with_child(child@),
    {
        self.children.push(child);
        assert(self@.kids =~= old(self)@.kids.push(child@));
    }

    /// Appends `children`, in their order, after the children that the node
    /// has.
    pub fn add_children(&mut self, children: Vec<Node<T>>)
        ensures
            final(self)@ == old(self)@.with_children(trees_of(children@)),
    {
        let ghost added = trees_of(children@);
        let mut children = children;
        self.children.append(&mut children);
        assert(self@.kids =~= old(self)@.kids + added);
    }

    /// The value that the node holds.
    pub fn as_ref(&self) -> (data: &T)
        ensures
            *data == self@.value,
    {
        &self.data
    }

    /// A cursor over this tree, focused on its root.
    pub fn zipper(self) -> (zipper: Zipper<T>)
        ensures
            zipper.wf(),
            zipper@ == Cursor::at(self@),
    {
        Zipper { node: self, parent: None }
    }
}

/// Whether a move to the parent took place.
#[derive(Debug, Clone, Copy, PartialEq, Eq, Structural)]
pub enum ParentStatus {
    /// The focus is the root: there is nowhere to go.
    AtRoot,
    /// The focus moved to the parent.
    Relocated,
}

/// A cursor over an owned tree. It holds the focused node; the parent, with
/// the focused node taken out of its children, is kept beside the index at
/// which the node belongs.
#[derive(Debug)]
pub struct Zipper<T> {
    node: Node<T>,
    parent: Option<(Box<Zipper<T>>, usize)>,
}

/// The frame of a parent whose `idx`-th child was taken out by moving the last
/// child into its place.
spec fn frame_of<T>(stored: Tree<T>, idx: int) -> Frame<T> {
    Frame {
        value: stored.value,
        before: stored.kids.subrange(0, idx),
        after: if idx < stored.kids.len() {
            stored.kids.subrange(idx + 1, stored.kids.len() as int).push(stored.kids[idx])
        } else {
            Seq::empty()
        },
    }
}

/// The frames that a chain of parents stands for, the root's frame first.
spec fn frames_of<T>(parent: Option<(Box<Zipper<T>>, usize)>) -> Seq<Frame<T>>
    decreases parent,
{
    match parent {
        None => Seq::empty(),
        Some((up, idx)) => frames_of(up.parent).push(frame_of(up.node@, idx as int)),
    }
}

/// Every index kept on the way up fits the parent it is kept with.
spec fn chain_wf<T>(parent: Option<(Box<Zipper<T>>, usize)>) -> bool
    decreases parent,
{
    match parent {
        None => true,
        Some((up, idx)) => idx <= up.node@.kids.len() && idx < usize::MAX && chain_wf(up.parent),
    }
}

impl<T> Zipper<T> {
    spec fn frames(&self) -> Seq<Frame<T>> {
        frames_of(self.parent)
    }

    /// The chain of parents is sound: each node taken out can be put back.
    pub closed spec fn wf(&self) -> bool {
        chain_wf(self.parent)
    }
}

impl<T> View for Zipper<T> {
    type V = Cursor<T>;

    closed spec fn view(&self) -> Cursor<T> {
        Cursor { focus: self.node@, above: self.frames() }
    }
}

impl<T> Zipper<T> {
    /// A cursor over the tree of `node`, focused on its root.
    pub fn new(node: Node<T>) -> (zipper: Self)
        ensures
            zipper.wf(),
            zipper@ == Cursor::at(node@),
    {
        Self { node, parent: None }
    }

    /// The iteration over the focused subtree and everything after it.
    pub fn iter(self) -> (iter: ZipperIter<T>)
        requires
            self.wf(),
        ensures
            iter.wf(),
            iter.cursor() == self@,
            !iter.started(),
            !iter.finished(),
    {
        ZipperIter::new(self)
    }

    /// The value of the focused node.
    pub fn as_ref(&self) -> (data: &T)
        ensures
            *data == self@.focus.value,
    {
        self.node.as_ref()
    }

    /// Moves the focus to its `idx`-th child.
    pub fn child(&mut self, idx: usize)
        requires
            old(self).wf(),
            idx < old(self)@.focus.kids.len(),
        ensures
            final(self).wf(),
            final(self)@ == old(self)@.descend(idx as int),
    {
        let ghost before = self.node@;
        let child = self.node.children.swap_remove(idx);
        let ghost stored = self.node@;
        let mut zipper = Self::new(child);
        core::mem::swap(self, &mut zipper);
        self.parent = Some((Box::new(zipper), idx));
        proof {
            let n = before.kids.len() as int;
            let i = idx as int;
            assert(stored.kids.len() == n - 1);
            assert forall|j: int| 0 <= j < n - 1 implies stored.kids[j] == (if j == i {
                before.kids[n - 1]
            } else {
                before.kids[j]
            }) by {}
            let f = frame_of(stored, i);
            assert(f.before =~= before.kids.subrange(0, i));
            assert(f.after =~= before.kids.subrange(i + 1, n));
            assert(self.frames() =~= old(self).frames().push(f));
            assert(self@.focus == before.kids[i]);
        }
    }

    /// Moves the focus to its parent and puts the node that was in focus back
    /// among the parent's children, at the place it was taken from. At the
    /// root nothing changes.
    pub fn parent(&mut self) -> (status: ParentStatus)
        requires
            old(self).wf(),
        ensures
            final(self).wf(),
            old(self)@.at_root() ==> status == ParentStatus::AtRoot && final(self)@ == old(self)@,
            !old(self)@.at_root() ==> status == ParentStatus::Relocated && final(self)@
                == old(self)@.ascend(),
    {
        match self.parent.take() {
            None => {
                assert(self.frames() =~= old(self).frames());
                ParentStatus::AtRoot
            },
            Some((boxed, idx)) => {
                let up: Zipper<T> = *boxed;
                let Zipper { node: mut above, parent: rest } = up;
                let ghost stored = above@;
                let ghost focus = self.node@;
                core::mem::swap(&mut self.node, &mut above);
                self.node.children.push(above);
                let moved = self.node.children.swap_remove(idx);
                self.node.children.push(moved);
                self.parent = rest;
                proof {
                    let f = frame_of(stored, idx as int);
                    assert(old(self).frames() == up.frames().push(f));
                    assert(old(self).frames().drop_last() =~= up.frames());
                    assert(self.frames() == up.frames());
                    assert(self.node@.kids =~= f.before.push(focus) + f.after);
                    assert(self.node@ == f.close(focus));
                }
                ParentStatus::Relocated
            },
        }
    }
}

/// A pre-order walk over a tree that leaves the tree in one piece and lets the
/// focused node be changed on the way.
#[derive(Debug)]
pub struct ZipperIter<T> {
    zipper: Zipper<T>,
    started: bool,
    done: bool,
}

impl<T> ZipperIter<T> {
    /// The position of the walk.
    pub closed spec fn cursor(&self) -> Cursor<T> {
        self.zipper@
    }

    /// Whether the first node has been handed out.
    pub closed spec fn started(&self) -> bool {
        self.started
    }

    /// Whether the walk has run off the end of the tree.
    pub closed spec fn finished(&self) -> bool {
        self.done
    }

    pub closed spec fn wf(&self) -> bool {
        self.zipper.wf()
    }

    /// The values that are still to come from the focused subtree.
    pub open spec fn below(&self) -> Seq<T> {
        if self.finished() {
            Seq::empty()
        } else if self.started() {
            forest_preorder(self.cursor().focus.kids)
        } else {
            self.cursor().focus.preorder()
        }
    }

    /// The values that are still to come once the focused subtree is done.
    pub open spec fn beyond(&self) -> Seq<T> {
        if self.finished() {
            Seq::empty()
        } else {
            self.cursor().beyond()
        }
    }

    /// The values that the following calls of [`ZipperIter::next`] hand out,
    /// in order, as long as the tree is not changed.
    pub open spec fn pending(&self) -> Seq<T> {
        self.below() + self.beyond()
    }

    /// A walk that starts at the focus of `zipper`.
    pub fn new(zipper: Zipper<T>) -> (iter: Self)
        requires
            zipper.wf(),
        ensures
            iter.wf(),
            iter.cursor() == zipper@,
            !iter.started(),
            !iter.finished(),
    {
        Self { zipper, started: false, done: false }
    }

    /// Whether the walk has run off the end of the tree.
    pub fn is_done(&self) -> (done: bool)
        ensures
            done == self.finished(),
    {
        self.done
    }

    /// Appends `node` after the children of the focused node.
    pub fn add_child(&mut self, node: Node<T>)
        requires
            old(self).wf(),
        ensures
            final(self).wf(),
            final(self).cursor() == old(self).cursor().refocus(
                old(self).cursor().focus.with_child(node@),
            ),
            final(self).started() == old(self).started(),
            final(self).finished() == old(self).finished(),
            final(self).below() == if old(self).finished() {
                Seq::empty()
            } else {
                old(self).below() + node@.preorder()
            },
            final(self).beyond() == old(self).beyond(),
    {
        self.zipper.node.add_child(node);
        proof {
            let kids = old(self).cursor().focus.kids;
            lemma_forest_preorder_concat(kids, seq![node@]);
            lemma_forest_preorder_single(node@);
            assert(kids + seq![node@] =~= kids.push(node@));
            lemma_refocus_beyond(old(self).cursor(), self.cursor().focus);
            assert(self.zipper.frames() == old(self).zipper.frames());
            if !old(self).finished() {
                if old(self).started() {
                    assert(self.below() =~= old(self).below() + node@.preorder());
                } else {
                    assert(self.below() =~= old(self).below() + node@.preorder());
                }
            }
        }
    }

    /// The value of the focused node, unless the walk is over.
    pub fn current(&self) -> (data: Option<&T>)
        ensures
            self.finished() ==> data is None,
            !self.finished() ==> data == Some(&self.cursor().focus.value),
    {
        if self.done {
            return None;
        }
        Some(&self.zipper.node.data)
    }

    /// The focused node, to be changed in place, unless the walk is over.
    /// The position of the walk stays as it is.
    pub fn current_mut(&mut self) -> (node: Option<&mut Node<T>>)
        requires
            old(self).wf(),
        ensures
            old(self).finished() ==> node is None && *final(self) == *old(self),
            !old(self).finished() ==> (node matches Some(n) && n@ == old(self).cursor().focus
                && final(self).cursor() == old(self).cursor().refocus(final(n)@)
                && final(self).started() == old(self).started() && !final(self).finished()
                && final(self).wf()),
    {
        if self.done {
            return None;
        }
        Some(&mut self.zipper.node)
    }

    /// Moves the walk on by one node in pre-order and hands out its value.
    ///
    /// The first call hands out the node the walk started on. After that a
    /// node with children is followed by its first child; a node without is
    /// followed by the next sibling of the nearest node, on the way to the
    /// root, that has one. When there is none the walk is over, and stays so.
    pub fn next(&mut self) -> (data: Option<&T>)
        requires
            old(self).wf(),
        ensures
            final(self).wf(),
            final(self).cursor().root() == old(self).cursor().root(),
            old(self).finished() ==> data is None && *final(self) == *old(self),
            !old(self).finished() && !old(self).started() ==> final(self).cursor() == old(self).cursor(),
            !old(self).finished() && old(self).started() ==> (match old(self).cursor().successor() {
                Some(place) => final(self).cursor() == place && !final(self).finished(),
                None => final(self).cursor() == old(self).cursor().top() && final(self).finished(),
            }),
            !old(self).finished() ==> final(self).started(),
            !old(self).finished() && old(self).pending().len() == 0 ==> data is None
                && final(self).finished(),
            !old(self).finished() && old(self).pending().len() > 0 ==> data == Some(
                &old(self).pending()[0],
            ) && final(self).cursor().focus.value == old(self).pending()[0]
                && !final(self).finished() && final(self).pending() == old(self).pending().skip(1),
    {
        if self.done {
            return None;
        }
        let ghost pending = self.pending();
        if self.started {
            if self.zipper.node.is_empty() {
                assert(pending =~= self.zipper@.beyond());
                loop
                    invariant_except_break
                        pending == self.zipper@.beyond(),
                        self.zipper@.onward() == old(self).zipper@.onward(),
                        self.zipper@.top() == old(self).zipper@.top(),
                    invariant
                        self.zipper.wf(),
                        self.started,
                        !self.done,
                        !old(self).finished(),
                        old(self).started(),
                        old(self).zipper@.focus.kids.len() == 0,
                        pending == old(self).pending(),
                        self.zipper@.root() == old(self).zipper@.root(),
                    ensures
                        pending.len() > 0,
                        self.zipper@.focus.value == pending[0],
                        self.pending() == pending.skip(1),
                        Some(self.zipper@) == old(self).zipper@.onward(),
                    decreases self.zipper@.above.len(),
                {
                    let next_idx = match &self.zipper.parent {
                        Some((_, idx)) => *idx + 1,
                        None => {
                            self.done = true;
                            return None;
                        },
                    };
                    let ghost here = self.zipper@;
                    self.zipper.parent();
                    proof {
                        assert(here.above.last().before.len() == next_idx - 1);
                    }
                    if next_idx < self.zipper.node.len() {
                        let ghost up = self.zipper@;
                        self.zipper.child(next_idx);
                        proof {
                            let after = here.above.last().after;
                            let kids = up.focus.kids;
                            let n = kids.len() as int;
                            lemma_descend_keeps_root(up, next_idx as int);
                            lemma_descend_beyond(up, next_idx as int);
                            assert(after.len() > 0);
                            assert(after.first() == kids[next_idx as int]);
                            assert(kids.subrange(next_idx + 1, n) =~= after.drop_first());
                            assert(forest_preorder(after) == after.first().preorder()
                                + forest_preorder(after.drop_first()));
                            assert(after.first().preorder() == seq![after.first().value]
                                + forest_preorder(after.first().kids));
                            assert(pending =~= seq![after.first().value] + self.pending());
                            assert(self.pending() =~= pending.skip(1));
                        }
                        break;
                    }
                    proof {
                        let after = here.above.last().after;
                        assert(after.len() == 0);
                        assert(forest_preorder(after) =~= Seq::<T>::empty());
                        assert(pending =~= self.zipper@.beyond());
                    }
                }
            } else {
                let ghost up = self.zipper@;
                self.zipper.child(0);
                proof {
                    let kids = up.focus.kids;
                    lemma_descend_keeps_root(up, 0);
                    lemma_descend_beyond(up, 0);
                    assert(kids.subrange(1, kids.len() as int) =~= kids.drop_first());
                    assert(forest_preorder(kids) == kids.first().preorder() + forest_preorder(
                        kids.drop_first(),
                    ));
                    assert(kids.first().preorder() == seq![kids.first().value] + forest_preorder(
                        kids.first().kids,
                    ));
                    assert(pending =~= seq![kids.first().value] + self.pending());
                    assert(self.pending() =~= pending.skip(1));
                }
            }
        } else {
            self.started = true;
            proof {
                assert(pending =~= seq![self.zipper@.focus.value] + self.pending());
                assert(self.pending() =~= pending.skip(1));
            }
        }
        Some(&self.zipper.node.data)
    }
}

/// A child that is appended below the node in focus comes after the
/// children that the node has and before whatever follows the node's
/// subtree. Below a node without children it is the very next place.
pub proof fn lemma_appended_child_follows<T>(place: Cursor<T>, child: Tree<T>)
    ensures
        forest_preorder(place.focus.with_child(child).kids) + place.refocus(
            place.focus.with_child(child),
        ).beyond() == forest_preorder(place.focus.kids) + child.preorder() + place.beyond(),
        place.focus.kids.len() == 0 ==> place.refocus(
            place.focus.with_child(child),
        ).successor() == Some(
            Cursor {
                focus: child,
                above: place.above.push(
                    Frame { value: place.focus.value, before: Seq::empty(), after: Seq::empty() },
                ),
            },
        ),
{
    let grown = place.refocus(place.focus.with_child(child));
    lemma_refocus_beyond(place, place.focus.with_child(child));
    lemma_forest_preorder_concat(place.focus.kids, seq![child]);
    lemma_forest_preorder_single(child);
    assert(place.focus.kids + seq![child] =~= place.focus.kids.push(child));
    if place.focus.kids.len() == 0 {
        let kids = grown.focus.kids;
        assert(kids.len() == 1);
        assert(kids.subrange(0, 0) =~= Seq::empty());
        assert(kids.subrange(1, 1) =~= Seq::empty());
        assert(kids[0] == child);
    }
}

/// A walk that has not started hands out the pre-order of the focused
/// subtree, followed by what comes after that subtree.
pub proof fn lemma_fresh_walk<T>(iter: ZipperIter<T>)
    requires
        !iter.started(),
        !iter.finished(),
    ensures
        iter.pending() == iter.cursor().focus.preorder() + iter.cursor().beyond(),
        iter.cursor().at_root() ==> iter.pending() == iter.cursor().root().preorder(),
{
    if iter.cursor().at_root() {
        assert(iter.cursor().beyond() =~= Seq::<T>::empty());
        assert(iter.pending() =~= iter.cursor().focus.preorder());
    }
}

} // verus!
