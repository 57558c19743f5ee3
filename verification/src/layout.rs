//! Binary-tree pane layout: every leaf is a pane, every split divides its area
//! between two subtrees.
use vstd::prelude::*;
use crate::seqs::{first_index, lemma_contains_concat, lemma_first_index_concat, lemma_first_index_exists, lemma_no_duplicates_concat};

verus! {

pub type PaneId = u64;

#[derive(Debug, Clone, Copy, PartialEq, Eq, Structural)]
pub enum Direction {
    /// Split top/bottom.
    Horizontal,
    /// Split left/right.
    Vertical,
}

/// A layout tree. `ratio` is the bit pattern (`f32::to_bits`) of the share of the
/// split's area given to `first`; the tree only carries it.
#[derive(Debug)]
pub enum LayoutNode {
    Leaf { pane_id: PaneId },
    Split { direction: Direction, ratio: u32, first: Box<LayoutNode>, second: Box<LayoutNode> },
}

impl LayoutNode {
    /// The pane ids at the leaves, left to right.
    pub open spec fn leaves(self) -> Seq<PaneId>
        decreases self,
    {
        match self {
            LayoutNode::Leaf { pane_id } => seq![pane_id],
            LayoutNode::Split { first, second, .. } => first.leaves() + second.leaves(),
        }
    }

    /// The tree after splitting the leftmost leaf `target` into `target` and `new`, and
    /// whether there was such a leaf.
    pub open spec fn split_spec(self, target: PaneId, new: PaneId, direction: Direction, ratio: u32) -> (LayoutNode, bool)
        decreases self,
    {
        match self {
            LayoutNode::Leaf { pane_id } => {
                if pane_id == target {
                    (
                        LayoutNode::Split {
                            direction,
                            ratio,
                            first: Box::new(LayoutNode::Leaf { pane_id }),
                            second: Box::new(LayoutNode::Leaf { pane_id: new }),
                        },
                        true,
                    )
                } else {
                    (self, false)
                }
            },
            LayoutNode::Split { direction: d, ratio: r, first, second } => {
                let (f2, found) = first.split_spec(target, new, direction, ratio);
                if found {
                    (LayoutNode::Split { direction: d, ratio: r, first: Box::new(f2), second }, true)
                } else {
                    let (s2, found2) = second.split_spec(target, new, direction, ratio);
                    (LayoutNode::Split { direction: d, ratio: r, first, second: Box::new(s2) }, found2)
                }
            },
        }
    }

    /// The tree after removing a leaf `target` whose sibling takes the parent's place,
    /// and whether there was one. At each split a child that is the leaf `target` is
    /// looked for first (first child, then second), then each subtree in turn.
    pub open spec fn remove_spec(self, target: PaneId) -> (LayoutNode, bool)
        decreases self,
    {
        match self {
            LayoutNode::Leaf { .. } => (self, false),
            LayoutNode::Split { direction, ratio, first, second } => {
                if *first == (LayoutNode::Leaf { pane_id: target }) {
                    (*second, true)
                } else if *second == (LayoutNode::Leaf { pane_id: target }) {
                    (*first, true)
                } else {
                    let (f2, found) = first.remove_spec(target);
                    if found {
                        (LayoutNode::Split { direction, ratio, first: Box::new(f2), second }, true)
                    } else {
                        let (s2, found2) = second.remove_spec(target);
                        (LayoutNode::Split { direction, ratio, first, second: Box::new(s2) }, found2)
                    }
                }
            },
        }
    }

    /// Count the number of leaf (pane) nodes in the tree.
    pub fn pane_count(&self) -> (n: usize)
        requires
            self.leaves().len() <= usize::MAX,
        ensures
            n == self.leaves().len(),
        decreases self,
    {
        proof {
            lemma_leaves_nonempty(*self);
        }
        match self {
            LayoutNode::Leaf { .. } => 1,
            LayoutNode::Split { first, second, .. } => first.pane_count() + second.pane_count(),
        }
    }

    /// Check whether the tree contains a pane with the given id.
    pub fn contains_pane(&self, pane_id: PaneId) -> (b: bool)
        ensures
            b == self.leaves().contains(pane_id),
        decreases self,
    {
        match self {
            LayoutNode::Leaf { pane_id: id } => {
                proof {
                    assert(self.leaves()[0] == *id);
                }
                *id == pane_id
            },
            LayoutNode::Split { first, second, .. } => {
                let r = first.contains_pane(pane_id) || second.contains_pane(pane_id);
                proof {
                    lemma_contains_concat(first.leaves(), second.leaves(), pane_id);
                }
                r
            },
        }
    }

    /// Collect all leaf pane IDs via in-order traversal.
    pub fn all_pane_ids(&self) -> (ids: Vec<PaneId>)
        ensures
            ids@ == self.leaves(),
    {
        let mut ids = Vec::new();
        self.collect_pane_ids(&mut ids);
        proof {
            assert(ids@ =~= self.leaves());
        }
        ids
    }

    fn collect_pane_ids(&self, ids: &mut Vec<PaneId>)
        ensures
            final(ids)@ == old(ids)@ + self.leaves(),
        decreases self,
    {
        match self {
            LayoutNode::Leaf { pane_id } => {
                ids.push(*pane_id);
                proof {
                    assert(final(ids)@ =~= old(ids)@ + self.leaves());
                }
            },
            LayoutNode::Split { first, second, .. } => {
                first.collect_pane_ids(ids);
                second.collect_pane_ids(ids);
                proof {
                    assert(ids@ =~= old(ids)@ + self.leaves());
                }
            },
        }
    }

    fn split_owned(self, target_pane_id: PaneId, new_pane_id: PaneId, direction: Direction, ratio: u32) -> (r: (LayoutNode, bool))
        ensures
            r == self.split_spec(target_pane_id, new_pane_id, direction, ratio),
        decreases self,
    {
        match self {
            LayoutNode::Leaf { pane_id } => {
                if pane_id == target_pane_id {
                    let old_id = pane_id;
                    let r = (
                        LayoutNode::Split {
                            direction,
                            ratio,
                            first: Box::new(LayoutNode::Leaf { pane_id: old_id }),
                            second: Box::new(LayoutNode::Leaf { pane_id: new_pane_id }),
                        },
                        true,
                    );
                    r
                } else {
                    (LayoutNode::Leaf { pane_id }, false)
                }
            },
            LayoutNode::Split { direction: d, ratio: r, first, second } => {
                proof {
                    lemma_split_missing_unchanged(*first, target_pane_id, new_pane_id, direction, ratio);
                }
                let (f2, found) = (*first).split_owned(target_pane_id, new_pane_id, direction, ratio);
                if found {
                    (LayoutNode::Split { direction: d, ratio: r, first: Box::new(f2), second }, true)
                } else {
                    let (s2, found2) = (*second).split_owned(target_pane_id, new_pane_id, direction, ratio);
                    (LayoutNode::Split { direction: d, ratio: r, first: Box::new(f2), second: Box::new(s2) }, found2)
                }
            },
        }
    }

    /// Split a leaf pane into two panes. The original pane becomes the first
    /// child and the new pane becomes the second child. Returns `true` if the
    /// target pane was found and split.
    pub fn split_pane(&mut self, target_pane_id: PaneId, new_pane_id: PaneId, direction: Direction, ratio: u32) -> (found: bool)
        ensures
            (*final(self), found) == old(self).split_spec(target_pane_id, new_pane_id, direction, ratio),
    {
        let mut node = LayoutNode::Leaf { pane_id: 0 };
        std::mem::swap(&mut node, self);
        let (node2, found) = node.split_owned(target_pane_id, new_pane_id, direction, ratio);
        *self = node2;
        found
    }

    fn remove_owned(self, target_pane_id: PaneId) -> (r: (LayoutNode, bool))
        ensures
            r == self.remove_spec(target_pane_id),
        decreases self,
    {
        match self {
            LayoutNode::Leaf { pane_id } => (LayoutNode::Leaf { pane_id }, false),
            LayoutNode::Split { direction, ratio, first, second } => {
                // Check if first child is the target leaf: promote the second child.
                if first.is_leaf_with(target_pane_id) {
                    return (*second, true);
                }
                // Check if second child is the target leaf: promote the first child.
                if second.is_leaf_with(target_pane_id) {
                    return (*first, true);
                }
                // Recurse into children.
                proof {
                    lemma_remove_missing_unchanged(*first, target_pane_id);
                }
                let (f2, found) = (*first).remove_owned(target_pane_id);
                if found {
                    (LayoutNode::Split { direction, ratio, first: Box::new(f2), second }, true)
                } else {
                    let (s2, found2) = (*second).remove_owned(target_pane_id);
                    (LayoutNode::Split { direction, ratio, first: Box::new(f2), second: Box::new(s2) }, found2)
                }
            },
        }
    }

    fn is_leaf_with(&self, id: PaneId) -> (b: bool)
        ensures
            b == (*self == LayoutNode::Leaf { pane_id: id }),
    {
        match self {
            LayoutNode::Leaf { pane_id } => *pane_id == id,
            LayoutNode::Split { .. } => false,
        }
    }

    /// Remove a pane from the tree, promoting its sibling in its place.
    /// Returns `true` if the pane was found and removed. Cannot remove the
    /// last pane.
    pub fn remove_pane(&mut self, target_pane_id: PaneId) -> (removed: bool)
        requires
            old(self).leaves().len() <= usize::MAX,
        ensures
            old(self).leaves().len() <= 1 ==> !removed && *final(self) == *old(self),
            old(self).leaves().len() > 1 ==> (*final(self), removed) == old(self).remove_spec(target_pane_id),
    {
        // Cannot remove the last pane.
        if self.pane_count() <= 1 {
            return false;
        }
        let mut node = LayoutNode::Leaf { pane_id: 0 };
        std::mem::swap(&mut node, self);
        let (node2, removed) = node.remove_owned(target_pane_id);
        *self = node2;
        removed
    }
}

/// A split that finds no target leaves the tree as it was.
pub proof fn lemma_split_missing_unchanged(n: LayoutNode, target: PaneId, new: PaneId, direction: Direction, ratio: u32)
    ensures
        !n.split_spec(target, new, direction, ratio).1 ==> n.split_spec(target, new, direction, ratio).0 == n,
    decreases n,
{
    match n {
        LayoutNode::Leaf { .. } => {},
        LayoutNode::Split { first, second, .. } => {
            lemma_split_missing_unchanged(*first, target, new, direction, ratio);
            lemma_split_missing_unchanged(*second, target, new, direction, ratio);
        },
    }
}

/// A removal that finds no target leaves the tree as it was.
pub proof fn lemma_remove_missing_unchanged(n: LayoutNode, target: PaneId)
    ensures
        !n.remove_spec(target).1 ==> n.remove_spec(target).0 == n,
    decreases n,
{
    match n {
        LayoutNode::Leaf { .. } => {},
        LayoutNode::Split { first, second, .. } => {
            lemma_remove_missing_unchanged(*first, target);
            lemma_remove_missing_unchanged(*second, target);
        },
    }
}

/// Splitting inserts the new pane right after the first leaf `target`, and happens
/// exactly when the tree holds `target`.
pub proof fn lemma_split_leaves(n: LayoutNode, target: PaneId, new: PaneId, direction: Direction, ratio: u32)
    ensures
        n.split_spec(target, new, direction, ratio).1 == n.leaves().contains(target),
        n.leaves().contains(target) ==> n.split_spec(target, new, direction, ratio).0.leaves()
            == n.leaves().insert(first_index(n.leaves(), target) + 1, new),
        !n.leaves().contains(target) ==> n.split_spec(target, new, direction, ratio).0 == n,
    decreases n,
{
    lemma_split_missing_unchanged(n, target, new, direction, ratio);
    match n {
        LayoutNode::Leaf { pane_id } => {
            let l = n.leaves();
            assert(l[0] == pane_id);
            if pane_id == target {
                lemma_first_index_exists(l, target);
                let f = LayoutNode::Leaf { pane_id };
                let g = LayoutNode::Leaf { pane_id: new };
                assert(f.leaves() == seq![pane_id]);
                assert(g.leaves() == seq![new]);
                assert(n.split_spec(target, new, direction, ratio).0.leaves() =~= l.insert(1, new));
            } else {
                assert(!l.contains(target)) by {
                    if l.contains(target) {
                        let i = choose|i: int| 0 <= i < l.len() && l[i] == target;
                    }
                }
            }
        },
        LayoutNode::Split { direction: d, ratio: r, first, second } => {
            lemma_split_leaves(*first, target, new, direction, ratio);
            lemma_split_leaves(*second, target, new, direction, ratio);
            lemma_contains_concat(first.leaves(), second.leaves(), target);
            lemma_first_index_concat(first.leaves(), second.leaves(), target);
            lemma_first_index_exists(first.leaves(), target);
            lemma_first_index_exists(second.leaves(), target);
            let a = first.leaves();
            let b = second.leaves();
            if a.contains(target) {
                let i = first_index(a, target);
                assert(a.insert(i + 1, new) + b =~= (a + b).insert(i + 1, new));
            } else if b.contains(target) {
                let k = first_index(b, target);
                assert(a + b.insert(k + 1, new) =~= (a + b).insert(a.len() + k + 1, new));
            }
        },
    }
}

/// A removal that succeeds was of a pane that the tree holds.
pub proof fn lemma_remove_found_contains(n: LayoutNode, target: PaneId)
    ensures
        n.remove_spec(target).1 ==> n.leaves().contains(target),
    decreases n,
{
    match n {
        LayoutNode::Leaf { .. } => {},
        LayoutNode::Split { first, second, .. } => {
            lemma_remove_found_contains(*first, target);
            lemma_remove_found_contains(*second, target);
            lemma_contains_concat(first.leaves(), second.leaves(), target);
            if *first == (LayoutNode::Leaf { pane_id: target }) {
                assert(first.leaves()[0] == target);
            } else if *second == (LayoutNode::Leaf { pane_id: target }) {
                assert(second.leaves()[0] == target);
            }
        },
    }
}

/// In a tree of more than one pane whose pane ids are distinct, removing a pane that
/// the tree holds succeeds and drops exactly that pane from the leaves.
pub proof fn lemma_remove_leaves(n: LayoutNode, target: PaneId)
    requires
        n is Split,
        n.leaves().no_duplicates(),
        n.leaves().contains(target),
    ensures
        n.remove_spec(target).1,
        n.remove_spec(target).0.leaves() == n.leaves().remove(first_index(n.leaves(), target)),
    decreases n,
{
    match n {
        LayoutNode::Leaf { .. } => {},
        LayoutNode::Split { direction, ratio, first, second } => {
            let a = first.leaves();
            let b = second.leaves();
            lemma_no_duplicates_concat(a, b);
            lemma_contains_concat(a, b, target);
            lemma_first_index_concat(a, b, target);
            lemma_first_index_exists(a, target);
            lemma_first_index_exists(b, target);
            if *first == (LayoutNode::Leaf { pane_id: target }) {
                assert(a[0] == target);
                assert((a + b).remove(0) =~= b);
            } else if *second == (LayoutNode::Leaf { pane_id: target }) {
                assert(b[0] == target);
                assert(b.contains(target));
                assert(!a.contains(target));
                assert((a + b).remove(a.len() as int) =~= a);
            } else {
                lemma_remove_found_contains(*first, target);
                lemma_remove_missing_unchanged(*first, target);
                if a.contains(target) {
                    if let LayoutNode::Leaf { pane_id } = *first {
                        assert(a[0] == pane_id);
                        assert(pane_id == target) by {
                            let i = choose|i: int| 0 <= i < a.len() && a[i] == target;
                        }
                    }
                    lemma_remove_leaves(*first, target);
                    let i = first_index(a, target);
                    assert(a.remove(i) + b =~= (a + b).remove(i));
                } else {
                    assert(b.contains(target));
                    if let LayoutNode::Leaf { pane_id } = *second {
                        assert(b[0] == pane_id);
                        assert(pane_id == target) by {
                            let i = choose|i: int| 0 <= i < b.len() && b[i] == target;
                        }
                    }
                    lemma_remove_leaves(*second, target);
                    let k = first_index(b, target);
                    assert(a + b.remove(k) =~= (a + b).remove(a.len() + k));
                }
            }
        },
    }
}

/// Removing a pane right after splitting it off gives back the tree as it was,
/// when the tree held the split pane and not yet the new id.
pub proof fn lemma_split_then_remove(n: LayoutNode, target: PaneId, new: PaneId, direction: Direction, ratio: u32)
    requires
        n.leaves().contains(target),
        !n.leaves().contains(new),
    ensures
        n.split_spec(target, new, direction, ratio).0.remove_spec(new) == (n, true),
    decreases n,
{
    lemma_split_leaves(n, target, new, direction, ratio);
    match n {
        LayoutNode::Leaf { pane_id } => {
            assert(n.leaves()[0] == pane_id);
            assert(pane_id == target) by {
                let i = choose|i: int| 0 <= i < n.leaves().len() && n.leaves()[i] == target;
            }
            assert(pane_id != new) by {
                assert(n.leaves().contains(pane_id));
            }
        },
        LayoutNode::Split { direction: d, ratio: r, first, second } => {
            let a = first.leaves();
            let b = second.leaves();
            lemma_contains_concat(a, b, target);
            lemma_contains_concat(a, b, new);
            lemma_split_leaves(*first, target, new, direction, ratio);
            lemma_split_leaves(*second, target, new, direction, ratio);
            lemma_remove_found_contains(*first, new);
            lemma_remove_missing_unchanged(*first, new);
            if a.contains(target) {
                let f2 = first.split_spec(target, new, direction, ratio).0;
                lemma_split_then_remove(*first, target, new, direction, ratio);
                lemma_first_index_exists(a, target);
                assert(f2.leaves().len() >= 2);
                assert(f2 != (LayoutNode::Leaf { pane_id: new }));
                if *second == (LayoutNode::Leaf { pane_id: new }) {
                    assert(b[0] == new);
                }
            } else {
                let s2 = second.split_spec(target, new, direction, ratio).0;
                lemma_split_then_remove(*second, target, new, direction, ratio);
                lemma_first_index_exists(b, target);
                assert(s2.leaves().len() >= 2);
                assert(s2 != (LayoutNode::Leaf { pane_id: new }));
                if *first == (LayoutNode::Leaf { pane_id: new }) {
                    assert(a[0] == new);
                }
            }
        },
    }
}

pub proof fn lemma_leaves_nonempty(n: LayoutNode)
    ensures
        n.leaves().len() >= 1,
    decreases n,
{
    match n {
        LayoutNode::Leaf { .. } => {},
        LayoutNode::Split { first, second, .. } => {
            lemma_leaves_nonempty(*first);
        },
    }
}

} // verus!
