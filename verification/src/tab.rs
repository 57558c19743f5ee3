//! A tab: one layout tree of panes, the pane that has focus, and the id that the
//! next new pane gets.
use vstd::prelude::*;
use vstd::arithmetic::div_mod::{lemma_mod_add_multiples_vanish, lemma_mod_self_0, lemma_small_mod};
use crate::layout::{
    lemma_leaves_nonempty, lemma_remove_found_contains, lemma_remove_leaves, lemma_remove_missing_unchanged,
    lemma_split_leaves, Direction, LayoutNode, PaneId,
};
use crate::seqs::{first_index, lemma_insert_fresh, lemma_remove_keeps_no_duplicates, is_first_index, lemma_first_index_exists, lemma_first_index_is};

verus! {

/// The position in `ids` that focus moves to from `active`: one step forward or
/// back from the first position of `active` (from 0 when it is absent), wrapping.
pub open spec fn focus_index(ids: Seq<PaneId>, active: PaneId, forward: bool) -> int {
    let cur = if ids.contains(active) { first_index(ids, active) } else { 0 };
    if forward {
        (cur + 1) % (ids.len() as int)
    } else {
        (cur + ids.len() - 1) % (ids.len() as int)
    }
}

pub struct Tab {
    pub name: String,
    pub root: LayoutNode,
    pub active_pane: PaneId,
    pub next_pane_id: PaneId,
}

impl Tab {
    /// The panes of the tab, in tree order.
    pub open spec fn panes(&self) -> Seq<PaneId> {
        self.root.leaves()
    }

    /// The pane that has focus is one of the tab's panes.
    pub open spec fn focus_ok(&self) -> bool {
        self.panes().contains(self.active_pane)
    }

    /// Pane ids are distinct and all below the next id to hand out.
    pub open spec fn wf(&self) -> bool {
        &&& self.panes().no_duplicates()
        &&& forall|i: int| 0 <= i < self.panes().len() ==> self.panes()[i] < self.next_pane_id
    }

    /// Create a new tab with a single pane.
    pub fn new(name: &str) -> (tab: Self)
        ensures
            tab.name@ == name@,
            tab.root == (LayoutNode::Leaf { pane_id: 0 }),
            tab.active_pane == 0,
            tab.next_pane_id == 1,
            tab.wf(),
    {
        Tab { name: name.to_string(), root: LayoutNode::Leaf { pane_id: 0 }, active_pane: 0, next_pane_id: 1 }
    }

    /// Create a new tab whose single pane has the given id.
    pub fn with_pane_id(name: &str, pane_id: PaneId) -> (tab: Self)
        requires
            pane_id < u64::MAX,
        ensures
            tab.name@ == name@,
            tab.root == (LayoutNode::Leaf { pane_id }),
            tab.active_pane == pane_id,
            tab.next_pane_id == pane_id + 1,
            tab.wf(),
    {
        Tab { name: name.to_string(), root: LayoutNode::Leaf { pane_id }, active_pane: pane_id, next_pane_id: pane_id + 1 }
    }

    /// The layout tree of the tab.
    pub fn layout(&self) -> (node: &LayoutNode)
        ensures
            *node == self.root,
    {
        &self.root
    }

    /// Split the active pane in the given direction. Returns the new pane ID.
    /// The new pane becomes active.
    pub fn split_active(&mut self, direction: Direction, ratio: u32) -> (new_id: PaneId)
        requires
            old(self).next_pane_id < u64::MAX,
        ensures
            new_id == old(self).next_pane_id,
            final(self).next_pane_id == old(self).next_pane_id + 1,
            final(self).root == old(self).root.split_spec(old(self).active_pane, new_id, direction, ratio).0,
            final(self).active_pane == new_id,
            final(self).name == old(self).name,
            old(self).focus_ok() ==> final(self).panes() == old(self).panes().insert(
                first_index(old(self).panes(), old(self).active_pane) + 1,
                new_id,
            ),
            old(self).focus_ok() ==> final(self).focus_ok(),
            !old(self).focus_ok() ==> final(self).root == old(self).root,
            old(self).wf() ==> final(self).wf(),
    {
        let new_id = self.next_pane_id;
        self.next_pane_id = self.next_pane_id + 1;
        proof {
            lemma_split_leaves(self.root, self.active_pane, new_id, direction, ratio);
        }
        let _ = self.root.split_pane(self.active_pane, new_id, direction, ratio);
        proof {
            let p = old(self).panes();
            let k = first_index(p, old(self).active_pane) + 1;
            if old(self).focus_ok() {
                lemma_first_index_exists(p, old(self).active_pane);
                assert(self.panes()[k] == new_id);
                if old(self).wf() {
                    assert(!p.contains(new_id));
                    lemma_insert_fresh(p, k, new_id);
                }
            }
        }
        self.active_pane = new_id;
        new_id
    }

    /// Split the active pane, giving the new pane the id `new_id`, which becomes
    /// active. The next id to hand out stays above every pane id.
    pub fn split_active_with_id(&mut self, direction: Direction, ratio: u32, new_id: PaneId)
        requires
            new_id < u64::MAX,
        ensures
            final(self).next_pane_id == if new_id < old(self).next_pane_id { old(self).next_pane_id } else { (new_id + 1) as u64 },
            final(self).root == old(self).root.split_spec(old(self).active_pane, new_id, direction, ratio).0,
            final(self).active_pane == new_id,
            final(self).name == old(self).name,
            old(self).focus_ok() ==> final(self).panes() == old(self).panes().insert(
                first_index(old(self).panes(), old(self).active_pane) + 1,
                new_id,
            ),
            old(self).focus_ok() ==> final(self).focus_ok(),
            !old(self).focus_ok() ==> final(self).root == old(self).root,
            old(self).wf() && !old(self).panes().contains(new_id) ==> final(self).wf(),
    {
        if new_id >= self.next_pane_id {
            self.next_pane_id = new_id + 1;
        }
        proof {
            lemma_split_leaves(self.root, self.active_pane, new_id, direction, ratio);
        }
        let _ = self.root.split_pane(self.active_pane, new_id, direction, ratio);
        proof {
            let p = old(self).panes();
            let k = first_index(p, old(self).active_pane) + 1;
            if old(self).focus_ok() {
                lemma_first_index_exists(p, old(self).active_pane);
                assert(self.panes()[k] == new_id);
                if old(self).wf() && !p.contains(new_id) {
                    lemma_insert_fresh(p, k, new_id);
                }
            }
        }
        self.active_pane = new_id;
    }

    /// Close a pane. If the closed pane was active, switch to the first
    /// available pane. Returns `true` if the pane was removed.
    pub fn close_pane(&mut self, pane_id: PaneId) -> (removed: bool)
        requires
            old(self).panes().len() <= usize::MAX,
        ensures
            removed == (old(self).panes().len() > 1 && old(self).root.remove_spec(pane_id).1),
            removed ==> final(self).root == old(self).root.remove_spec(pane_id).0,
            !removed ==> final(self).root == old(self).root,
            final(self).active_pane == if removed && old(self).active_pane == pane_id {
                final(self).panes()[0]
            } else {
                old(self).active_pane
            },
            final(self).name == old(self).name,
            final(self).next_pane_id == old(self).next_pane_id,
            !old(self).panes().contains(pane_id) ==> !removed,
            old(self).wf() && old(self).panes().len() > 1 && old(self).panes().contains(pane_id) ==> removed
                && final(self).panes() == old(self).panes().remove(first_index(old(self).panes(), pane_id)),
            old(self).wf() ==> final(self).wf(),
            old(self).wf() && old(self).focus_ok() ==> final(self).focus_ok(),
    {
        proof {
            lemma_remove_missing_unchanged(self.root, pane_id);
            lemma_remove_found_contains(self.root, pane_id);
            lemma_leaves_nonempty(self.root);
            let p = self.panes();
            if self.wf() && p.len() > 1 && p.contains(pane_id) {
                lemma_remove_leaves(self.root, pane_id);
            }
            if self.wf() && p.len() > 1 && self.root.remove_spec(pane_id).1 {
                lemma_remove_leaves(self.root, pane_id);
                lemma_first_index_exists(p, pane_id);
                lemma_remove_keeps_no_duplicates(p, first_index(p, pane_id));
            }
        }
        if !self.root.remove_pane(pane_id) {
            return false;
        }
        if self.active_pane == pane_id {
            // Switch to the first available pane.
            let ids = self.root.all_pane_ids();
            proof {
                lemma_leaves_nonempty(self.root);
            }
            self.active_pane = ids[0];
            proof {
                assert(self.panes()[0] == self.active_pane);
            }
        }
        true
    }

    /// Give focus to `pane_id`. Returns whether focus changed.
    pub fn focus_pane(&mut self, pane_id: PaneId) -> (changed: bool)
        ensures
            changed == (old(self).active_pane != pane_id),
            final(self).active_pane == pane_id,
            final(self).root == old(self).root,
            final(self).name == old(self).name,
            final(self).next_pane_id == old(self).next_pane_id,
    {
        let changed = self.active_pane != pane_id;
        self.active_pane = pane_id;
        changed
    }

    /// Return the number of panes.
    pub fn pane_count(&self) -> (n: usize)
        requires
            self.panes().len() <= usize::MAX,
        ensures
            n == self.panes().len(),
    {
        self.root.pane_count()
    }

    /// Cycle focus to the next or previous pane in tree order.
    pub fn cycle_focus(&mut self, forward: bool)
        ensures
            final(self).active_pane == old(self).panes()[focus_index(old(self).panes(), old(self).active_pane, forward)],
            0 <= focus_index(old(self).panes(), old(self).active_pane, forward) < old(self).panes().len(),
            final(self).focus_ok(),
            final(self).root == old(self).root,
            final(self).name == old(self).name,
            final(self).next_pane_id == old(self).next_pane_id,
    {
        let ids = self.root.all_pane_ids();
        if ids.len() == 0 {
            proof {
                lemma_leaves_nonempty(self.root);
            }
            return;
        }
        let ghost s = ids@;
        let a = self.active_pane;
        let mut current_idx: usize = 0;
        let mut found = false;
        let mut i: usize = 0;
        while !found && i < ids.len()
            invariant
                ids@ == s,
                0 <= i <= s.len(),
                !found ==> forall|j: int| 0 <= j < i ==> s[j] != a,
                found ==> is_first_index(s, a, current_idx as int),
                !found ==> current_idx == 0,
            decreases s.len() - i + if found { 0int } else { 1int },
        {
            if ids[i] == a {
                current_idx = i;
                found = true;
            } else {
                i = i + 1;
            }
        }
        proof {
            lemma_first_index_exists(s, a);
            if found {
                lemma_first_index_is(s, a, current_idx as int);
            } else {
                assert(!s.contains(a));
            }
        }
        let len = ids.len();
        let next_idx = if forward {
            (current_idx + 1) % len
        } else if current_idx == 0 {
            len - 1
        } else {
            current_idx - 1
        };
        proof {
            if !forward {
                if current_idx == 0 {
                    lemma_small_mod((len - 1) as nat, len as nat);
                } else {
                    lemma_mod_add_multiples_vanish(current_idx - 1, len as int);
                    lemma_small_mod((current_idx - 1) as nat, len as nat);
                }
            }
        }
        self.active_pane = ids[next_idx];
    }
}

/// Closing the pane that `split_active` has just made gives the tab its tree
/// back, when focus was on one of the tab's panes.
pub proof fn lemma_split_active_then_close(t: Tab, direction: Direction, ratio: u32)
    requires
        t.wf(),
        t.focus_ok(),
    ensures
        t.root.split_spec(t.active_pane, t.next_pane_id, direction, ratio).0.remove_spec(t.next_pane_id) == (
        t.root,
        true,
        ),
        t.root.split_spec(t.active_pane, t.next_pane_id, direction, ratio).0.leaves().len() > 1,
{
    assert(!t.panes().contains(t.next_pane_id)) by {
        if t.panes().contains(t.next_pane_id) {
            let k = choose|k: int| 0 <= k < t.panes().len() && t.panes()[k] == t.next_pane_id;
        }
    }
    crate::layout::lemma_split_then_remove(t.root, t.active_pane, t.next_pane_id, direction, ratio);
    lemma_split_leaves(t.root, t.active_pane, t.next_pane_id, direction, ratio);
    lemma_leaves_nonempty(t.root);
}

/// Moving focus forward and then back, or back and then forward, returns it to
/// the pane it started on, when pane ids are distinct and focus is on a pane.
pub proof fn lemma_cycle_focus_round_trip(ids: Seq<PaneId>, active: PaneId)
    requires
        ids.no_duplicates(),
        ids.contains(active),
    ensures
        ids[focus_index(ids, ids[focus_index(ids, active, true)], false)] == active,
        ids[focus_index(ids, ids[focus_index(ids, active, false)], true)] == active,
{
    let len = ids.len() as int;
    lemma_first_index_exists(ids, active);
    let cur = first_index(ids, active);
    // forward, then back
    let f = focus_index(ids, active, true);
    if cur + 1 < len {
        lemma_small_mod((cur + 1) as nat, len as nat);
    } else {
        lemma_mod_self_0(len);
    }
    assert(0 <= f < len);
    assert(is_first_index(ids, ids[f], f));
    lemma_first_index_is(ids, ids[f], f);
    assert(ids.contains(ids[f]));
    if f >= 1 {
        lemma_mod_add_multiples_vanish(f - 1, len);
        lemma_small_mod((f - 1) as nat, len as nat);
    } else {
        lemma_small_mod((len - 1) as nat, len as nat);
    }
    // back, then forward
    let b = focus_index(ids, active, false);
    if cur >= 1 {
        lemma_mod_add_multiples_vanish(cur - 1, len);
        lemma_small_mod((cur - 1) as nat, len as nat);
    } else {
        lemma_small_mod((len - 1) as nat, len as nat);
    }
    assert(0 <= b < len);
    assert(is_first_index(ids, ids[b], b));
    lemma_first_index_is(ids, ids[b], b);
    assert(ids.contains(ids[b]));
    if b + 1 < len {
        lemma_small_mod((b + 1) as nat, len as nat);
    } else {
        lemma_mod_self_0(len);
    }
}

} // verus!
