//! The workspace: the tabs of the window, which one is shown, and the ids that
//! new panes get, unique across all tabs. Each operation says which panes the
//! caller must start or stop.
use vstd::prelude::*;
use vstd::string::StrSliceExecFns;
use crate::input::{Key, NamedKey};
use crate::layout::{Direction, PaneId};
use crate::tab::Tab;

verus! {

/// The bit pattern of the ratio 0.5: an even split.
pub const EVEN_SPLIT: u32 = 0x3f00_0000;

/// The commands bound to Ctrl+Shift shortcuts.
#[derive(Debug, Clone, Copy, PartialEq, Eq, Structural)]
pub enum Shortcut {
    SplitVertical,
    SplitHorizontal,
    ClosePane,
    FocusNext,
    FocusPrevious,
    NewTab,
    CloseTab,
    /// Switch to the tab with this index (0 to 8).
    SwitchTab(usize),
    CopySelection,
    Paste,
    TogglePanel,
}

/// The digit value of a character from '1' to '9'.
pub open spec fn tab_digit(c: char) -> Option<usize> {
    if '1' <= c <= '9' {
        Some((c as int - '1' as int) as usize)
    } else {
        None
    }
}

/// Whether `s` is exactly the character `upper` or `lower`.
pub open spec fn is_letter(s: Seq<char>, upper: char, lower: char) -> bool {
    s == seq![upper] || s == seq![lower]
}

/// The command that a key press with Ctrl and Shift held gives, if any: H and B
/// split horizontally and vertically, W closes the pane, the side arrows move
/// focus, T and Q open and close a tab, 1 to 9 switch tabs, C copies, V pastes
/// and P toggles the coordination panel.
pub open spec fn shortcut_spec(pressed: bool, ctrl: bool, shift: bool, key: Key) -> Option<Shortcut> {
    if !pressed || !(ctrl && shift) {
        None
    } else {
        match key {
            Key::Character(s) => {
                let s = s@;
                if is_letter(s, 'B', 'b') {
                    Some(Shortcut::SplitVertical)
                } else if is_letter(s, 'H', 'h') {
                    Some(Shortcut::SplitHorizontal)
                } else if is_letter(s, 'W', 'w') {
                    Some(Shortcut::ClosePane)
                } else if is_letter(s, 'T', 't') {
                    Some(Shortcut::NewTab)
                } else if is_letter(s, 'Q', 'q') {
                    Some(Shortcut::CloseTab)
                } else if is_letter(s, 'C', 'c') {
                    Some(Shortcut::CopySelection)
                } else if is_letter(s, 'V', 'v') {
                    Some(Shortcut::Paste)
                } else if is_letter(s, 'P', 'p') {
                    Some(Shortcut::TogglePanel)
                } else if s.len() > 0 && tab_digit(s[0]) is Some {
                    Some(Shortcut::SwitchTab(tab_digit(s[0])->0))
                } else {
                    None
                }
            },
            Key::Named(NamedKey::ArrowRight) => Some(Shortcut::FocusNext),
            Key::Named(NamedKey::ArrowLeft) => Some(Shortcut::FocusPrevious),
            _ => None,
        }
    }
}

fn is_letter_str(s: &str, upper: char, lower: char) -> (b: bool)
    ensures
        b == is_letter(s@, upper, lower),
{
    if s.unicode_len() != 1 {
        proof {
            assert(s@ != seq![upper]);
            assert(s@ != seq![lower]);
        }
        return false;
    }
    let c = s.get_char(0);
    proof {
        if c == upper {
            assert(s@ =~= seq![upper]);
        }
        if c == lower {
            assert(s@ =~= seq![lower]);
        }
    }
    c == upper || c == lower
}

/// The command bound to a key press, when Ctrl and Shift are held; `None` when
/// the press is not a shortcut.
pub fn shortcut(pressed: bool, ctrl: bool, shift: bool, key: &Key) -> (s: Option<Shortcut>)
    ensures
        s == shortcut_spec(pressed, ctrl, shift, *key),
{
    if !pressed || !(ctrl && shift) {
        return None;
    }
    match key {
        Key::Character(c) => {
            let s = c.as_str();
            if is_letter_str(s, 'B', 'b') {
                Some(Shortcut::SplitVertical)
            } else if is_letter_str(s, 'H', 'h') {
                Some(Shortcut::SplitHorizontal)
            } else if is_letter_str(s, 'W', 'w') {
                Some(Shortcut::ClosePane)
            } else if is_letter_str(s, 'T', 't') {
                Some(Shortcut::NewTab)
            } else if is_letter_str(s, 'Q', 'q') {
                Some(Shortcut::CloseTab)
            } else if is_letter_str(s, 'C', 'c') {
                Some(Shortcut::CopySelection)
            } else if is_letter_str(s, 'V', 'v') {
                Some(Shortcut::Paste)
            } else if is_letter_str(s, 'P', 'p') {
                Some(Shortcut::TogglePanel)
            } else if s.unicode_len() > 0 {
                let first = s.get_char(0);
                if '1' <= first && first <= '9' {
                    Some(Shortcut::SwitchTab((first as u32 - '1' as u32) as usize))
                } else {
                    None
                }
            } else {
                None
            }
        },
        Key::Named(NamedKey::ArrowRight) => Some(Shortcut::FocusNext),
        Key::Named(NamedKey::ArrowLeft) => Some(Shortcut::FocusPrevious),
        _ => None,
    }
}

/// Pane `a` of tab `i`.
pub open spec fn pane_at(tabs: Seq<Tab>, i: int, a: int) -> PaneId {
    tabs[i].panes()[a]
}

/// `(i, a)` names a pane: tab `i` exists and has a pane at position `a`.
pub open spec fn has_pane(tabs: Seq<Tab>, i: int, a: int) -> bool {
    0 <= i < tabs.len() && 0 <= a < tabs[i].panes().len()
}

/// Every pane id of the tabs is below `next`, and no two panes, in one tab or in
/// two, share an id.
pub open spec fn ids_ok(tabs: Seq<Tab>, next: PaneId) -> bool {
    &&& forall|i: int, a: int| #[trigger] has_pane(tabs, i, a) ==> pane_at(tabs, i, a) < next
    &&& forall|i: int, a: int, j: int, b: int|
        #[trigger] has_pane(tabs, i, a) && #[trigger] has_pane(tabs, j, b) && (i != j || a != b) ==> pane_at(tabs, i, a)
            != pane_at(tabs, j, b)
}

/// The ids stay unique and below the counter when every pane of `after` is either
/// a pane of `before`, found at `origin` (no two panes coming from the same one),
/// or a fresh pane whose id lies in `[next_before, next_after)`, no two fresh
/// panes sharing an id.
pub proof fn lemma_ids_ok_from_origin(
    before: Seq<Tab>,
    next_before: PaneId,
    after: Seq<Tab>,
    next_after: PaneId,
    origin: spec_fn(int, int) -> (int, int),
    fresh: spec_fn(int, int) -> bool,
)
    requires
        ids_ok(before, next_before),
        next_before <= next_after,
        forall|i: int, a: int|
            #[trigger] has_pane(after, i, a) && !fresh(i, a) ==> has_pane(before, origin(i, a).0, origin(i, a).1)
                && pane_at(after, i, a) == pane_at(before, origin(i, a).0, origin(i, a).1),
        forall|i: int, a: int|
            #[trigger] has_pane(after, i, a) && fresh(i, a) ==> next_before <= pane_at(after, i, a) < next_after,
        forall|i: int, a: int, j: int, b: int|
            #[trigger] has_pane(after, i, a) && #[trigger] has_pane(after, j, b) && (i != j || a != b) && !fresh(i, a)
                && !fresh(j, b) ==> origin(i, a) != origin(j, b),
        forall|i: int, a: int, j: int, b: int|
            #[trigger] has_pane(after, i, a) && #[trigger] has_pane(after, j, b) && (i != j || a != b) && fresh(i, a)
                && fresh(j, b) ==> pane_at(after, i, a) != pane_at(after, j, b),
    ensures
        ids_ok(after, next_after),
{
    assert forall|i: int, a: int| #[trigger] has_pane(after, i, a) implies pane_at(after, i, a) < next_after by {
        if !fresh(i, a) {
            assert(has_pane(before, origin(i, a).0, origin(i, a).1));
        }
    }
    assert forall|i: int, a: int, j: int, b: int|
        #[trigger] has_pane(after, i, a) && #[trigger] has_pane(after, j, b) && (i != j || a != b) implies pane_at(after, i, a)
            != pane_at(after, j, b) by {
        if !fresh(i, a) {
            assert(has_pane(before, origin(i, a).0, origin(i, a).1));
        }
        if !fresh(j, b) {
            assert(has_pane(before, origin(j, b).0, origin(j, b).1));
        }
    }
}

/// All the tabs of the window.
pub struct Workspace {
    pub tabs: Vec<Tab>,
    pub active_tab: usize,
    /// Global pane ID counter (shared across all tabs).
    pub next_global_pane_id: PaneId,
}

impl Workspace {
    /// The shown tab exists whenever there is a tab.
    pub open spec fn wf(&self) -> bool {
        &&& (self.tabs@.len() > 0 ==> self.active_tab < self.tabs@.len())
        &&& ids_ok(self.tabs@, self.next_global_pane_id)
    }

    /// A window with no tab yet.
    pub fn new() -> (w: Self)
        ensures
            w.tabs@.len() == 0,
            w.active_tab == 0,
            w.next_global_pane_id == 0,
            w.wf(),
    {
        Workspace { tabs: Vec::new(), active_tab: 0, next_global_pane_id: 0 }
    }

    /// Open a new tab with a single pane and show it. Returns the id of the
    /// pane, for which the caller starts a terminal.
    pub fn create_tab(&mut self, name: &str) -> (pane_id: PaneId)
        requires
            old(self).next_global_pane_id < u64::MAX,
        ensures
            pane_id == old(self).next_global_pane_id,
            final(self).next_global_pane_id == pane_id + 1,
            final(self).tabs@.len() == old(self).tabs@.len() + 1,
            final(self).tabs@.take(old(self).tabs@.len() as int) == old(self).tabs@,
            final(self).tabs@.last().panes() == seq![pane_id],
            final(self).tabs@.last().active_pane == pane_id,
            final(self).tabs@.last().name@ == name@,
            final(self).active_tab == old(self).tabs@.len(),
            old(self).wf() ==> final(self).wf(),
    {
        let pane_id = self.next_global_pane_id;
        self.next_global_pane_id = self.next_global_pane_id + 1;
        let tab = Tab::with_pane_id(name, pane_id);
        let ghost before = self.tabs@;
        self.tabs.push(tab);
        self.active_tab = self.tabs.len() - 1;
        proof {
            assert(self.tabs@.take(before.len() as int) =~= before);
            assert(self.tabs@.last().panes() =~= seq![pane_id]);
            if old(self).wf() {
                let n = before.len() as int;
                let after = self.tabs@;
                assert forall|i: int, a: int| #[trigger] has_pane(after, i, a) && i != n implies has_pane(before, i, a)
                    && pane_at(after, i, a) == pane_at(before, i, a) by {
                    assert(after[i] == before[i]);
                }
                lemma_ids_ok_from_origin(before, pane_id, after, self.next_global_pane_id, |i: int, a: int| (i, a), |i: int, a: int| i == n);
            }
        }
        pane_id
    }

    /// Close the shown tab unless it is the last one. Returns the ids of the
    /// panes that were in it, whose terminals the caller stops, or `None` when
    /// the tab stayed.
    pub fn close_active_tab(&mut self) -> (closed: Option<Vec<PaneId>>)
        requires
            old(self).wf(),
        ensures
            old(self).tabs@.len() <= 1 ==> closed is None && *final(self) == *old(self),
            old(self).tabs@.len() > 1 ==> closed is Some
                && closed->0@ == old(self).tabs@[old(self).active_tab as int].panes()
                && final(self).tabs@ == old(self).tabs@.remove(old(self).active_tab as int)
                && final(self).active_tab == (if old(self).active_tab < final(self).tabs@.len() {
                    old(self).active_tab as int
                } else {
                    final(self).tabs@.len() - 1
                })
                && final(self).next_global_pane_id == old(self).next_global_pane_id,
            final(self).wf(),
    {
        if self.tabs.len() <= 1 {
            return None;
        }
        let closed_idx = self.active_tab;
        let pane_ids = self.tabs[closed_idx].layout().all_pane_ids();
        let ghost before = self.tabs@;
        let _ = self.tabs.remove(closed_idx);
        // Adjust active_tab index
        if self.active_tab >= self.tabs.len() {
            self.active_tab = self.tabs.len() - 1;
        }
        proof {
            let c = closed_idx as int;
            let after = self.tabs@;
            let origin = |i: int, a: int| (if i < c { i } else { i + 1 }, a);
            assert forall|i: int, a: int| #[trigger] has_pane(after, i, a) implies has_pane(before, origin(i, a).0, a)
                && pane_at(after, i, a) == pane_at(before, origin(i, a).0, a) by {
                assert(after[i] == before[origin(i, a).0]);
            }
            lemma_ids_ok_from_origin(before, self.next_global_pane_id, after, self.next_global_pane_id, origin, |i: int, a: int| false);
        }
        Some(pane_ids)
    }

    /// Show the tab at `index`, if there is one and it is not shown already.
    /// Returns whether the shown tab changed.
    pub fn switch_tab(&mut self, index: usize) -> (switched: bool)
        requires
            old(self).wf(),
        ensures
            switched == (index < old(self).tabs@.len() && index != old(self).active_tab),
            final(self).active_tab == if switched { index } else { old(self).active_tab },
            final(self).tabs == old(self).tabs,
            final(self).next_global_pane_id == old(self).next_global_pane_id,
            final(self).wf(),
    {
        if index < self.tabs.len() && index != self.active_tab {
            self.active_tab = index;
            true
        } else {
            false
        }
    }

    /// Close the focused pane of the shown tab unless it is the tab's last.
    /// Returns the id of the closed pane, whose terminal the caller stops.
    pub fn close_active_pane(&mut self) -> (closed: Option<PaneId>)
        requires
            old(self).wf(),
            old(self).tabs@.len() > 0,
            old(self).tabs@[old(self).active_tab as int].panes().len() <= usize::MAX,
        ensures
            ({
                let t = old(self).tabs@[old(self).active_tab as int];
                let u = final(self).tabs@[old(self).active_tab as int];
                &&& closed is Some <==> t.panes().len() > 1 && t.root.remove_spec(t.active_pane).1
                &&& closed is Some ==> closed->0 == t.active_pane
                    && final(self).tabs@[old(self).active_tab as int].root == t.root.remove_spec(t.active_pane).0
                &&& closed is Some ==> u.panes() == t.panes().remove(crate::seqs::first_index(t.panes(), t.active_pane))
                &&& closed is Some ==> u.active_pane == u.panes()[0]
                &&& u.name == t.name
                &&& u.next_pane_id == t.next_pane_id
                &&& closed is None ==> final(self).tabs@ == old(self).tabs@
                &&& t.panes().contains(t.active_pane) && t.panes().len() > 1 ==> closed is Some
            }),
            final(self).tabs@.len() == old(self).tabs@.len(),
            forall|i: int| 0 <= i < old(self).tabs@.len() && i != old(self).active_tab ==> final(self).tabs@[i] == old(self).tabs@[i],
            final(self).active_tab == old(self).active_tab,
            final(self).next_global_pane_id == old(self).next_global_pane_id,
            final(self).wf(),
    {
        let idx = self.active_tab;
        if self.tabs[idx].pane_count() <= 1 {
            return None;
        }
        let pane_id = self.tabs[idx].active_pane;
        let ghost before = self.tabs@;
        let ghost t = before[idx as int];
        proof {
            self.lemma_tab_no_duplicates(idx as int);
            crate::layout::lemma_remove_found_contains(t.root, pane_id);
            crate::layout::lemma_remove_missing_unchanged(t.root, pane_id);
            if t.panes().len() > 1 && t.panes().contains(pane_id) {
                crate::layout::lemma_remove_leaves(t.root, pane_id);
            }
        }
        let removed = self.tabs[idx].close_pane(pane_id);
        proof {
            assert forall|i: int| 0 <= i < before.len() && i != idx implies self.tabs@[i] == before[i] by {}
            if removed {
                crate::layout::lemma_remove_leaves(t.root, pane_id);
                crate::seqs::lemma_first_index_exists(t.panes(), pane_id);
                assert(self.tabs@[idx as int].panes() == t.panes().remove(crate::seqs::first_index(t.panes(), pane_id)));
            } else {
                assert(self.tabs@[idx as int].panes() == t.panes());
            }
            let after = self.tabs@;
            let k = crate::seqs::first_index(t.panes(), pane_id);
            let origin = |i: int, a: int| if i == idx && removed && a >= k { (i, a + 1) } else { (i, a) };
            assert forall|i: int, a: int| #[trigger] has_pane(after, i, a) implies has_pane(before, origin(i, a).0, origin(i, a).1)
                && pane_at(after, i, a) == pane_at(before, origin(i, a).0, origin(i, a).1) by {
                if i != idx {
                    assert(after[i] == before[i]);
                }
            }
            lemma_ids_ok_from_origin(before, self.next_global_pane_id, after, self.next_global_pane_id, origin, |i: int, a: int| false);
        }
        if removed {
            Some(pane_id)
        } else {
            None
        }
    }

    /// The panes of one tab have distinct ids.
    proof fn lemma_tab_no_duplicates(&self, i: int)
        requires
            self.wf(),
            0 <= i < self.tabs@.len(),
        ensures
            self.tabs@[i].panes().no_duplicates(),
            forall|k: int| 0 <= k < self.tabs@[i].panes().len() ==> self.tabs@[i].panes()[k] < self.next_global_pane_id,
    {
        let p = self.tabs@[i].panes();
        assert forall|a: int, b: int| 0 <= a < p.len() && 0 <= b < p.len() && a != b implies p[a] != p[b] by {
            assert(has_pane(self.tabs@, i, a) && has_pane(self.tabs@, i, b));
        }
        assert forall|k: int| 0 <= k < p.len() implies p[k] < self.next_global_pane_id by {
            assert(has_pane(self.tabs@, i, k));
        }
    }

    /// Split the focused pane of the shown tab evenly; the new pane gets the next
    /// global id and the focus. Returns the new id, for which the caller starts a
    /// terminal.
    pub fn split_active(&mut self, direction: Direction) -> (new_id: PaneId)
        requires
            old(self).wf(),
            old(self).tabs@.len() > 0,
            old(self).next_global_pane_id < u64::MAX,
        ensures
            new_id == old(self).next_global_pane_id,
            final(self).next_global_pane_id == new_id + 1,
            ({
                let t = old(self).tabs@[old(self).active_tab as int];
                let u = final(self).tabs@[old(self).active_tab as int];
                &&& u.root == t.root.split_spec(t.active_pane, new_id, direction, EVEN_SPLIT).0
                &&& u.active_pane == new_id
                &&& u.name == t.name
                &&& u.next_pane_id == if new_id < t.next_pane_id { t.next_pane_id } else { (new_id + 1) as u64 }
                &&& t.focus_ok() ==> u.panes() == t.panes().insert(crate::seqs::first_index(t.panes(), t.active_pane) + 1, new_id)
            }),
            final(self).tabs@.len() == old(self).tabs@.len(),
            forall|i: int| 0 <= i < old(self).tabs@.len() && i != old(self).active_tab ==> final(self).tabs@[i] == old(self).tabs@[i],
            final(self).active_tab == old(self).active_tab,
            final(self).wf(),
    {
        let idx = self.active_tab;
        let ghost before = self.tabs@;
        let ghost t = before[idx as int];
        proof {
            self.lemma_tab_no_duplicates(idx as int);
            crate::seqs::lemma_first_index_exists(t.panes(), t.active_pane);
        }
        let new_id = self.next_global_pane_id;
        self.next_global_pane_id = self.next_global_pane_id + 1;
        self.tabs[idx].split_active_with_id(direction, EVEN_SPLIT, new_id);
        proof {
            let u = self.tabs@[idx as int];
            assert forall|i: int| 0 <= i < before.len() && i != idx implies self.tabs@[i] == before[i] by {}
            // Every pane of the split tab is an old pane of it, or the new one.
            let after = self.tabs@;
            let p = crate::seqs::first_index(t.panes(), t.active_pane) + 1;
            let focused = t.focus_ok();
            let origin = |i: int, a: int| if i == idx && focused && a > p { (i, a - 1) } else { (i, a) };
            let fresh = |i: int, a: int| i == idx && focused && a == p;
            assert forall|i: int, a: int| #[trigger] has_pane(after, i, a) && !fresh(i, a) implies has_pane(
                before,
                origin(i, a).0,
                origin(i, a).1,
            ) && pane_at(after, i, a) == pane_at(before, origin(i, a).0, origin(i, a).1) by {
                if i != idx {
                    assert(after[i] == before[i]);
                } else if focused {
                    if a < p {
                        assert(t.panes()[a] == u.panes()[a]);
                    } else {
                        assert(t.panes()[a - 1] == u.panes()[a]);
                    }
                } else {
                    assert(t.panes()[a] == u.panes()[a]);
                }
            }
            lemma_ids_ok_from_origin(before, new_id, after, self.next_global_pane_id, origin, fresh);
        }
        new_id
    }
}

} // verus!
