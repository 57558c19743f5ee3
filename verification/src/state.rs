//! The saved form of a workspace: its tabs, their layouts and the panes to respawn.
use vstd::prelude::*;
use vstd::std_specs::convert::FromSpecImpl;
use crate::layout::{Direction, LayoutNode, PaneId};
use crate::tab::Tab;

verus! {

/// Snapshot of the entire workspace.
#[derive(Debug, Clone)]
pub struct SessionState {
    pub name: String,
    pub active_tab: usize,
    pub tabs: Vec<TabState>,
    pub panes: Vec<PaneSnapshot>,
}

/// Snapshot of a single tab.
#[derive(Debug, Clone)]
pub struct TabState {
    pub name: String,
    pub active_pane: PaneId,
    pub layout: LayoutNodeState,
}

/// Mirror of `LayoutNode` kept as the session's own schema. `ratio` is the bit
/// pattern of the split's share, as in `LayoutNode`.
#[derive(Debug)]
pub enum LayoutNodeState {
    Leaf { pane_id: PaneId },
    Split { direction: Direction, ratio: u32, first: Box<LayoutNodeState>, second: Box<LayoutNodeState> },
}

/// Metadata about a single pane needed for restoration.
#[derive(Debug, Clone)]
pub struct PaneSnapshot {
    pub pane_id: PaneId,
    pub cwd: Option<String>,
    pub shell: String,
    pub cols: u16,
    pub rows: u16,
}

impl Clone for LayoutNodeState {
    fn clone(&self) -> (c: Self)
        ensures
            c == *self,
    {
        copy_state(self)
    }
}

fn copy_state(state: &LayoutNodeState) -> (c: LayoutNodeState)
    ensures
        c == *state,
    decreases state,
{
    match state {
        LayoutNodeState::Leaf { pane_id } => LayoutNodeState::Leaf { pane_id: *pane_id },
        LayoutNodeState::Split { direction, ratio, first, second } => LayoutNodeState::Split {
            direction: *direction,
            ratio: *ratio,
            first: Box::new(copy_state(first)),
            second: Box::new(copy_state(second)),
        },
    }
}

/// The saved form of a layout tree.
pub open spec fn state_of(n: LayoutNode) -> LayoutNodeState
    decreases n,
{
    match n {
        LayoutNode::Leaf { pane_id } => LayoutNodeState::Leaf { pane_id },
        LayoutNode::Split { direction, ratio, first, second } => LayoutNodeState::Split {
            direction,
            ratio,
            first: Box::new(state_of(*first)),
            second: Box::new(state_of(*second)),
        },
    }
}

/// The layout tree that a saved layout describes.
pub open spec fn node_of(s: LayoutNodeState) -> LayoutNode
    decreases s,
{
    match s {
        LayoutNodeState::Leaf { pane_id } => LayoutNode::Leaf { pane_id },
        LayoutNodeState::Split { direction, ratio, first, second } => LayoutNode::Split {
            direction,
            ratio,
            first: Box::new(node_of(*first)),
            second: Box::new(node_of(*second)),
        },
    }
}

impl LayoutNodeState {
    /// The pane ids at the leaves, left to right.
    pub open spec fn leaves(self) -> Seq<PaneId>
        decreases self,
    {
        match self {
            LayoutNodeState::Leaf { pane_id } => seq![pane_id],
            LayoutNodeState::Split { first, second, .. } => first.leaves() + second.leaves(),
        }
    }
}

/// The saved form of a tab.
pub open spec fn tab_state_of(tab: Tab) -> TabState {
    TabState { name: tab.name, active_pane: tab.active_pane, layout: state_of(tab.root) }
}

/// Convert a layout tree into its saved form.
pub fn state_from_node(node: &LayoutNode) -> (s: LayoutNodeState)
    ensures
        s == state_of(*node),
    decreases node,
{
    match node {
        LayoutNode::Leaf { pane_id } => LayoutNodeState::Leaf { pane_id: *pane_id },
        LayoutNode::Split { direction, ratio, first, second } => LayoutNodeState::Split {
            direction: *direction,
            ratio: *ratio,
            first: Box::new(state_from_node(first)),
            second: Box::new(state_from_node(second)),
        },
    }
}

/// Rebuild the layout tree that a saved layout describes.
pub fn node_from_state(state: &LayoutNodeState) -> (n: LayoutNode)
    ensures
        n == node_of(*state),
    decreases state,
{
    match state {
        LayoutNodeState::Leaf { pane_id } => LayoutNode::Leaf { pane_id: *pane_id },
        LayoutNodeState::Split { direction, ratio, first, second } => LayoutNode::Split {
            direction: *direction,
            ratio: *ratio,
            first: Box::new(node_from_state(first)),
            second: Box::new(node_from_state(second)),
        },
    }
}

/// Snapshot a tab.
pub fn tab_state_from_tab(tab: &Tab) -> (s: TabState)
    ensures
        s == tab_state_of(*tab),
{
    TabState { name: tab.name.clone(), active_pane: tab.active_pane, layout: state_from_node(tab.layout()) }
}

impl<'a> From<&'a LayoutNode> for LayoutNodeState {
    fn from(node: &'a LayoutNode) -> (s: Self) {
        state_from_node(node)
    }
}

impl<'a> FromSpecImpl<&'a LayoutNode> for LayoutNodeState {
    open spec fn obeys_from_spec() -> bool {
        true
    }

    open spec fn from_spec(v: &'a LayoutNode) -> Self {
        state_of(*v)
    }
}

impl<'a> From<&'a LayoutNodeState> for LayoutNode {
    fn from(state: &'a LayoutNodeState) -> (n: Self) {
        node_from_state(state)
    }
}

impl<'a> FromSpecImpl<&'a LayoutNodeState> for LayoutNode {
    open spec fn obeys_from_spec() -> bool {
        true
    }

    open spec fn from_spec(v: &'a LayoutNodeState) -> Self {
        node_of(*v)
    }
}

impl<'a> From<&'a Tab> for TabState {
    fn from(tab: &'a Tab) -> (s: Self) {
        tab_state_from_tab(tab)
    }
}

impl<'a> FromSpecImpl<&'a Tab> for TabState {
    open spec fn obeys_from_spec() -> bool {
        true
    }

    open spec fn from_spec(v: &'a Tab) -> Self {
        tab_state_of(*v)
    }
}

/// Saving a layout and restoring it gives back the same tree.
pub proof fn lemma_node_state_round_trip(n: LayoutNode)
    ensures
        node_of(state_of(n)) == n,
    decreases n,
{
    match n {
        LayoutNode::Leaf { .. } => {},
        LayoutNode::Split { first, second, .. } => {
            lemma_node_state_round_trip(*first);
            lemma_node_state_round_trip(*second);
        },
    }
}

/// Restoring a saved layout and saving it again gives back the same saved layout.
pub proof fn lemma_state_node_round_trip(s: LayoutNodeState)
    ensures
        state_of(node_of(s)) == s,
    decreases s,
{
    match s {
        LayoutNodeState::Leaf { .. } => {},
        LayoutNodeState::Split { first, second, .. } => {
            lemma_state_node_round_trip(*first);
            lemma_state_node_round_trip(*second);
        },
    }
}

/// A saved layout has the panes of the tree it was taken from, in the same order.
pub proof fn lemma_state_leaves(n: LayoutNode)
    ensures
        state_of(n).leaves() == n.leaves(),
        node_of(state_of(n)).leaves() == n.leaves(),
    decreases n,
{
    lemma_node_state_round_trip(n);
    match n {
        LayoutNode::Leaf { .. } => {},
        LayoutNode::Split { first, second, .. } => {
            lemma_state_leaves(*first);
            lemma_state_leaves(*second);
        },
    }
}

} // verus!
