//! Turning a saved session into a plan of what to recreate, with no side effects.
use vstd::prelude::*;
use crate::layout::{LayoutNode, PaneId};
use crate::state::{node_from_state, node_of, LayoutNodeState, PaneSnapshot, SessionState, TabState};

verus! {

/// Describes how to recreate one pane.
#[derive(Debug)]
pub struct PaneSpec {
    pub pane_id: PaneId,
    pub shell: String,
    pub cwd: Option<String>,
    pub cols: u16,
    pub rows: u16,
}

/// Describes how to recreate one tab.
#[derive(Debug)]
pub struct TabSpec {
    pub name: String,
    pub active_pane: PaneId,
    pub layout: LayoutNode,
}

/// A plan for restoring a full session without performing any I/O.
/// The caller spawns the terminals and builds the tabs and panes from it.
#[derive(Debug)]
pub struct RestorationPlan {
    pub session_name: String,
    pub active_tab: usize,
    pub tabs: Vec<TabSpec>,
    pub panes: Vec<PaneSpec>,
}

/// How a saved tab is recreated.
pub open spec fn tab_spec_of(t: TabState) -> TabSpec {
    TabSpec { name: t.name, active_pane: t.active_pane, layout: node_of(t.layout) }
}

/// How a saved pane is recreated.
pub open spec fn pane_spec_of(p: PaneSnapshot) -> PaneSpec {
    PaneSpec { pane_id: p.pane_id, shell: p.shell, cwd: p.cwd, cols: p.cols, rows: p.rows }
}

fn copy_cwd(cwd: &Option<String>) -> (c: Option<String>)
    ensures
        c == *cwd,
{
    match cwd {
        Some(path) => Some(path.clone()),
        None => None,
    }
}

/// Convert a saved session state into a restoration plan.
///
/// The plan describes *what* to create but does not perform side effects.
pub fn plan_restoration(state: &SessionState) -> (plan: RestorationPlan)
    ensures
        plan.session_name == state.name,
        plan.active_tab == state.active_tab,
        plan.tabs@ == state.tabs@.map_values(|t: TabState| tab_spec_of(t)),
        plan.panes@ == state.panes@.map_values(|p: PaneSnapshot| pane_spec_of(p)),
{
    let mut tabs: Vec<TabSpec> = Vec::new();
    let mut i: usize = 0;
    while i < state.tabs.len()
        invariant
            0 <= i <= state.tabs.len(),
            tabs@ == state.tabs@.take(i as int).map_values(|t: TabState| tab_spec_of(t)),
        decreases state.tabs.len() - i,
    {
        let tab_state = &state.tabs[i];
        tabs.push(
            TabSpec {
                name: tab_state.name.clone(),
                active_pane: tab_state.active_pane,
                layout: layout_node_from_state(&tab_state.layout),
            },
        );
        proof {
            assert(state.tabs@.take(i + 1) =~= state.tabs@.take(i as int).push(state.tabs@[i as int]));
        }
        i = i + 1;
    }
    proof {
        assert(state.tabs@.take(i as int) =~= state.tabs@);
    }
    let mut panes: Vec<PaneSpec> = Vec::new();
    let mut j: usize = 0;
    while j < state.panes.len()
        invariant
            0 <= j <= state.panes.len(),
            panes@ == state.panes@.take(j as int).map_values(|p: PaneSnapshot| pane_spec_of(p)),
        decreases state.panes.len() - j,
    {
        let ps = &state.panes[j];
        panes.push(
            PaneSpec {
                pane_id: ps.pane_id,
                shell: ps.shell.clone(),
                cwd: copy_cwd(&ps.cwd),
                cols: ps.cols,
                rows: ps.rows,
            },
        );
        proof {
            assert(state.panes@.take(j + 1) =~= state.panes@.take(j as int).push(state.panes@[j as int]));
        }
        j = j + 1;
    }
    proof {
        assert(state.panes@.take(j as int) =~= state.panes@);
    }
    RestorationPlan { session_name: state.name.clone(), active_tab: state.active_tab, tabs, panes }
}

fn layout_node_from_state(state: &LayoutNodeState) -> (n: LayoutNode)
    ensures
        n == node_of(*state),
{
    node_from_state(state)
}

/// Collect all pane IDs referenced in a layout tree.
pub fn collect_pane_ids(layout: &LayoutNodeState) -> (ids: Vec<PaneId>)
    ensures
        ids@ == layout.leaves(),
{
    let mut ids = Vec::new();
    collect_pane_ids_inner(layout, &mut ids);
    proof {
        assert(ids@ =~= layout.leaves());
    }
    ids
}

fn collect_pane_ids_inner(layout: &LayoutNodeState, ids: &mut Vec<PaneId>)
    ensures
        final(ids)@ == old(ids)@ + layout.leaves(),
    decreases layout,
{
    match layout {
        LayoutNodeState::Leaf { pane_id } => {
            ids.push(*pane_id);
            proof {
                assert(final(ids)@ =~= old(ids)@ + layout.leaves());
            }
        },
        LayoutNodeState::Split { first, second, .. } => {
            collect_pane_ids_inner(first, ids);
            collect_pane_ids_inner(second, ids);
            proof {
                assert(ids@ =~= old(ids)@ + layout.leaves());
            }
        },
    }
}

} // verus!
