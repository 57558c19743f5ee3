use clux::layout::{Direction, LayoutNode};
use clux::tab::Tab;

fn half() -> u32 {
    0.5f32.to_bits()
}

#[test]
fn split_pane_creates_correct_tree() {
    let mut node = LayoutNode::Leaf { pane_id: 0 };
    assert!(node.split_pane(0, 1, Direction::Vertical, half()));
    assert_eq!(node.pane_count(), 2);
    assert!(node.contains_pane(0));
    assert!(node.contains_pane(1));
}

#[test]
fn remove_pane_promotes_sibling() {
    let mut node = LayoutNode::Leaf { pane_id: 0 };
    node.split_pane(0, 1, Direction::Vertical, half());
    assert!(node.remove_pane(0));
    assert_eq!(node.pane_count(), 1);
    assert!(node.contains_pane(1));
    assert!(!node.contains_pane(0));
}

#[test]
fn remove_last_pane_returns_false() {
    let mut node = LayoutNode::Leaf { pane_id: 0 };
    assert!(!node.remove_pane(0));
}

#[test]
fn all_pane_ids_order() {
    let mut node = LayoutNode::Leaf { pane_id: 0 };
    node.split_pane(0, 1, Direction::Vertical, half());
    node.split_pane(1, 2, Direction::Horizontal, half());
    assert_eq!(node.all_pane_ids(), vec![0, 1, 2]);
}

#[test]
fn new_tab_has_one_pane() {
    let tab = Tab::new("test");
    assert_eq!(tab.pane_count(), 1);
    assert_eq!(tab.active_pane, 0);
}

#[test]
fn split_active_increases_pane_count() {
    let mut tab = Tab::new("test");
    let new_id = tab.split_active(Direction::Vertical, half());
    assert_eq!(tab.pane_count(), 2);
    assert_eq!(tab.active_pane, new_id);
}

#[test]
fn close_pane_decreases_count() {
    let mut tab = Tab::new("test");
    tab.split_active(Direction::Vertical, half());
    assert_eq!(tab.pane_count(), 2);
    assert!(tab.close_pane(1));
    assert_eq!(tab.pane_count(), 1);
}

#[test]
fn close_pane_switches_active() {
    let mut tab = Tab::new("test");
    tab.split_active(Direction::Vertical, half());
    // Active is pane 1 (the new pane).
    assert_eq!(tab.active_pane, 1);
    tab.close_pane(1);
    // Should switch to pane 0.
    assert_eq!(tab.active_pane, 0);
}

#[test]
fn cycle_focus_wraps_around() {
    let mut tab = Tab::new("test");
    tab.split_active(Direction::Vertical, half());
    tab.split_active(Direction::Horizontal, half());
    // We have panes 0, 1, 2. Active is 2.
    tab.active_pane = 0;
    tab.cycle_focus(true);
    assert_eq!(tab.active_pane, 1);
    tab.cycle_focus(true);
    assert_eq!(tab.active_pane, 2);
    tab.cycle_focus(true);
    assert_eq!(tab.active_pane, 0); // wrapped around
    tab.cycle_focus(false);
    assert_eq!(tab.active_pane, 2); // backwards wrap
}

#[test]
fn split_inserts_new_pane_after_target() {
    let mut node = LayoutNode::Leaf { pane_id: 0 };
    node.split_pane(0, 1, Direction::Vertical, half());
    node.split_pane(0, 2, Direction::Horizontal, half());
    assert_eq!(node.all_pane_ids(), vec![0, 2, 1]);
    assert!(!node.split_pane(9, 3, Direction::Vertical, half()));
    assert_eq!(node.all_pane_ids(), vec![0, 2, 1]);
}

#[test]
fn remove_drops_only_that_pane() {
    let mut node = LayoutNode::Leaf { pane_id: 0 };
    node.split_pane(0, 1, Direction::Vertical, half());
    node.split_pane(1, 2, Direction::Horizontal, half());
    node.split_pane(0, 3, Direction::Horizontal, half());
    assert_eq!(node.all_pane_ids(), vec![0, 3, 1, 2]);
    assert!(node.remove_pane(1));
    assert_eq!(node.all_pane_ids(), vec![0, 3, 2]);
    assert!(!node.remove_pane(7));
    assert_eq!(node.all_pane_ids(), vec![0, 3, 2]);
}

#[test]
fn cycle_forward_then_back_returns() {
    let mut tab = Tab::new("t");
    tab.split_active(Direction::Vertical, half());
    tab.split_active(Direction::Vertical, half());
    tab.split_active(Direction::Horizontal, half());
    for start in [0, 1, 2, 3] {
        tab.active_pane = start;
        tab.cycle_focus(true);
        tab.cycle_focus(false);
        assert_eq!(tab.active_pane, start);
        tab.cycle_focus(false);
        tab.cycle_focus(true);
        assert_eq!(tab.active_pane, start);
    }
}

#[test]
fn cycle_from_unknown_pane_starts_at_first() {
    let mut tab = Tab::new("t");
    tab.split_active(Direction::Vertical, half());
    tab.active_pane = 42;
    tab.cycle_focus(true);
    assert_eq!(tab.active_pane, 1);
}

#[test]
fn close_unknown_pane_changes_nothing() {
    let mut tab = Tab::new("t");
    tab.split_active(Direction::Vertical, half());
    assert!(!tab.close_pane(5));
    assert_eq!(tab.pane_count(), 2);
    assert_eq!(tab.active_pane, 1);
}

#[test]
fn with_pane_id_and_split_with_id() {
    let mut tab = Tab::with_pane_id("w", 7);
    assert_eq!(tab.active_pane, 7);
    assert_eq!(tab.next_pane_id, 8);
    tab.split_active_with_id(Direction::Vertical, half(), 20);
    assert_eq!(tab.active_pane, 20);
    assert_eq!(tab.next_pane_id, 21);
    assert_eq!(tab.layout().all_pane_ids(), vec![7, 20]);
}

#[test]
fn focus_pane_reports_change() {
    let mut tab = Tab::new("t");
    tab.split_active(Direction::Vertical, half());
    assert!(tab.focus_pane(0));
    assert_eq!(tab.active_pane, 0);
    assert!(!tab.focus_pane(0));
}

#[test]
fn split_then_remove_restores_tree() {
    let mut node = LayoutNode::Leaf { pane_id: 0 };
    node.split_pane(0, 1, Direction::Vertical, half());
    node.split_pane(1, 2, Direction::Horizontal, half());
    let before = format!("{node:?}");
    assert!(node.split_pane(1, 9, Direction::Vertical, half()));
    assert!(node.remove_pane(9));
    assert_eq!(format!("{node:?}"), before);
}
