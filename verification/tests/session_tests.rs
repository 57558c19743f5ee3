use clux::layout::{Direction, LayoutNode};
use clux::restore::{collect_pane_ids, plan_restoration};
use clux::state::{node_from_state, state_from_node, LayoutNodeState, PaneSnapshot, SessionState, TabState};
use clux::store::{session_file_name, session_names};
use clux::tab::Tab;

fn half() -> u32 {
    0.5f32.to_bits()
}

#[test]
fn layout_node_roundtrip() {
    let node = LayoutNode::Split {
        direction: Direction::Vertical,
        ratio: half(),
        first: Box::new(LayoutNode::Leaf { pane_id: 0 }),
        second: Box::new(LayoutNode::Leaf { pane_id: 1 }),
    };
    let state = LayoutNodeState::from(&node);
    let restored = LayoutNode::from(&state);

    // The restored tree prints exactly as the original.
    assert_eq!(format!("{node:?}"), format!("{restored:?}"));
}

#[test]
fn plan_restoration_produces_correct_plan() {
    let state = SessionState {
        name: "test".to_string(),
        active_tab: 0,
        tabs: vec![TabState {
            name: "main".to_string(),
            active_pane: 1,
            layout: LayoutNodeState::Split {
                direction: Direction::Vertical,
                ratio: half(),
                first: Box::new(LayoutNodeState::Leaf { pane_id: 0 }),
                second: Box::new(LayoutNodeState::Leaf { pane_id: 1 }),
            },
        }],
        panes: vec![
            PaneSnapshot {
                pane_id: 0,
                cwd: Some("C:\\project".to_string()),
                shell: "pwsh.exe".to_string(),
                cols: 80,
                rows: 24,
            },
            PaneSnapshot { pane_id: 1, cwd: None, shell: "pwsh.exe".to_string(), cols: 80, rows: 24 },
        ],
    };

    let plan = plan_restoration(&state);
    assert_eq!(plan.session_name, "test");
    assert_eq!(plan.active_tab, 0);
    assert_eq!(plan.tabs.len(), 1);
    assert_eq!(plan.panes.len(), 2);
    assert_eq!(plan.tabs[0].active_pane, 1);
}

#[test]
fn collect_pane_ids_finds_all() {
    let layout = LayoutNodeState::Split {
        direction: Direction::Vertical,
        ratio: half(),
        first: Box::new(LayoutNodeState::Leaf { pane_id: 0 }),
        second: Box::new(LayoutNodeState::Split {
            direction: Direction::Horizontal,
            ratio: half(),
            first: Box::new(LayoutNodeState::Leaf { pane_id: 1 }),
            second: Box::new(LayoutNodeState::Leaf { pane_id: 2 }),
        }),
    };
    let ids = collect_pane_ids(&layout);
    assert_eq!(ids, vec![0, 1, 2]);
}

#[test]
fn plan_copies_every_field() {
    let state = SessionState {
        name: "s".to_string(),
        active_tab: 1,
        tabs: vec![
            TabState { name: "a".to_string(), active_pane: 0, layout: LayoutNodeState::Leaf { pane_id: 0 } },
            TabState { name: "b".to_string(), active_pane: 4, layout: LayoutNodeState::Leaf { pane_id: 4 } },
        ],
        panes: vec![PaneSnapshot { pane_id: 4, cwd: Some("/tmp".to_string()), shell: "bash".to_string(), cols: 100, rows: 40 }],
    };
    let plan = plan_restoration(&state);
    assert_eq!(plan.active_tab, 1);
    assert_eq!(plan.tabs[1].name, "b");
    assert_eq!(plan.tabs[1].layout.all_pane_ids(), vec![4]);
    assert_eq!(plan.panes[0].pane_id, 4);
    assert_eq!(plan.panes[0].cwd.as_deref(), Some("/tmp"));
    assert_eq!(plan.panes[0].shell, "bash");
    assert_eq!((plan.panes[0].cols, plan.panes[0].rows), (100, 40));
}

#[test]
fn tab_snapshot_and_restore_keep_panes() {
    let mut tab = Tab::new("work");
    tab.split_active(Direction::Vertical, half());
    tab.split_active(Direction::Horizontal, half());
    let saved = TabState::from(&tab);
    assert_eq!(saved.name, "work");
    assert_eq!(saved.active_pane, 2);
    assert_eq!(collect_pane_ids(&saved.layout), tab.layout().all_pane_ids());
    let back = node_from_state(&saved.layout);
    assert_eq!(format!("{back:?}"), format!("{:?}", tab.layout()));
    let again = state_from_node(&back);
    assert_eq!(format!("{again:?}"), format!("{:?}", saved.layout));
}

#[test]
fn session_file_is_named_after_session() {
    assert_eq!(session_file_name("default"), "default.json");
    assert_eq!(session_file_name(""), ".json");
}

#[test]
fn session_names_keeps_json_stems_sorted() {
    let files: Vec<String> = vec![
        "work.json".to_string(),
        "notes.txt".to_string(),
        ".json".to_string(),
        "alpha.json".to_string(),
        "archive.json.bak".to_string(),
        "a.b.json".to_string(),
        "Zed.json".to_string(),
        "json".to_string(),
    ];
    assert_eq!(
        session_names(&files),
        vec!["Zed".to_string(), "a.b".to_string(), "alpha".to_string(), "work".to_string()]
    );
}

#[test]
fn session_names_lists_a_saved_file_name() {
    let files = vec![session_file_name("my-session")];
    assert_eq!(session_names(&files), vec!["my-session".to_string()]);
    assert!(session_names(&Vec::new()).is_empty());
}
