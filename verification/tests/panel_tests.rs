use clux::panel::{CoordPanel, PeerInfo, PeerMessage, TaskRequest, TaskStatus};

fn test_panel() -> CoordPanel {
    CoordPanel::new()
}

#[test]
fn panel_starts_hidden() {
    let panel = test_panel();
    assert!(!panel.visible);
    assert!(panel.render_text(60).is_empty());
}

#[test]
fn toggle_shows_and_hides() {
    let mut panel = test_panel();
    panel.toggle();
    assert!(panel.visible);
    assert!(!panel.render_text(60).is_empty());
    panel.toggle();
    assert!(!panel.visible);
    assert!(panel.render_text(60).is_empty());
}

#[test]
fn panel_shows_peers() {
    let mut panel = CoordPanel::new();
    if panel.toggle() {
        panel.refresh(
            vec![PeerInfo { peer_id: "p1".to_string(), pane_id: 0, status_text: Some("testing".to_string()) }],
            Vec::new(),
            Vec::new(),
        );
    }

    let text = panel.render_text(60).join("\n");
    assert!(text.contains("p1"));
    assert!(text.contains("testing"));
}

#[test]
fn panel_shows_tasks() {
    let task = TaskRequest {
        id: None,
        description: "run tests".into(),
        status: TaskStatus::Pending,
        requester: "a".into(),
        assignee: None,
        created_at: None,
    };
    let mut panel = CoordPanel::new();
    if panel.toggle() {
        panel.refresh(Vec::new(), Vec::new(), vec![task]);
    }

    let text = panel.render_text(60).join("\n");
    assert!(text.contains("run tests"));
    assert!(text.contains("pending"));
}

fn message(i: usize) -> PeerMessage {
    PeerMessage { from_peer: format!("p{i}"), to_peer: None, body: format!("m{i}") }
}

#[test]
fn refresh_keeps_last_fifty_messages() {
    let mut panel = CoordPanel::new();
    panel.refresh(Vec::new(), (0..60).map(message).collect(), Vec::new());
    assert_eq!(panel.data.recent_messages.len(), 50);
    assert_eq!(panel.data.recent_messages[0].body, "m10");
    assert_eq!(panel.data.recent_messages[49].body, "m59");
}

#[test]
fn render_exact_layout_when_empty() {
    let mut panel = CoordPanel::new();
    panel.toggle();
    let lines = panel.render_text(4);
    assert_eq!(lines.len(), 15);
    assert_eq!(lines[0], "┌────┐");
    assert_eq!(lines[1], "│Coordination Panel│");
    assert_eq!(lines[3], format!("│{:^12}│", "Peers"));
    assert_eq!(lines[5], format!("│{:<12}│", " No active peers"));
    assert_eq!(lines[14], "└────┘");
}

#[test]
fn render_shows_last_ten_messages_and_truncates() {
    let mut panel = CoordPanel::new();
    panel.toggle();
    panel.refresh(
        vec![PeerInfo { peer_id: "agent-with-a-very-long-name".to_string(), pane_id: 12, status_text: None }],
        (0..15).map(message).collect(),
        Vec::new(),
    );
    let lines = panel.render_text(10);
    // 30 bytes wide: the peer line is cut to 29 bytes and an ellipsis.
    assert_eq!(lines[5], "│ agent-with-a-very-long-name …│");
    let msgs: Vec<&String> = lines.iter().filter(|l| l.contains(" → all: ")).collect();
    assert_eq!(msgs.len(), 10);
    assert!(msgs[0].contains("p5 → all: m5"));
    assert!(msgs[9].contains("p14 → all: m14"));
}

#[test]
fn task_status_names() {
    assert_eq!(TaskStatus::Pending.as_str(), "pending");
    assert_eq!(TaskStatus::InProgress.as_str(), "in_progress");
    assert_eq!(TaskStatus::Failed.as_str(), "failed");
}
