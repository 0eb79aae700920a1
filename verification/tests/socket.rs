use zmux::session_tree::{parse_session_tree_json, SessionTreeEntry};
use zmux::socket::{exit_frame, FrameSlot};

#[test]
fn frame_slot_publishes_frame_and_generation_together() {
    let mut slot = FrameSlot { frame: None, counter: 7 };
    slot.publish(exit_frame());

    let (frame, counter) = slot.snapshot();
    assert_eq!(counter, 8);
    assert!(frame.is_some_and(|frame| frame.exit));
}

#[test]
fn session_tree_parser_keeps_pane_titles_and_accepts_legacy_payloads() {
    let titled = parse_session_tree_json(
        r#"[{"type":"pane","session_name":"main","window_index":0,"pane_id":7,"index":0,"title":"editor","is_active":true}]"#,
    );
    assert!(matches!(
        &titled[0],
        SessionTreeEntry::Pane { title, .. } if title == "editor"
    ));

    let legacy = parse_session_tree_json(
        r#"[{"type":"pane","session_name":"main","window_index":0,"pane_id":7,"index":0,"is_active":true}]"#,
    );
    assert!(matches!(
        &legacy[0],
        SessionTreeEntry::Pane { title, .. } if title.is_empty()
    ));
}
