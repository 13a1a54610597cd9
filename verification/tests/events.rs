use carboxyl::events::{history_changed, load_status_actions, suppress, title_changed, DelegateEvent, LoadStatus, ScriptOutcome};

#[test]
fn untitled_pages_are_called_carboxyl() {
    assert!(matches!(title_changed(None), DelegateEvent::TitleChanged(t) if t == "Carboxyl"));
    assert!(matches!(title_changed(Some("Docs".to_string())), DelegateEvent::TitleChanged(t) if t == "Docs"));
}

#[test]
fn history_reports_current_entry_and_directions() {
    let entries = vec!["a:".to_string(), "b:".to_string(), "c:".to_string()];
    match history_changed(&entries, 1) {
        Some(DelegateEvent::HistoryChanged { url, can_go_back, can_go_forward }) => {
            assert_eq!(url, "b:");
            assert!(can_go_back && can_go_forward);
        },
        _ => panic!("expected a history event"),
    }
    match history_changed(&entries, 0) {
        Some(DelegateEvent::HistoryChanged { can_go_back, can_go_forward, .. }) => {
            assert!(!can_go_back && can_go_forward);
        },
        _ => panic!("expected a history event"),
    }
    assert!(history_changed(&entries, 3).is_none());
}

#[test]
fn load_status_triggers_text_work_only_with_native_text() {
    assert_eq!(load_status_actions(true, LoadStatus::HeadParsed), (true, false));
    assert_eq!(load_status_actions(true, LoadStatus::Complete), (false, true));
    assert_eq!(load_status_actions(true, LoadStatus::Started), (false, false));
    assert_eq!(load_status_actions(false, LoadStatus::Complete), (false, false));
}

#[test]
fn only_real_suppression_failures_are_reported() {
    assert!(suppress(ScriptOutcome::Failed));
    assert!(!suppress(ScriptOutcome::NotReady));
    assert!(!suppress(ScriptOutcome::Done));
}
