use discord_bot::owner::{
    admin, admin_shutdown_action, delete_msgs, shutdown_action, shutdown_reply, DeleteAction,
    DeleteEvent, DeleteState, ShutdownAction, ADMINISTRATOR,
};

#[test]
fn admin_needs_the_administrator_bit() {
    assert!(!admin(&vec![]));
    assert!(!admin(&vec![None, Some(0x7), Some(0x10)]));
    assert!(admin(&vec![None, Some(0x7), Some(ADMINISTRATOR | 0x1)]));
    assert!(admin(&vec![Some(u64::MAX)]));
}

#[test]
fn shutdown_decisions() {
    assert!(matches!(shutdown_action(true, true), ShutdownAction::Ignore));
    assert!(matches!(shutdown_action(false, true), ShutdownAction::ShutDown));
    assert!(matches!(shutdown_action(false, false), ShutdownAction::NoManager));
    assert!(matches!(admin_shutdown_action(false, true), ShutdownAction::Refuse));
    assert!(matches!(admin_shutdown_action(true, true), ShutdownAction::ShutDown));
    assert!(matches!(admin_shutdown_action(true, false), ShutdownAction::NoManager));
    assert_eq!(shutdown_reply(&ShutdownAction::Ignore), None);
    assert_eq!(shutdown_reply(&ShutdownAction::Refuse), Some("Ah... You don't get to tell me what to do."));
    assert_eq!(shutdown_reply(&ShutdownAction::ShutDown), Some("Shutting Down!"));
    assert_eq!(shutdown_reply(&ShutdownAction::NoManager), Some("No ShardManager found in context"));
}

fn texts(actions: &[DeleteAction]) -> Vec<String> {
    actions
        .iter()
        .map(|a| match a {
            DeleteAction::Reply(t) => format!("reply:{}", t),
            DeleteAction::Say(t) => format!("say:{}", t),
            DeleteAction::Fetch(n) => format!("fetch:{}", n),
            DeleteAction::DeleteFetched => "delete".to_string(),
        })
        .collect()
}

#[test]
fn non_admin_is_refused() {
    let (s, a) = delete_msgs(DeleteState::Start, &DeleteEvent::Invoked { is_admin: false, rest: "5".to_string() });
    assert!(matches!(s, DeleteState::Done));
    assert_eq!(texts(&a), vec!["reply:Ah... You don't get to tell me what to do."]);
}

#[test]
fn invalid_count_is_rejected() {
    let (s, a) = delete_msgs(DeleteState::Start, &DeleteEvent::Invoked { is_admin: true, rest: "five".to_string() });
    assert!(matches!(s, DeleteState::Done));
    assert_eq!(texts(&a), vec!["reply:Invalid number of messages to delete. Please enter a number."]);
}

#[test]
fn full_deletion() {
    let (s, a) = delete_msgs(DeleteState::Start, &DeleteEvent::Invoked { is_admin: true, rest: "5".to_string() });
    assert!(matches!(s, DeleteState::Fetching(5)));
    assert_eq!(texts(&a), vec!["fetch:5"]);
    let (s, a) = delete_msgs(s, &DeleteEvent::Fetched(Some(3)));
    assert!(matches!(s, DeleteState::Deleting(5)));
    assert_eq!(texts(&a), vec!["delete"]);
    let (s, a) = delete_msgs(s, &DeleteEvent::Deleted(true));
    assert!(matches!(s, DeleteState::Done));
    assert_eq!(texts(&a), vec!["say:Deleted 5 messages."]);
}

#[test]
fn failed_deletion_still_confirms() {
    let (s, a) = delete_msgs(DeleteState::Deleting(12), &DeleteEvent::Deleted(false));
    assert!(matches!(s, DeleteState::Done));
    assert_eq!(texts(&a), vec!["reply:Could not delete messages.", "say:Deleted 12 messages."]);
}

#[test]
fn nothing_to_delete() {
    let (s, a) = delete_msgs(DeleteState::Fetching(4), &DeleteEvent::Fetched(Some(0)));
    assert!(matches!(s, DeleteState::Done));
    assert_eq!(texts(&a), vec!["reply:Could not find messages."]);
    let (s, a) = delete_msgs(DeleteState::Fetching(4), &DeleteEvent::Fetched(None));
    assert!(matches!(s, DeleteState::Done));
    assert_eq!(texts(&a), vec!["reply:Could not find messages."]);
}

#[test]
fn unexpected_events_change_nothing() {
    let (s, a) = delete_msgs(DeleteState::Done, &DeleteEvent::Deleted(true));
    assert!(matches!(s, DeleteState::Done));
    assert!(a.is_empty());
    let (s, a) = delete_msgs(DeleteState::Start, &DeleteEvent::Fetched(Some(1)));
    assert!(matches!(s, DeleteState::Start));
    assert!(a.is_empty());
}
