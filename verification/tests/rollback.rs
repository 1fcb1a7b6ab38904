use excel_agent::models::{ActionStatus, ChatMessage};
use excel_agent::rollback::cascade_invalidate;

fn operation(id: usize, status: ActionStatus) -> ChatMessage {
    let mut message = ChatMessage::new(id, "log", false);
    message.status = status;
    message.pending_code = Some("code".to_string());
    message
}

#[test]
fn cascade_hits_later_successes_and_spares_failures() {
    let mut messages = vec![
        operation(0, ActionStatus::Success),
        operation(1, ActionStatus::Success),
        operation(2, ActionStatus::Error("boom".to_string())),
    ];
    let hit = cascade_invalidate(&mut messages, 0);
    assert_eq!(hit, vec![1]);
    assert_eq!(messages[0].status, ActionStatus::Success);
    assert_eq!(messages[0].text, "log");
    assert_eq!(messages[1].status, ActionStatus::Undone);
    assert_eq!(messages[1].text, "log\n(因回溯已失效)");
    assert_eq!(messages[2].status, ActionStatus::Error("boom".to_string()));
    assert_eq!(messages[2].text, "log");
}

#[test]
fn cascade_hits_a_running_operation() {
    let mut messages = vec![
        operation(0, ActionStatus::Success),
        operation(1, ActionStatus::Running),
        operation(2, ActionStatus::Success),
    ];
    let hit = cascade_invalidate(&mut messages, 0);
    assert_eq!(hit, vec![1, 2]);
    assert_eq!(messages[1].status, ActionStatus::Undone);
    assert_eq!(messages[2].status, ActionStatus::Undone);
}

#[test]
fn cascade_leaves_terminal_and_idle_messages() {
    let mut messages = vec![
        operation(0, ActionStatus::Success),
        operation(1, ActionStatus::Cancelled),
        operation(2, ActionStatus::Undone),
        operation(3, ActionStatus::WaitingConfirmation),
        ChatMessage::new(4, "hello", true),
    ];
    let before = messages.clone();
    let hit = cascade_invalidate(&mut messages, 0);
    assert!(hit.is_empty());
    assert_eq!(messages, before);
}

#[test]
fn cascade_leaves_earlier_operations() {
    let mut messages = vec![
        operation(0, ActionStatus::Success),
        operation(1, ActionStatus::Success),
        operation(2, ActionStatus::Success),
    ];
    let hit = cascade_invalidate(&mut messages, 1);
    assert_eq!(hit, vec![2]);
    assert_eq!(messages[0].status, ActionStatus::Success);
    assert_eq!(messages[1].status, ActionStatus::Success);
    assert_eq!(messages[2].status, ActionStatus::Undone);
}

#[test]
fn cascade_on_no_messages() {
    let mut messages: Vec<ChatMessage> = Vec::new();
    assert!(cascade_invalidate(&mut messages, 0).is_empty());
}
