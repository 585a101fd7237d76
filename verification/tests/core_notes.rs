use notes2::core_notes::events::{Message, SidebarAction};
use notes2::core_notes::state::AppState;
use notes2::core_notes::{add, placeholder};

#[test]
fn it_works() {
    assert_eq!(add(2, 2), 4);
}

#[test]
fn add_reaches_the_largest_sum() {
    assert_eq!(add(u64::MAX, 0), u64::MAX);
    assert_eq!(add(u64::MAX - 1, 1), u64::MAX);
    assert_eq!(add(0, 0), 0);
}

#[test]
fn vocabulary_is_comparable() {
    placeholder();
    notes2::markdown_renderer::placeholder();
    assert_eq!(SidebarAction::Toggle(true), SidebarAction::Toggle(true));
    assert_ne!(SidebarAction::Toggle(true), SidebarAction::Toggle(false));
    assert_ne!(AppState::Initializing, AppState::Running);
    assert_eq!(AppState::ShuttingDown, AppState::ShuttingDown);
    assert!(matches!(
        Message::SidebarAction(SidebarAction::Home).clone(),
        Message::SidebarAction(SidebarAction::Home)
    ));
    assert!(matches!(Message::ReloadSettings, Message::ReloadSettings));
}
