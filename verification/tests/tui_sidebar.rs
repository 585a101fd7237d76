use notes2::core_notes::events::{EventSink, Message, SidebarAction};
use notes2::tui_editor::preview::read_heading;
use notes2::tui_editor::sidebar::{perform, FileExplorer, Sidebar, SidebarEvent};
use std::cell::RefCell;

#[derive(Default)]
struct Recorder {
    calls: Vec<&'static str>,
}

impl FileExplorer for Recorder {
    fn go_home(&mut self) {
        self.calls.push("home");
    }
    fn new_note(&mut self) {
        self.calls.push("new");
    }
    fn search(&mut self) {
        self.calls.push("search");
    }
    fn go_back(&mut self) {
        self.calls.push("back");
    }
    fn settings(&mut self) {
        self.calls.push("settings");
    }
}

#[derive(Default)]
struct Sink {
    sent: RefCell<Vec<SidebarAction>>,
}

impl EventSink for Sink {
    fn send(&self, msg: Message) {
        if let Message::SidebarAction(action) = msg {
            self.sent.borrow_mut().push(action);
        }
    }
}

#[test]
fn new_sidebar_is_closed() {
    let sidebar = Sidebar::new(Some(300), 7);
    assert!(!sidebar.open);
    assert_eq!(sidebar.last_interaction, 7);
    assert_eq!(sidebar.auto_fold_ms, Some(300));
}

#[test]
fn keys_trigger_their_actions() {
    let mut sidebar = Sidebar::new(None, 0);
    let cases = [
        ('h', SidebarAction::Home),
        ('f', SidebarAction::Search),
        ('n', SidebarAction::Add),
        ('b', SidebarAction::Back),
        ('s', SidebarAction::Settings),
    ];
    for (key, action) in cases {
        assert_eq!(sidebar.handle_event(SidebarEvent::Char(key), 5), Some(action));
        assert!(!sidebar.open);
    }
    assert_eq!(sidebar.handle_event(SidebarEvent::Char('x'), 6), None);
    assert_eq!(sidebar.handle_event(SidebarEvent::Char('H'), 6), None);
    assert_eq!(sidebar.handle_event(SidebarEvent::Other, 9), None);
    assert_eq!(sidebar.last_interaction, 9);
}

#[test]
fn tab_flips_the_sidebar() {
    let mut sidebar = Sidebar::new(None, 0);
    assert_eq!(
        sidebar.handle_event(SidebarEvent::Tab, 1),
        Some(SidebarAction::Toggle(true))
    );
    assert!(sidebar.open);
    assert_eq!(
        sidebar.handle_event(SidebarEvent::Tab, 2),
        Some(SidebarAction::Toggle(false))
    );
    assert!(!sidebar.open);
    assert_eq!(sidebar.last_interaction, 2);
}

#[test]
fn idle_sidebar_folds() {
    let mut sidebar = Sidebar::new(Some(100), 0);
    sidebar.handle_event(SidebarEvent::Tab, 50);
    sidebar.tick(149);
    assert!(sidebar.open);
    sidebar.tick(150);
    assert!(!sidebar.open);
    sidebar.tick(1000);
    assert!(!sidebar.open);
}

#[test]
fn sidebar_without_auto_fold_stays_open() {
    let mut sidebar = Sidebar::new(None, 0);
    sidebar.handle_event(SidebarEvent::Tab, 0);
    sidebar.tick(u64::MAX);
    assert!(sidebar.open);
    let mut sidebar = Sidebar::new(Some(10), 100);
    sidebar.handle_event(SidebarEvent::Tab, 100);
    sidebar.tick(50);
    assert!(sidebar.open);
    let mut sidebar = Sidebar::new(Some(0), 100);
    sidebar.handle_event(SidebarEvent::Tab, 100);
    sidebar.tick(100);
    assert!(!sidebar.open);
}

#[test]
fn actions_reach_explorer_and_sink() {
    let sink = Sink::default();
    let mut explorer = Recorder::default();
    let actions = [
        SidebarAction::Home,
        SidebarAction::Search,
        SidebarAction::Add,
        SidebarAction::Back,
        SidebarAction::Settings,
        SidebarAction::Toggle(true),
    ];
    for action in actions {
        perform(action, &sink, &mut explorer);
    }
    assert_eq!(explorer.calls, vec!["home", "search", "new", "back", "settings"]);
    assert_eq!(sink.sent.borrow().as_slice(), &actions);
}

#[test]
fn heading_lines_are_read() {
    assert_eq!(read_heading("# Title"), Some((1, "Title")));
    assert_eq!(read_heading("  ###   Deep  "), Some((3, "Deep  ")));
    assert_eq!(read_heading("####### seven"), Some((7, "seven")));
    assert_eq!(read_heading("# "), Some((1, "")));
    assert_eq!(read_heading("## \u{e9}t\u{e9}"), Some((2, "\u{e9}t\u{e9}")));
}

#[test]
fn other_lines_are_not_headings() {
    assert_eq!(read_heading("Title"), None);
    assert_eq!(read_heading("#Title"), None);
    assert_eq!(read_heading("#"), None);
    assert_eq!(read_heading("#\tTitle"), None);
    assert_eq!(read_heading(""), None);
    assert_eq!(read_heading("a # b"), None);
}
