use notes2::clock::elapsed_since;
use notes2::config::watch::{notify_change, Debounce, EventBus, Message, DEBOUNCE_MS};
use notes2::config::{front_matter_of, placeholder, Settings};
use std::cell::Cell;

struct CountingBus {
    published: Cell<u32>,
}

impl EventBus for CountingBus {
    fn publish(&self, msg: Message) {
        assert!(matches!(msg, Message::ReloadSettings));
        self.published.set(self.published.get() + 1);
    }
}

#[test]
fn front_matter_stands_between_the_markers() {
    assert_eq!(
        front_matter_of("---\nsidebar_auto_fold_ms: 42\n---\nbody\n"),
        "\nsidebar_auto_fold_ms: 42\n"
    );
    assert_eq!(front_matter_of("---a---b---c"), "a");
    assert_eq!(front_matter_of("------"), "");
}

#[test]
fn front_matter_without_a_second_marker_runs_to_the_end() {
    assert_eq!(front_matter_of("---\nkey: 1\n"), "\nkey: 1\n");
    assert_eq!(front_matter_of("---"), "");
    assert_eq!(front_matter_of("---x--"), "x--");
}

#[test]
fn text_without_a_first_marker_is_front_matter_as_a_whole() {
    assert_eq!(front_matter_of("key: 1\n---\n"), "key: 1\n---\n");
    assert_eq!(front_matter_of(""), "");
    assert_eq!(front_matter_of("--"), "--");
    assert_eq!(front_matter_of(" ---a---"), " ---a---");
}

#[test]
fn settings_default_to_no_auto_fold() {
    assert_eq!(Settings::default().sidebar_auto_fold_ms, None);
    placeholder();
}

#[test]
fn first_change_reloads() {
    let mut debounce = Debounce::new();
    assert!(debounce.last.is_none());
    assert!(debounce.on_change(0).is_some());
    assert_eq!(debounce.last, Some(0));
}

#[test]
fn changes_within_the_window_are_coalesced() {
    assert_eq!(DEBOUNCE_MS, 500);
    let mut debounce = Debounce::new();
    assert!(debounce.on_change(1000).is_some());
    assert!(debounce.on_change(1001).is_none());
    assert!(debounce.on_change(1499).is_none());
    assert_eq!(debounce.last, Some(1000));
    assert!(debounce.on_change(1500).is_some());
    assert_eq!(debounce.last, Some(1500));
    assert!(debounce.on_change(900).is_none());
    assert_eq!(debounce.last, Some(1500));
}

#[test]
fn reloads_are_published_on_the_bus() {
    let bus = CountingBus {
        published: Cell::new(0),
    };
    let mut debounce = Debounce::new();
    notify_change(&mut debounce, 10, &bus);
    notify_change(&mut debounce, 20, &bus);
    notify_change(&mut debounce, 509, &bus);
    notify_change(&mut debounce, 510, &bus);
    assert_eq!(bus.published.get(), 2);
    assert_eq!(debounce.last, Some(510));
}

#[test]
fn elapsed_time_never_runs_backward() {
    assert_eq!(elapsed_since(10, 25), 15);
    assert_eq!(elapsed_since(25, 25), 0);
    assert_eq!(elapsed_since(25, 10), 0);
    assert_eq!(elapsed_since(0, u64::MAX), u64::MAX);
}

#[test]
fn parses_front_matter_yaml() {
    let content = "---\nsidebar_auto_fold_ms: 42\n---\nbody\n";
    let value: serde_yaml::Value = serde_yaml::from_str(front_matter_of(content)).unwrap();
    assert_eq!(
        value.get("sidebar_auto_fold_ms").and_then(|v| v.as_u64()),
        Some(42)
    );
}
