use auto_tabname::{
    prefix_from_config, required_permissions, subscriptions, tab_name, Event, EventKind, PaneInfo,
    Permission, TabNamer, TabPanes, DEFAULT_PREFIX_TEXT, PLACEHOLDER,
};
use std::collections::BTreeMap;

fn pane(is_focused: bool, title: &str) -> PaneInfo {
    PaneInfo { is_focused, title: title.to_string() }
}

fn tab(tab: u32, panes: Vec<PaneInfo>) -> TabPanes {
    TabPanes { tab, panes }
}

fn renames_of(namer: &mut TabNamer, event: &Event) -> Vec<(u32, String)> {
    let outcome = namer.update(event);
    assert!(outcome.render);
    outcome.renames.into_iter().map(|r| (r.tab, r.name)).collect()
}

fn config_with_prefix(prefix: &str) -> BTreeMap<String, String> {
    let mut config = BTreeMap::new();
    config.insert("prefix".to_string(), prefix.to_string());
    config
}

#[test]
fn default_prefix_names_bash() {
    let mut namer = TabNamer::load(&BTreeMap::new(), true);
    let event = Event::PaneUpdate(vec![tab(0, vec![pane(true, "bash")])]);
    assert_eq!(renames_of(&mut namer, &event), vec![(0, "> bash".to_string())]);
    assert_eq!(namer.last_name(0), Some("> bash".to_string()));
}

#[test]
fn custom_prefix_names_vim() {
    let mut namer = TabNamer::load(&config_with_prefix("* "), true);
    let event = Event::PaneUpdate(vec![tab(0, vec![pane(true, "vim")])]);
    assert_eq!(renames_of(&mut namer, &event), vec![(0, "* vim".to_string())]);
}

#[test]
fn two_tabs_renamed_independently() {
    let mut namer = TabNamer::load(&BTreeMap::new(), true);
    let event = Event::PaneUpdate(vec![
        tab(0, vec![pane(true, "a")]),
        tab(1, vec![pane(false, "x"), pane(true, "b")]),
    ]);
    assert_eq!(
        renames_of(&mut namer, &event),
        vec![(0, "> a".to_string()), (1, "> b".to_string())]
    );
    assert_eq!(namer.last_name(0), Some("> a".to_string()));
    assert_eq!(namer.last_name(1), Some("> b".to_string()));
}

#[test]
fn render_is_one_placeholder_for_any_size() {
    let namer = TabNamer::load(&BTreeMap::new(), true);
    for (rows, cols) in [(0, 0), (1, 80), (24, 80), (usize::MAX, usize::MAX)] {
        assert_eq!(namer.render(rows, cols), "\u{2800}");
    }
    assert_eq!(PLACEHOLDER.chars().count(), 1);
}

#[test]
fn unfocused_tab_not_renamed_and_keeps_name() {
    let mut namer = TabNamer::load(&BTreeMap::new(), true);
    let first = Event::PaneUpdate(vec![tab(2, vec![pane(true, "zsh")])]);
    assert_eq!(renames_of(&mut namer, &first), vec![(2, "> zsh".to_string())]);
    let unfocused = Event::PaneUpdate(vec![tab(2, vec![pane(false, "top"), pane(false, "htop")])]);
    assert_eq!(renames_of(&mut namer, &unfocused), vec![]);
    assert_eq!(namer.last_name(2), Some("> zsh".to_string()));
}

#[test]
fn unfocused_tab_without_history_stays_unknown() {
    let mut namer = TabNamer::load(&BTreeMap::new(), false);
    let event = Event::PaneUpdate(vec![tab(4, vec![pane(false, "top")]), tab(5, vec![])]);
    assert_eq!(renames_of(&mut namer, &event), vec![]);
    assert_eq!(namer.last_name(4), None);
    assert_eq!(namer.last_name(5), None);
}

#[test]
fn empty_title_not_renamed() {
    let mut namer = TabNamer::load(&BTreeMap::new(), false);
    let event = Event::PaneUpdate(vec![tab(0, vec![pane(true, ""), pane(true, "later")])]);
    assert_eq!(renames_of(&mut namer, &event), vec![]);
    assert_eq!(namer.last_name(0), None);
}

#[test]
fn rename_carries_prefix_then_title() {
    let mut namer = TabNamer::load(&config_with_prefix("[tab] "), false);
    let event = Event::PaneUpdate(vec![tab(7, vec![pane(false, "x"), pane(true, "cargo test")])]);
    assert_eq!(renames_of(&mut namer, &event), vec![(7, "[tab] cargo test".to_string())]);
}

#[test]
fn first_focused_pane_decides() {
    let mut namer = TabNamer::load(&BTreeMap::new(), true);
    let event = Event::PaneUpdate(vec![tab(0, vec![pane(true, "one"), pane(true, "two")])]);
    assert_eq!(renames_of(&mut namer, &event), vec![(0, "> one".to_string())]);
}

#[test]
fn repeated_snapshot_renamed_once_with_dedup() {
    let mut namer = TabNamer::load(&BTreeMap::new(), true);
    let event = Event::PaneUpdate(vec![tab(0, vec![pane(true, "bash")])]);
    let first = renames_of(&mut namer, &event);
    let second = renames_of(&mut namer, &event);
    assert_eq!(first.len() + second.len(), 1);
    assert_eq!(second, vec![]);
}

#[test]
fn repeated_snapshot_renamed_each_time_without_dedup() {
    let mut namer = TabNamer::load(&BTreeMap::new(), false);
    let event = Event::PaneUpdate(vec![tab(0, vec![pane(true, "bash")])]);
    assert_eq!(renames_of(&mut namer, &event), vec![(0, "> bash".to_string())]);
    assert_eq!(renames_of(&mut namer, &event), vec![(0, "> bash".to_string())]);
}

#[test]
fn changed_title_renamed_again_with_dedup() {
    let mut namer = TabNamer::load(&BTreeMap::new(), true);
    let bash = Event::PaneUpdate(vec![tab(0, vec![pane(true, "bash")])]);
    let vim = Event::PaneUpdate(vec![tab(0, vec![pane(true, "vim")])]);
    assert_eq!(renames_of(&mut namer, &bash), vec![(0, "> bash".to_string())]);
    assert_eq!(renames_of(&mut namer, &vim), vec![(0, "> vim".to_string())]);
    assert_eq!(renames_of(&mut namer, &bash), vec![(0, "> bash".to_string())]);
}

#[test]
fn other_event_changes_nothing_and_asks_no_render() {
    let mut namer = TabNamer::load(&BTreeMap::new(), true);
    let outcome = namer.update(&Event::Other);
    assert!(!outcome.render);
    assert!(outcome.renames.is_empty());
    assert_eq!(namer.last_name(0), None);
}

#[test]
fn empty_snapshot_still_asks_render() {
    let mut namer = TabNamer::load(&BTreeMap::new(), true);
    assert_eq!(renames_of(&mut namer, &Event::PaneUpdate(vec![])), vec![]);
}

#[test]
fn prefix_read_from_config() {
    assert_eq!(prefix_from_config(&config_with_prefix("* ")), "* ");
    assert_eq!(prefix_from_config(&config_with_prefix("")), "");
    let mut config = BTreeMap::new();
    config.insert("prefixes".to_string(), "no".to_string());
    assert_eq!(prefix_from_config(&config), DEFAULT_PREFIX_TEXT);
    assert_eq!(prefix_from_config(&BTreeMap::new()), "> ");
}

#[test]
fn load_keeps_mode_and_prefix() {
    let namer = TabNamer::load(&config_with_prefix("~"), false);
    assert_eq!(namer.prefix(), "~");
    assert!(!namer.dedup());
    let namer = TabNamer::new("#".to_string(), true);
    assert_eq!(namer.prefix(), "#");
    assert!(namer.dedup());
}

#[test]
fn tab_name_joins_prefix_and_title() {
    let prefix = "> ".to_string();
    assert_eq!(tab_name(&prefix, &vec![pane(false, "a"), pane(true, "b")]), Some("> b".to_string()));
    assert_eq!(tab_name(&prefix, &vec![pane(false, "a")]), None);
    assert_eq!(tab_name(&prefix, &vec![pane(true, "")]), None);
    assert_eq!(tab_name(&prefix, &vec![]), None);
}

#[test]
fn load_requests_permissions_and_pane_updates() {
    assert_eq!(
        required_permissions(),
        vec![Permission::ReadApplicationState, Permission::ChangeApplicationState]
    );
    assert_eq!(subscriptions(), vec![EventKind::PaneUpdate]);
}
