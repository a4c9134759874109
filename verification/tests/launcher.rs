use popmax::components::list::ToggleFavoriteEvent;
use popmax::launcher::{ConfirmAction, LauncherState};
use popmax::scanner::ScanEntry;
use popmax::types::{Item, Kind, RunCommand};

fn app(id: &str, name: &str) -> Item {
    Item {
        id: id.to_string(),
        name: name.to_string(),
        kind: Kind::App,
        icon_path: Some("old.png".to_string()),
        running_command: Some(RunCommand {
            command: format!("{}.exe", name),
            args: vec!["--flag".to_string()],
        }),
    }
}

fn state(favorites: Vec<Item>) -> LauncherState {
    let entries: Vec<ScanEntry> = ["Firefox", "Notepad", "Paint"]
        .iter()
        .enumerate()
        .map(|(i, n)| ScanEntry {
            item: app(&i.to_string(), n),
            icon_location: format!("{}.exe", n),
            icon_index: 0,
        })
        .collect();
    LauncherState::new(&entries, favorites)
}

#[test]
fn new_state_is_visible_and_lists_items_without_icons() {
    let s = state(vec![]);
    assert!(s.is_visible);
    assert_eq!(s.list.items.len(), 3);
    assert!(s.list.items.iter().all(|i| i.icon_path.is_none()));
    assert_eq!(s.list.selected_index, None);
}

#[test]
fn confirm_without_selection_opens_bang_search_and_hides() {
    let mut s = state(vec![]);
    match s.confirm("!x verus") {
        ConfirmAction::OpenUrl(url) => assert_eq!(url, "https://x.com/search?q=verus"),
        _ => panic!("expected a URL"),
    }
    assert!(!s.is_visible);
}

#[test]
fn confirm_without_selection_and_no_bang_does_nothing() {
    let mut s = state(vec![]);
    assert!(matches!(s.confirm("notepad"), ConfirmAction::Nothing));
    assert!(s.is_visible);
}

#[test]
fn confirm_launches_selected_app_and_hides_only_if_started() {
    let mut s = state(vec![]);
    s.select_next();
    s.select_next();
    match s.confirm("") {
        ConfirmAction::Launch(cmd) => {
            assert_eq!(cmd.command, "Notepad.exe");
            assert_eq!(cmd.args, vec!["--flag".to_string()]);
        }
        _ => panic!("expected a launch"),
    }
    assert!(s.is_visible);
    s.finish_launch(false);
    assert!(s.is_visible);
    s.finish_launch(true);
    assert!(!s.is_visible);
}

#[test]
fn confirm_on_search_row_opens_its_url() {
    let mut s = state(vec![]);
    s.update_filtered("!gh verus");
    match s.confirm("!gh verus") {
        ConfirmAction::OpenUrl(url) => assert_eq!(url, "https://github.com/search?q=verus"),
        _ => panic!("expected a URL"),
    }
    assert!(!s.is_visible);
}

#[test]
fn cancel_and_hotkey_toggle_visibility() {
    let mut s = state(vec![]);
    assert!(!s.toggle_visibility());
    assert!(s.toggle_visibility());
    s.cancel();
    assert!(!s.is_visible);
}

#[test]
fn toggle_favorite_pins_and_unpins_selected() {
    let mut s = state(vec![]);
    assert!(!s.toggle_favorite());
    s.select_next();
    assert!(s.toggle_favorite());
    assert_eq!(s.fav.favorites.len(), 1);
    assert_eq!(s.list.favorite_ids, vec!["0".to_string()]);
    assert!(s.toggle_favorite());
    assert!(s.fav.favorites.is_empty());
    assert!(s.list.favorite_ids.is_empty());
}

#[test]
fn star_button_toggles_row() {
    let mut s = state(vec![]);
    assert!(s.on_toggle_favorite_event(ToggleFavoriteEvent(2)));
    assert_eq!(s.fav.favorites[0].name, "Paint");
    assert_eq!(s.list.favorite_ids, vec!["2".to_string()]);
    assert!(!s.on_toggle_favorite_event(ToggleFavoriteEvent(7)));
    assert!(s.on_toggle_favorite_event(ToggleFavoriteEvent(2)));
    assert!(s.fav.favorites.is_empty());
}

#[test]
fn favorite_keys_launch_slots_one_to_six() {
    let s = state(vec![app("a", "Alpha"), app("b", "Beta")]);
    assert_eq!(s.favorite_launch_for_key(true, "1").unwrap().command, "Alpha.exe");
    assert_eq!(s.favorite_launch_for_key(true, "2").unwrap().command, "Beta.exe");
    assert!(s.favorite_launch_for_key(true, "3").is_none());
    assert!(s.favorite_launch_for_key(false, "1").is_none());
    assert!(s.favorite_launch_for_key(true, "0").is_none());
    assert!(s.favorite_launch_for_key(true, "7").is_none());
    assert!(s.favorite_launch_for_key(true, "").is_none());
}

#[test]
fn icons_reach_list_and_favorites() {
    let mut s = state(vec![app("1", "Notepad")]);
    let changed = s.apply_icons(&[("1".to_string(), Some("n.png".to_string()))]);
    assert!(changed);
    assert_eq!(s.list.items[1].icon_path.as_deref(), Some("n.png"));
    assert_eq!(s.fav.favorites[0].icon_path.as_deref(), Some("n.png"));
    assert!(!s.apply_icons(&[]));
}

#[test]
fn get_item_and_launch_command() {
    let s = state(vec![]);
    assert_eq!(s.get_item(1).unwrap().name, "Notepad");
    assert!(s.get_item(3).is_none());
    let mut search = app("s", "web");
    search.running_command = None;
    assert!(LauncherState::launch_command(&search).is_none());
}

#[test]
fn clicking_a_row_selects_and_acts_on_it() {
    let mut s = state(vec![]);
    match s.click_row(2) {
        ConfirmAction::Launch(cmd) => assert_eq!(cmd.command, "Paint.exe"),
        _ => panic!("expected a launch"),
    }
    assert_eq!(s.list.selected_index, Some(2));
    assert!(s.is_visible);
    s.update_filtered("!m flexbox");
    match s.click_row(0) {
        ConfirmAction::OpenUrl(url) => {
            assert_eq!(url, "https://developer.mozilla.org/en-US/search?q=flexbox")
        }
        _ => panic!("expected a URL"),
    }
}

#[test]
fn remove_by_id_then_sync_clears_marks() {
    let mut s = state(vec![]);
    assert!(s.add_to_favorite_by_index(0));
    assert!(!s.add_to_favorite_by_index(0));
    assert!(!s.add_to_favorite_by_index(9));
    s.sync_favorite_ids();
    assert_eq!(s.list.favorite_ids, vec!["0".to_string()]);
    s.remove_from_favorite_by_id("0");
    s.sync_favorite_ids();
    assert!(s.list.favorite_ids.is_empty());
}

#[test]
fn stale_selection_does_nothing() {
    let mut s = state(vec![]);
    s.list.selected_index = Some(10);
    assert!(matches!(s.confirm(""), ConfirmAction::Nothing));
    assert!(!s.toggle_favorite());
    assert!(s.fav.favorites.is_empty());
    assert!(matches!(s.click_row(5), ConfirmAction::Nothing));
    assert_eq!(s.list.selected_index, Some(5));
}

#[test]
fn favorite_clicks_launch_their_slot() {
    let s = state(vec![app("a", "Alpha"), app("b", "Beta")]);
    assert_eq!(s.favorite_launch_for_click(0).unwrap().command, "Alpha.exe");
    assert_eq!(s.favorite_launch_for_click(1).unwrap().args, vec!["--flag".to_string()]);
    assert!(s.favorite_launch_for_click(2).is_none());
}

#[test]
fn hotkey_presses_alternate_visibility() {
    let mut s = state(vec![]);
    for k in 1..=7 {
        let shown = s.toggle_visibility();
        assert_eq!(shown, k % 2 == 0);
        assert_eq!(s.is_visible, k % 2 == 0);
    }
}
