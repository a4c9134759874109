use popmax::components::fav::Fav;
use popmax::components::list::{LauncherList, ToggleFavoriteEvent};
use popmax::components::search::SearchEngine;
use popmax::types::{Item, Kind, RunCommand};

fn app(id: &str, name: &str) -> Item {
    Item {
        id: id.to_string(),
        name: name.to_string(),
        kind: Kind::App,
        icon_path: None,
        running_command: Some(RunCommand {
            command: format!("C:\\{}.exe", name),
            args: vec![],
        }),
    }
}

fn names(items: &[Item]) -> Vec<String> {
    items.iter().map(|i| i.name.clone()).collect()
}

fn sample() -> Vec<Item> {
    vec![app("1", "Firefox"), app("2", "Notepad"), app("3", "Visual Studio Code")]
}

#[test]
fn new_list_shows_everything_unselected() {
    let list = LauncherList::new(sample());
    assert_eq!(names(&list.filtered), vec!["Firefox", "Notepad", "Visual Studio Code"]);
    assert_eq!(list.selected_index, None);
    assert!(list.favorite_ids.is_empty());
}

#[test]
fn blank_input_shows_all_items_and_selects_first() {
    let mut list = LauncherList::new(sample());
    list.update_filtered("   ");
    assert_eq!(list.filtered.len(), 3);
    assert_eq!(list.selected_index, Some(0));
}

#[test]
fn bang_input_shows_one_search_row() {
    let mut list = LauncherList::new(sample());
    list.update_filtered("!g rust async");
    assert_eq!(list.filtered.len(), 1);
    let row = &list.filtered[0];
    assert_eq!(row.kind, Kind::Search);
    assert_eq!(row.name, "Search Google for: rust async");
    assert_eq!(row.id, "https://google.com/search?q=rust%20async");
    assert!(row.running_command.is_none());
    assert_eq!(list.selected_index, Some(0));
}

#[test]
fn fuzzy_input_shows_matching_items() {
    let mut list = LauncherList::new(sample());
    list.update_filtered("fire");
    assert_eq!(names(&list.filtered), vec!["Firefox"]);
    assert_eq!(list.selected_index, Some(0));
    list.update_filtered("zzzzqqq");
    assert!(list.filtered.is_empty());
    assert_eq!(list.selected_index, None);
}

#[test]
fn selection_wraps_both_ways() {
    let mut list = LauncherList::new(sample());
    list.select_next();
    assert_eq!(list.selected_index, Some(0));
    list.select_prev();
    assert_eq!(list.selected_index, Some(2));
    list.select_next();
    assert_eq!(list.selected_index, Some(0));
    list.select_next();
    list.select_prev();
    assert_eq!(list.selected_index, Some(0));
}

#[test]
fn selection_on_empty_list_is_none() {
    let mut list = LauncherList::new(vec![]);
    list.select_next();
    assert_eq!(list.selected_index, None);
    list.select_prev();
    assert_eq!(list.selected_index, None);
}

#[test]
fn icons_reach_items_and_filtered() {
    let mut list = LauncherList::new(sample());
    list.update_filtered("note");
    list.apply_icons(&[
        ("2".to_string(), Some("a.png".to_string())),
        ("9".to_string(), Some("x.png".to_string())),
        ("2".to_string(), Some("b.png".to_string())),
    ]);
    assert_eq!(list.items[1].icon_path.as_deref(), Some("b.png"));
    assert_eq!(list.filtered[0].icon_path.as_deref(), Some("b.png"));
    assert_eq!(list.items[0].icon_path, None);
    // Icons persist through re-filtering.
    list.update_filtered("");
    assert_eq!(list.filtered[1].icon_path.as_deref(), Some("b.png"));
}

#[test]
fn list_marks_favorites_by_id() {
    let mut list = LauncherList::new(sample());
    list.favorite_ids = vec!["2".to_string()];
    assert!(list.is_favorite(&app("2", "Other")));
    assert!(!list.is_favorite(&app("1", "Firefox")));
    let _ = ToggleFavoriteEvent(0);
}

#[test]
fn search_engine_keys_by_position() {
    let mut engine = SearchEngine::new();
    engine.add(&sample());
    engine.search("code");
    assert_eq!(engine.results(), vec![2]);
}

#[test]
fn favorites_hold_at_most_six_distinct_items() {
    let mut fav = Fav::new(vec![]);
    for i in 0..6 {
        assert!(fav.add_favorite(app(&i.to_string(), "x")));
    }
    assert!(!fav.add_favorite(app("7", "seventh")));
    assert_eq!(fav.favorites.len(), 6);
    let mut fav = Fav::new(vec![app("1", "a")]);
    assert!(!fav.add_favorite(app("1", "again")));
    assert_eq!(fav.favorites.len(), 1);
}

#[test]
fn favorites_remove_by_id() {
    let mut fav = Fav::new(vec![app("1", "a"), app("2", "b"), app("1", "c")]);
    assert!(fav.is_favorite("1"));
    fav.remove_favorite("1");
    assert_eq!(names(&fav.favorites), vec!["b"]);
    assert!(!fav.is_favorite("1"));
    fav.remove_favorite("nope");
    assert_eq!(fav.favorites.len(), 1);
}

#[test]
fn pin_then_unpin_restores_favorites() {
    let mut fav = Fav::new(vec![app("1", "a")]);
    assert!(fav.add_favorite(app("2", "b")));
    fav.remove_favorite("2");
    assert_eq!(names(&fav.favorites), vec!["a"]);
}

#[test]
fn favorite_icons_follow_fresh_items() {
    let mut fav = Fav::new(vec![app("1", "a"), app("2", "b")]);
    let mut fresh = sample();
    fresh[0].icon_path = Some("f.png".to_string());
    assert!(fav.refresh_icons(&fresh));
    assert_eq!(fav.favorites[0].icon_path.as_deref(), Some("f.png"));
    assert_eq!(fav.favorites[1].icon_path, None);
    assert!(!fav.refresh_icons(&fresh));
}
