use std::hash::{Hash, Hasher};
use popmax::autostart::{
    apply_startup_setting, disable_succeeded, run_value, run_value_matches, settings_or_default,
    toggle_outcome, toggle_startup, DeleteOutcome, Settings, StartupAction,
};
use popmax::list::LauncherList as SimpleList;
use popmax::scanner::{
    accept_uninstall_entry, display_icon_target, exe_candidates, icon_cache_file_name,
    add_registry_record, is_exe_path, make_id, make_registry_id, parse_display_icon, registry_entry, start_menu_entries, NameSet, ScannedApp,
};
use popmax::tray::{encode_utf16, is_exit_command, tray_action, write_tip, TrayAction};
use popmax::types::{Item, Kind};
use popmax::utils::{asset_path, get_load_path};
use popmax::windows_icons::icon_cache_path;
use popmax::windows_icons::bgra_to_rgba;

fn item(name: &str) -> Item {
    Item {
        id: name.to_lowercase(),
        name: name.to_string(),
        kind: Kind::Command,
        icon_path: None,
        running_command: None,
    }
}

#[test]
fn simple_list_filters_case_insensitively() {
    let mut list = SimpleList::new(vec![item("Firefox"), item("Notepad++"), item("FIREWALL")]);
    list.update_filtered("  fIRe ");
    let got: Vec<_> = list.filtered.iter().map(|i| i.name.as_str()).collect();
    assert_eq!(got, vec!["Firefox", "FIREWALL"]);
    assert_eq!(list.selected_index, None);
    list.update_filtered("");
    assert_eq!(list.filtered.len(), 3);
    list.select_prev();
    assert_eq!(list.selected_index, Some(2));
    list.select_next();
    assert_eq!(list.selected_index, Some(0));
}

#[test]
fn settings_default_and_toggle() {
    assert!(Settings::default().launch_at_startup);
    assert!(settings_or_default(None).launch_at_startup);
    let off = Settings { launch_at_startup: false };
    assert_eq!(settings_or_default(Some(off)), off);
    assert_eq!(apply_startup_setting(&off), StartupAction::Disable);
    assert_eq!(toggle_startup(&off), StartupAction::Enable);
    let (on, answer) = toggle_outcome(off, true);
    assert!(on.launch_at_startup);
    assert_eq!(answer, Some(true));
    let (back, _) = toggle_outcome(on, true);
    assert_eq!(back, off);
    assert_eq!(toggle_outcome(off, false), (off, None));
}

#[test]
fn run_value_is_quoted_path() {
    let v = run_value("C:\\Program Files\\PopMax\\popmax.exe");
    assert_eq!(v, "\"C:\\Program Files\\PopMax\\popmax.exe\"");
    assert!(run_value_matches(Some(&v), Some(&v)));
    assert!(!run_value_matches(Some("x"), Some(&v)));
    assert!(!run_value_matches(None, Some(&v)));
    assert!(!run_value_matches(Some(&v), None));
    assert!(disable_succeeded(DeleteOutcome::Deleted));
    assert!(disable_succeeded(DeleteOutcome::NotFound));
    assert!(!disable_succeeded(DeleteOutcome::Failed));
}

#[test]
fn display_icon_values() {
    assert_eq!(parse_display_icon("C:\\app.exe,0"), ("C:\\app.exe".to_string(), 0));
    assert_eq!(
        parse_display_icon("C:\\Windows\\system32\\imageres.dll, -12 "),
        ("C:\\Windows\\system32\\imageres.dll".to_string(), -12)
    );
    assert_eq!(parse_display_icon("  C:\\a,b\\app.exe  "), ("C:\\a,b\\app.exe".to_string(), 0));
    assert_eq!(parse_display_icon("C:\\app.exe"), ("C:\\app.exe".to_string(), 0));
    assert_eq!(parse_display_icon("x,99999999999"), ("x,99999999999".to_string(), 0));
}

#[test]
fn ids_are_sixteen_hex_digits() {
    let id = make_id("C:\\ProgramData\\Start Menu\\Programs\\App.lnk");
    assert_eq!(id.len(), 16);
    assert!(id.chars().all(|c| c.is_ascii_hexdigit() && !c.is_ascii_uppercase()));
    assert_eq!(id, make_id("C:\\ProgramData\\Start Menu\\Programs\\App.lnk"));
    let reg = make_registry_id("C:\\a.exe,0", "C:\\", "App");
    assert!(reg.starts_with("reg-"));
    assert_eq!(reg.len(), 20);
    let icon = icon_cache_file_name("C:\\a.exe", 3);
    assert!(icon.ends_with(".png"));
}

fn digest<F: FnOnce(&mut std::collections::hash_map::DefaultHasher)>(f: F) -> u64 {
    let mut h = std::collections::hash_map::DefaultHasher::new();
    f(&mut h);
    h.finish()
}

#[test]
fn ids_are_the_path_digest() {
    let path = "C:\\ProgramData\\Start Menu\\Programs\\App.lnk";
    let expected = digest(|h| std::path::Path::new(path).hash(h));
    assert_eq!(make_id(path), format!("{:016x}", expected));
    assert_ne!(make_id(path), make_id("C:\\Other.lnk"));
}

#[test]
fn registry_ids_are_the_digest_of_three_fields() {
    let expected = digest(|h| {
        "C:\\a.exe,0".hash(h);
        "C:\\".hash(h);
        "App".hash(h);
    });
    assert_eq!(make_registry_id("C:\\a.exe,0", "C:\\", "App"), format!("reg-{:016x}", expected));
    assert_ne!(
        make_registry_id("C:\\a.exe,0", "C:\\", "App"),
        make_registry_id("C:\\a.exe,0", "C:\\", "Other")
    );
}

#[test]
fn icon_cache_names_are_the_digest_of_path_and_index() {
    let expected = digest(|h| {
        std::path::Path::new("C:\\a.exe").hash(h);
        3i32.hash(h);
    });
    assert_eq!(icon_cache_file_name("C:\\a.exe", 3), format!("{:x}.png", expected));
    assert_eq!(icon_cache_file_name("C:\\a.exe", 3), icon_cache_file_name("C:\\a.exe", 3));
    assert_ne!(icon_cache_file_name("C:\\a.exe", 3), icon_cache_file_name("C:\\a.exe", 4));
}

#[test]
fn exe_paths_are_recognised_in_any_case() {
    assert!(is_exe_path("C:\\Apps\\Tool.exe"));
    assert!(is_exe_path("/opt/tool.ExE"));
    assert!(!is_exe_path("/opt/tool.exe2"));
    assert!(!is_exe_path("/opt/tool.lnk"));
    assert!(!is_exe_path("/opt/exe"));
    assert!(!is_exe_path("/opt/.exe"));
}

#[test]
fn display_icon_gives_a_target_only_when_it_names_an_exe() {
    assert_eq!(display_icon_target("C:\\app.exe,0"), Some("C:\\app.exe".to_string()));
    assert_eq!(display_icon_target("  C:\\My App\\run.Exe  "), Some("C:\\My App\\run.Exe".to_string()));
    assert_eq!(display_icon_target("C:\\Windows\\imageres.dll,-12"), None);
    assert_eq!(display_icon_target("C:\\app.exe,icon"), None);
}

#[test]
fn uninstall_entries_are_filtered() {
    assert_eq!(accept_uninstall_entry(Some("  App  "), None, false), Some("App".to_string()));
    assert_eq!(accept_uninstall_entry(Some("App"), Some(0), false), Some("App".to_string()));
    assert_eq!(accept_uninstall_entry(Some("App"), Some(1), false), None);
    assert_eq!(accept_uninstall_entry(Some("App"), None, true), None);
    assert_eq!(accept_uninstall_entry(Some("   "), None, false), None);
    assert_eq!(accept_uninstall_entry(None, None, false), None);
}

#[test]
fn exe_candidate_names() {
    assert_eq!(
        exe_candidates("Visual Studio Code"),
        vec!["Visual Studio Code.exe".to_string(), "VisualStudioCode.exe".to_string()]
    );
}

#[test]
fn names_are_listed_once() {
    let mut names = NameSet::new();
    let apps = vec![ScannedApp {
        id: "1".to_string(),
        name: "Firefox".to_string(),
        target: "C:\\firefox.exe".to_string(),
        icon_location: "C:\\firefox.exe".to_string(),
        icon_index: 0,
    }];
    let entries = start_menu_entries(&apps, &mut names);
    assert_eq!(entries.len(), 1);
    assert_eq!(entries[0].item.kind, Kind::App);
    assert_eq!(entries[0].item.running_command.as_ref().unwrap().command, "C:\\firefox.exe");
    assert!(!names.insert_lowercase("FIREFOX"));
    assert!(names.insert_lowercase("Notepad"));
    assert!(!names.insert_lowercase("notepad"));
}

#[test]
fn registry_entries_take_their_icon() {
    let e = registry_entry("reg-1".into(), "App".into(), "C:\\app.exe".into(), Some("C:\\icons.dll,4"));
    assert_eq!(e.icon_location, "C:\\icons.dll");
    assert_eq!(e.icon_index, 4);
    let e = registry_entry("reg-1".into(), "App".into(), "C:\\app.exe".into(), None);
    assert_eq!(e.icon_location, "C:\\app.exe");
    assert_eq!(e.icon_index, 0);
}

#[test]
fn tray_messages() {
    assert_eq!(tray_action(0x8001, 1, 0x007b), TrayAction::ShowMenu);
    assert_eq!(tray_action(0x8001, 1, 0x0205), TrayAction::ShowMenu);
    assert_eq!(tray_action(0x8001, 1, 0x0200), TrayAction::Handled);
    assert_eq!(tray_action(0x8001, 2, 0x007b), TrayAction::Default);
    assert_eq!(tray_action(0x0002, 0, 0), TrayAction::RemoveIcon);
    assert_eq!(tray_action(0x0010, 0, 0), TrayAction::Default);
    assert!(is_exit_command(1001));
    assert!(!is_exit_command(0));
}

#[test]
fn tooltip_is_utf16_and_truncated() {
    let mut tip = [7u16; 128];
    write_tip(&mut tip, "PopMax");
    assert_eq!(&tip[..6], "PopMax".encode_utf16().collect::<Vec<_>>().as_slice());
    assert_eq!(tip[6], 7);
    let long = "😀".repeat(100);
    let mut tip = [0u16; 128];
    write_tip(&mut tip, &long);
    let units: Vec<u16> = long.encode_utf16().collect();
    assert_eq!(&tip[..], &units[..128]);
    assert_eq!(encode_utf16("a😀"), "a😀".encode_utf16().collect::<Vec<_>>());
}

#[test]
fn pixels_become_rgba() {
    let out = bgra_to_rgba(vec![1, 2, 3, 0, 4, 5, 6, 9]);
    assert_eq!(out, vec![3, 2, 1, 0, 6, 5, 4, 9]);
    let out = bgra_to_rgba(vec![1, 2, 3, 0, 4, 5, 6, 0, 8]);
    assert_eq!(out, vec![3, 2, 1, 255, 6, 5, 4, 255, 8]);
    let back = bgra_to_rgba(bgra_to_rgba(vec![1, 2, 3, 4]));
    assert_eq!(back, vec![1, 2, 3, 4]);
}

#[test]
fn asset_paths_need_the_exe_dir() {
    assert!(asset_path(None, "icons/x.svg").is_none());
    let p = asset_path(Some("/opt/popmax"), "icons/x.svg").unwrap();
    assert!(p.ends_with("x.svg"));
    assert!(p.starts_with("/opt/popmax"));
    assert_eq!(p, "/opt/popmax/icons/x.svg");
}

#[test]
fn registry_records_are_added_once_and_only_with_a_target() {
    let mut names = NameSet::new();
    let mut results = Vec::new();
    assert!(!add_registry_record(&mut results, &mut names, "App".to_string(), None, Some("C:\\a.exe,0"), None, Some("C:\\a.exe,0")));
    assert!(results.is_empty());
    assert!(names.names.is_empty());
    assert!(add_registry_record(
        &mut results,
        &mut names,
        "App".to_string(),
        Some("C:\\a.exe".to_string()),
        Some("C:\\a.exe,2"),
        None,
        Some("C:\\a.exe,2"),
    ));
    assert_eq!(results.len(), 1);
    assert_eq!(results[0].item.id, make_registry_id("C:\\a.exe,2", "", "App"));
    assert_eq!(results[0].item.running_command.as_ref().unwrap().command, "C:\\a.exe");
    assert_eq!((results[0].icon_location.as_str(), results[0].icon_index), ("C:\\a.exe", 2));
    assert_eq!(names.names, vec!["app".to_string()]);
    assert!(!add_registry_record(&mut results, &mut names, "APP".to_string(), Some("C:\\b.exe".to_string()), None, None, None));
    assert_eq!(results.len(), 1);
    assert!(add_registry_record(&mut results, &mut names, "Other".to_string(), Some("C:\\b.exe".to_string()), None, Some("D:\\"), None));
    assert_eq!(results.len(), 2);
    assert_eq!(results[1].item.id, make_registry_id("", "D:\\", "Other"));
    assert_eq!((results[1].icon_location.as_str(), results[1].icon_index), ("C:\\b.exe", 0));
}

#[test]
fn settings_and_icon_cache_live_under_local_app_data() {
    assert!(get_load_path(None).is_none());
    assert_eq!(get_load_path(Some("/home/u")).unwrap(), "/home/u/PopMax");
    assert!(icon_cache_path(None, "C:\\a.exe", 3).is_none());
    assert_eq!(
        icon_cache_path(Some("/home/u"), "C:\\a.exe", 3).unwrap(),
        format!("/home/u/PopMax/icons/{}", icon_cache_file_name("C:\\a.exe", 3))
    );
}
