use std::cell::RefCell;

use satur8::steam::{cache_dir, first_existing, icon_path, known_app_id, preview_path};

#[test]
fn known_app_ids_of_common_games() {
    assert_eq!(known_app_id("cs2"), Some(730));
    assert_eq!(known_app_id("CS2.exe"), Some(730));
    assert_eq!(known_app_id("csgo.x86_64"), Some(730));
    assert_eq!(known_app_id("dota2"), Some(570));
    assert_eq!(known_app_id("r5apex.exe"), Some(1172470));
    assert_eq!(known_app_id("tf_linux64"), Some(440));
    assert_eq!(known_app_id("Left4Dead2"), Some(550));
    assert_eq!(known_app_id("hl2.exe.exe"), Some(220));
    assert_eq!(known_app_id("valorant"), None);
    assert_eq!(known_app_id("minecraft"), None);
    assert_eq!(known_app_id("cs2.x86_64.exe"), Some(730));
    assert_eq!(known_app_id("cs2.exe.x86_64"), None);
}

#[test]
fn known_app_id_ignores_case_and_exe_suffix() {
    for name in ["cs2", "Dota", "APEX", "tf2", "hl2", "nothing"] {
        assert_eq!(known_app_id(name), known_app_id(&name.to_ascii_uppercase()));
        assert_eq!(known_app_id(name), known_app_id(&format!("{name}.EXE")));
    }
}

#[test]
fn cache_dir_is_under_the_first_root_with_art() {
    let asked = RefCell::new(Vec::new());
    let dirs = [
        "/home/noah/.steam/steam",
        "/home/noah/.steam/steam/appcache/librarycache/730",
        "/home/noah/.steam/root",
        "/home/noah/.steam/root/appcache/librarycache/730",
    ];
    let is_dir = |p: &str| {
        asked.borrow_mut().push(p.to_string());
        dirs.contains(&p)
    };
    assert_eq!(
        cache_dir("/home/noah", 730, &is_dir),
        Some("/home/noah/.steam/steam/appcache/librarycache/730".to_string())
    );
    assert_eq!(
        asked.into_inner(),
        vec![
            "/home/noah/.local/share/Steam".to_string(),
            "/home/noah/.steam/steam".to_string(),
            "/home/noah/.steam/steam/appcache/librarycache/730".to_string(),
        ]
    );
    assert_eq!(cache_dir("/home/noah", 570, &|p: &str| dirs.contains(&p)), None);
}

#[test]
fn icon_and_preview_pick_their_preferred_art() {
    let dirs = ["/h/.local/share/Steam", "/h/.local/share/Steam/appcache/librarycache/440"];
    let files = [
        "/h/.local/share/Steam/appcache/librarycache/440/header.jpg",
        "/h/.local/share/Steam/appcache/librarycache/440/library_600x900.jpg",
        "/h/.local/share/Steam/appcache/librarycache/440/library_hero.jpg",
    ];
    let is_dir = |p: &str| dirs.contains(&p);
    let is_file = |p: &str| files.contains(&p);
    assert_eq!(
        icon_path("/h", 440, is_dir, is_file),
        Some("/h/.local/share/Steam/appcache/librarycache/440/library_600x900.jpg".to_string())
    );
    assert_eq!(
        preview_path("/h", 440, is_dir, is_file),
        Some("/h/.local/share/Steam/appcache/librarycache/440/header.jpg".to_string())
    );
    assert_eq!(icon_path("/h", 730, is_dir, is_file), None);
    assert_eq!(icon_path("/h", 440, is_dir, |_: &str| false), None);
}

#[test]
fn first_existing_keeps_the_given_order() {
    let names = vec!["a.png", "b.png", "c.png"];
    assert_eq!(
        first_existing("/d", &names, &|p: &str| p == "/d/b.png" || p == "/d/c.png"),
        Some("/d/b.png".to_string())
    );
    assert_eq!(first_existing("/d", &names, &|_: &str| false), None);
}
