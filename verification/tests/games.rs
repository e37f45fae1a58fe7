use satur8::games::{
    add_or_update, clock_hms, outputs_note, profile_app_id, switch_is_on, tile_color_index,
};
use satur8::profile::{MatchRule, Profile, Profiles};

fn gbits(s: f32) -> u32 {
    s.to_bits()
}

#[test]
fn adding_a_running_game_creates_a_profile_named_after_it() {
    let mut ps = Profiles::default();
    add_or_update(&mut ps, "cs2.x86_64", Some(730), gbits(1.4));
    assert_eq!(ps.profiles.len(), 1);
    let p = &ps.profiles[0];
    assert_eq!(p.name, "cs2");
    assert_eq!(p.match_rule.exe.as_deref(), Some("cs2.x86_64"));
    assert_eq!(p.match_rule.steam_app_id, Some(730));
    assert_eq!(p.match_rule.window_class, None);
    assert_eq!(p.saturation_bits, gbits(1.4));
}

#[test]
fn adding_again_updates_in_place_and_keeps_a_known_app_id() {
    let mut ps = Profiles {
        default_saturation_bits: gbits(1.0),
        profiles: vec![
            Profile {
                name: "Other".into(),
                saturation_bits: gbits(1.1),
                match_rule: MatchRule::default(),
                outputs: vec![],
            },
            Profile {
                name: "game".into(),
                saturation_bits: gbits(2.0),
                match_rule: MatchRule {
                    exe: None,
                    window_class: Some("game.class".into()),
                    steam_app_id: Some(42),
                },
                outputs: vec!["DP-1".into()],
            },
        ],
    };
    add_or_update(&mut ps, "game.exe", None, gbits(1.4));
    assert_eq!(ps.profiles.len(), 2);
    let p = &ps.profiles[1];
    assert_eq!(p.name, "game");
    assert_eq!(p.match_rule.exe.as_deref(), Some("game.exe"));
    assert_eq!(p.match_rule.steam_app_id, Some(42));
    assert_eq!(p.match_rule.window_class.as_deref(), Some("game.class"));
    assert_eq!(p.outputs, vec!["DP-1".to_string()]);
    assert_eq!(p.saturation_bits, gbits(1.4));
    add_or_update(&mut ps, "game.exe", Some(7), gbits(1.2));
    assert_eq!(ps.profiles[1].match_rule.steam_app_id, Some(7));
    add_or_update(&mut ps, "GAME.exe", None, gbits(1.2));
    assert_eq!(ps.profiles.len(), 3);
    assert_eq!(ps.profiles[2].name, "GAME");
}

#[test]
fn art_app_id_falls_back_to_the_known_table() {
    let mut p = Profile {
        name: "Dota 2".into(),
        saturation_bits: gbits(1.0),
        match_rule: MatchRule { exe: Some("dota2".into()), window_class: None, steam_app_id: None },
        outputs: vec![],
    };
    assert_eq!(profile_app_id(&p), Some(570));
    p.match_rule.steam_app_id = Some(1);
    assert_eq!(profile_app_id(&p), Some(1));
    p.match_rule = MatchRule::default();
    p.name = "hl2".into();
    assert_eq!(profile_app_id(&p), Some(220));
}

#[test]
fn tile_colour_is_a_stable_hash_of_the_name() {
    let hash = |s: &str| s.bytes().fold(0u32, |a, b| a.wrapping_mul(31).wrapping_add(b as u32));
    for name in ["", "cs2", "Counter-Strike 2", "Ünïcødé", "a much longer profile name here"] {
        assert_eq!(tile_color_index(name), (hash(name) as usize) % 8, "{name}");
    }
    assert_eq!(tile_color_index("a"), 97 % 8);
}

#[test]
fn clock_is_hours_minutes_seconds_of_the_day() {
    assert_eq!(clock_hms(0), "00:00:00");
    assert_eq!(clock_hms(86_399), "23:59:59");
    assert_eq!(clock_hms(86_400 + 3_600 * 13 + 60 * 7 + 5), "13:07:05");
}

#[test]
fn small_app_texts() {
    assert_eq!(outputs_note(Some("kwin")), "On this compositor it affects all monitors.");
    assert_eq!(outputs_note(Some("hyprland")), "On this compositor it affects all monitors.");
    assert_eq!(outputs_note(Some("drm-ctm")), "Targets the connected display(s).");
    assert_eq!(outputs_note(Some("nv-control")), "");
    assert_eq!(outputs_note(None), "");
    for on in ["1", "true", "yes", "on"] {
        assert!(switch_is_on(on));
    }
    assert!(!switch_is_on("TRUE"));
    assert!(!switch_is_on("0"));
}

#[test]
fn adding_the_same_game_twice_keeps_one_profile() {
    let mut ps = Profiles::default();
    add_or_update(&mut ps, "hl2_linux", None, gbits(1.4));
    add_or_update(&mut ps, "hl2_linux", Some(220), gbits(1.8));
    assert_eq!(ps.profiles.len(), 1);
    assert_eq!(ps.profiles[0].match_rule.steam_app_id, Some(220));
    assert_eq!(ps.profiles[0].saturation_bits, gbits(1.8));
}
