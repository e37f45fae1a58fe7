use satur8::profile::{
    add_or_replace_profile, build_profile, describe_match, remove_profile_by_name, MatchRule,
    Profile, ProfileError, Profiles, UNCHANGED_SATURATION_BITS,
};

fn bits(s: f32) -> u32 {
    s.to_bits()
}

fn sample() -> Profiles {
    Profiles {
        default_saturation_bits: bits(1.0),
        profiles: vec![Profile {
            name: "cs2".into(),
            saturation_bits: bits(1.6),
            match_rule: MatchRule {
                exe: Some("cs2".into()),
                window_class: None,
                steam_app_id: Some(730),
            },
            outputs: vec![],
        }],
    }
}

fn profile(name: &str, saturation: f32) -> Profile {
    Profile {
        name: name.into(),
        saturation_bits: bits(saturation),
        match_rule: MatchRule {
            exe: Some(name.to_ascii_lowercase()),
            window_class: None,
            steam_app_id: None,
        },
        outputs: vec![],
    }
}

#[test]
fn matches_by_exe_case_insensitive() {
    let p = sample();
    assert_eq!(p.match_exe("CS2").unwrap().name, "cs2");
    assert!(p.match_exe("dota2").is_none());
}

#[test]
fn matches_by_steam_app_id() {
    let p = sample();
    assert_eq!(f32::from_bits(p.match_steam_app_id(730).unwrap().saturation_bits), 1.6);
    assert!(p.match_steam_app_id(570).is_none());
}

#[test]
fn build_profile_requires_a_match_rule() {
    assert!(build_profile("CS2".into(), bits(1.6), None, None, None).is_err());
    assert!(build_profile("CS2".into(), bits(1.6), Some("cs2".into()), None, None).is_ok());
    assert!(build_profile("CS2".into(), bits(1.6), None, Some("cs2".into()), None).is_ok());
    assert!(build_profile("CS2".into(), bits(1.6), None, None, Some(730)).is_ok());
}

#[test]
fn add_profile_appends_new_name() {
    let mut profiles = Profiles::default();
    let updated = add_or_replace_profile(&mut profiles, profile("CS2", 1.6));

    assert!(!updated);
    assert_eq!(profiles.profiles.len(), 1);
    assert_eq!(profiles.profiles[0].name, "CS2");
}

#[test]
fn add_profile_replaces_same_name_case_insensitive() {
    let mut profiles = Profiles {
        default_saturation_bits: bits(1.0),
        profiles: vec![profile("CS2", 1.6)],
    };

    let updated = add_or_replace_profile(&mut profiles, profile("cs2", 1.9));

    assert!(updated);
    assert_eq!(profiles.profiles.len(), 1);
    assert_eq!(profiles.profiles[0].name, "cs2");
    assert_eq!(f32::from_bits(profiles.profiles[0].saturation_bits), 1.9);
}

#[test]
fn remove_profile_is_case_insensitive() {
    let mut profiles = Profiles {
        default_saturation_bits: bits(1.0),
        profiles: vec![profile("CS2", 1.6), profile("Dota2", 1.4)],
    };

    remove_profile_by_name(&mut profiles, "cs2").unwrap();

    assert_eq!(profiles.profiles.len(), 1);
    assert_eq!(profiles.profiles[0].name, "Dota2");
}

#[test]
fn remove_profile_errors_on_missing_name() {
    let mut profiles = Profiles {
        default_saturation_bits: bits(1.0),
        profiles: vec![profile("CS2", 1.6)],
    };

    assert!(remove_profile_by_name(&mut profiles, "missing").is_err());
    assert_eq!(profiles.profiles.len(), 1);
}

#[test]
fn remove_profile_drops_every_namesake_and_reports_missing_names() {
    let mut profiles = Profiles {
        default_saturation_bits: bits(1.2),
        profiles: vec![profile("CS2", 1.6), profile("Dota2", 1.4), profile("cs2", 1.1)],
    };
    remove_profile_by_name(&mut profiles, "Cs2").unwrap();
    assert_eq!(profiles.profiles.len(), 1);
    assert_eq!(profiles.profiles[0].name, "Dota2");
    assert_eq!(profiles.default_saturation_bits, bits(1.2));
    match remove_profile_by_name(&mut profiles, "missing") {
        Err(e) => assert_eq!(e.to_string(), "no profile named 'missing'"),
        Ok(()) => panic!("missing profile was removed"),
    }
}

#[test]
fn lookup_after_add_finds_the_added_profile() {
    let mut profiles = sample();
    add_or_replace_profile(&mut profiles, profile("Portal", 1.3));
    let found = profiles.by_name("PORTAL").unwrap();
    assert_eq!(found.name, "Portal");
    assert_eq!(found.saturation_bits, bits(1.3));
}

#[test]
fn first_matching_profile_wins() {
    let mut profiles = sample();
    let mut second = profile("cs2-alt", 2.0);
    second.match_rule.exe = Some("CS2".into());
    second.match_rule.window_class = Some("cs2.x86_64".into());
    profiles.profiles.push(second);
    assert_eq!(profiles.match_exe("cs2").unwrap().name, "cs2");
    assert_eq!(profiles.match_window_class("CS2.X86_64").unwrap().name, "cs2-alt");
    assert!(profiles.match_window_class("cs2").is_none());
}

#[test]
fn build_profile_errors_and_fields() {
    match build_profile("x".into(), bits(1.0), None, None, None) {
        Err(e) => {
            assert!(matches!(e, ProfileError::NoMatchRule));
            assert_eq!(
                e.to_string(),
                "a profile needs at least one match rule (--exe, --window-class, or --steam-app-id)"
            );
        }
        Ok(_) => panic!("accepted a profile that matches nothing"),
    }
    let p = build_profile("Portal".into(), bits(1.6), Some("portal2_linux".into()), None, Some(620))
        .unwrap();
    assert_eq!(p.name, "Portal");
    assert_eq!(p.match_rule.steam_app_id, Some(620));
    assert!(p.outputs.is_empty());
}

#[test]
fn describe_match_lists_rules_in_order() {
    let rule = MatchRule {
        exe: Some("cs2".into()),
        window_class: Some("cs2.x86_64".into()),
        steam_app_id: Some(730),
    };
    assert_eq!(describe_match(&rule), "exe=cs2 class=cs2.x86_64 appid=730");
    assert_eq!(describe_match(&MatchRule::default()), "(no match rule)");
    let only_id = MatchRule { exe: None, window_class: None, steam_app_id: Some(570) };
    assert_eq!(describe_match(&only_id), "appid=570");
}

#[test]
fn default_profiles_leave_colours_unchanged() {
    let p = Profiles::default();
    assert_eq!(p.default_saturation_bits, UNCHANGED_SATURATION_BITS);
    assert_eq!(f32::from_bits(UNCHANGED_SATURATION_BITS), 1.0);
    assert!(p.profiles.is_empty());
}
