use satur8::launch::{
    exe_basename, path_file_name, plan_run, LaunchMode, RunError, RunPlan, SaturationSource,
};
use satur8::profile::{MatchRule, Profile, Profiles};

fn launch_profiles() -> Profiles {
    Profiles {
        default_saturation_bits: 1.0f32.to_bits(),
        profiles: vec![
            Profile {
                name: "CS2".into(),
                saturation_bits: 1.6f32.to_bits(),
                match_rule: MatchRule { exe: Some("cs2".into()), window_class: None, steam_app_id: None },
                outputs: vec![],
            },
            Profile {
                name: "Portal".into(),
                saturation_bits: 1.3f32.to_bits(),
                match_rule: MatchRule {
                    exe: Some("portal2_linux".into()),
                    window_class: None,
                    steam_app_id: None,
                },
                outputs: vec![],
            },
        ],
    }
}

fn cmd(parts: &[&str]) -> Vec<String> {
    parts.iter().map(|s| s.to_string()).collect()
}

#[test]
fn exe_basename_follows_path_file_name() {
    assert_eq!(exe_basename("/games/cs2/cs2"), "cs2");
    assert_eq!(exe_basename("cs2"), "cs2");
    assert_eq!(exe_basename("/games/cs2/"), "cs2");
    assert_eq!(exe_basename("/games/cs2/."), "cs2");
    assert_eq!(exe_basename("/games/.."), "/games/..");
    assert_eq!(exe_basename("/"), "/");
    assert_eq!(path_file_name("a//b//"), Some("b".to_string()));
    for p in ["/usr/bin/env", "x/y/", "..", "/", "a/./", "./b", ""] {
        let want = std::path::Path::new(p).file_name().map(|n| n.to_string_lossy().to_string());
        assert_eq!(path_file_name(p), want, "{p}");
    }
}

#[test]
fn explicit_saturation_wins_over_profile() {
    let plan = plan_run(&launch_profiles(), true, Some("missing"), &cmd(&["/g/cs2"]), None).unwrap();
    assert_eq!(plan, RunPlan { source: SaturationSource::Explicit, mode: LaunchMode::Native });
}

#[test]
fn named_profile_then_exe_match() {
    let plan = plan_run(&launch_profiles(), false, Some("portal"), &cmd(&["/g/cs2"]), None).unwrap();
    assert_eq!(plan.source, SaturationSource::Named(1));
    let plan = plan_run(&launch_profiles(), false, None, &cmd(&["/g/CS2", "-novid"]), None).unwrap();
    assert_eq!(plan.source, SaturationSource::MatchedExe(0));
    let plan = plan_run(&launch_profiles(), false, None, &cmd(&["/g/hl2"]), None).unwrap();
    assert_eq!(plan.source, SaturationSource::Unchanged);
}

#[test]
fn launch_errors_in_order() {
    let e = plan_run(&launch_profiles(), false, Some("nope"), &cmd(&[]), Some("bogus")).unwrap_err();
    assert!(matches!(e, RunError::NothingToRun));
    assert_eq!(
        e.to_string(),
        "nothing to run. Usage: satur8 run [--profile NAME | --saturation S] -- <command>"
    );
    let e = plan_run(&launch_profiles(), false, Some("nope"), &cmd(&["x"]), Some("bogus")).unwrap_err();
    assert_eq!(e.to_string(), "no profile named 'nope' (see `satur8 profile list`)");
    let e = plan_run(&launch_profiles(), false, None, &cmd(&["x"]), Some("bogus")).unwrap_err();
    assert_eq!(e.to_string(), "unknown --via 'bogus' (supported: gamescope)");
}

#[test]
fn gamescope_mode() {
    let plan = plan_run(&launch_profiles(), false, Some("CS2"), &cmd(&["x"]), Some("gamescope")).unwrap();
    assert_eq!(plan, RunPlan { source: SaturationSource::Named(0), mode: LaunchMode::Gamescope });
}

#[test]
fn exe_basename_is_idempotent() {
    for cmd in ["/games/cs2/cs2", "cs2", "/", "/games/..", "a/b/", "./x", ""] {
        let once = exe_basename(cmd);
        assert_eq!(exe_basename(&once), once, "{cmd}");
    }
}
