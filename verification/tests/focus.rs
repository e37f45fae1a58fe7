use satur8::focus::{
    decide_focus_action, next_retry_delay_ms, profile_targets, BackendRetry, FocusAction,
    FocusState, ReloadAction, INITIAL_RETRY_MS, MAX_RETRY_MS,
};
use satur8::profile::{MatchRule, Profile, Profiles};

fn focus_profiles() -> Profiles {
    Profiles {
        default_saturation_bits: 1.0f32.to_bits(),
        profiles: vec![Profile {
            name: "game".into(),
            saturation_bits: 1.5f32.to_bits(),
            match_rule: MatchRule {
                exe: None,
                window_class: Some("game.class".into()),
                steam_app_id: None,
            },
            outputs: vec![],
        }],
    }
}

#[test]
fn focus_on_a_profiled_window_applies_it() {
    let ps = focus_profiles();
    let mut st = FocusState::new();
    let a = st.on_window_activated("game.class", &ps);
    assert_eq!(a, FocusAction::Apply(0));
    st.record_apply(&ps, 0, true);
    assert_eq!(st.active_profile(), "game");
    assert_eq!(st.on_window_activated("game.class", &ps), FocusAction::NoChange);
}

#[test]
fn focus_loss_restores_once() {
    let ps = focus_profiles();
    let mut st = FocusState::new();
    st.record_apply(&ps, 0, true);
    assert_eq!(st.on_window_activated("desktop", &ps), FocusAction::Restore);
    st.record_restore();
    assert_eq!(st.active_profile(), "");
    assert_eq!(st.on_window_activated("desktop", &ps), FocusAction::NoChange);
}

#[test]
fn failed_apply_is_tried_again() {
    let ps = focus_profiles();
    let mut st = FocusState::new();
    st.record_apply(&ps, 0, false);
    assert_eq!(st.on_window_activated("GAME.CLASS", &ps), FocusAction::Apply(0));
}

#[test]
fn reload_reapplies_or_restores() {
    let ps = focus_profiles();
    let mut st = FocusState::new();
    assert_eq!(st.on_reload(&ps), ReloadAction::NoChange);
    st.record_apply(&ps, 0, true);
    assert_eq!(st.on_reload(&ps), ReloadAction::Reapply(0));
    let empty = Profiles { default_saturation_bits: 0, profiles: vec![] };
    assert_eq!(st.on_reload(&empty), ReloadAction::Restore);
    assert_eq!(decide_focus_action(Some("other"), "game.class", &ps), FocusAction::Apply(0));
}

#[test]
fn retry_delay_doubles_up_to_the_cap() {
    let mut d = INITIAL_RETRY_MS;
    let mut seen = vec![d];
    for _ in 0..7 {
        d = next_retry_delay_ms(d);
        seen.push(d);
    }
    assert_eq!(seen, vec![250, 500, 1000, 2000, 4000, 8000, 8000, 8000]);
    assert_eq!(MAX_RETRY_MS, 8000);
}

#[test]
fn backend_retry_schedule() {
    let mut r = BackendRetry::new(1000);
    assert!(r.due(1000));
    r.record_failure(1000);
    assert_eq!(r.next_at_ms, 1250);
    assert!(!r.due(1249));
    assert!(r.due(1250));
    r.record_failure(1250);
    assert_eq!((r.next_at_ms, r.delay_ms), (1750, 1000));
    r.record_success();
    assert_eq!(r.delay_ms, INITIAL_RETRY_MS);
}

#[test]
fn profile_targets_default_to_all_outputs() {
    let t = profile_targets(&vec![]);
    assert_eq!(t.len(), 1);
    assert_eq!(t[0].id, "all");
    let t = profile_targets(&vec!["DP-1".to_string(), "HDMI-A-1".to_string()]);
    let ids: Vec<&str> = t.iter().map(|o| o.id.as_str()).collect();
    assert_eq!(ids, vec!["DP-1", "HDMI-A-1"]);
}

/// What the daemon asks of its backend, as the daemon loop performs a
/// focus decision.
#[derive(Debug, Clone, PartialEq)]
enum Call {
    Apply(String, f32),
    Reset,
}

struct Daemon {
    profiles: Profiles,
    focus: FocusState,
    calls: Vec<Call>,
    fail_apply: bool,
}

impl Daemon {
    fn new() -> Daemon {
        Daemon { profiles: focus_profiles(), focus: FocusState::new(), calls: vec![], fail_apply: false }
    }

    fn react(&mut self, class: &str) {
        match self.focus.on_window_activated(class, &self.profiles) {
            FocusAction::Apply(i) => {
                let p = &self.profiles.profiles[i];
                let sat = f32::from_bits(p.saturation_bits);
                for o in profile_targets(&p.outputs) {
                    self.calls.push(Call::Apply(o.id.clone(), sat));
                }
                let ok = !self.fail_apply;
                self.focus.record_apply(&self.profiles, i, ok);
            }
            FocusAction::Restore => {
                self.calls.push(Call::Reset);
                self.focus.record_restore();
            }
            FocusAction::NoChange => {}
        }
    }

    fn current(&self) -> Option<String> {
        self.focus.current.clone()
    }
}

fn apply_all(s: f32) -> Call {
    Call::Apply("all".to_string(), s)
}

#[test]
fn applies_on_focus_match() {
    let mut daemon = Daemon::new();
    daemon.react("game.class");
    assert_eq!(daemon.current().as_deref(), Some("game"));
    assert_eq!(daemon.calls, [apply_all(1.5)]);
}

#[test]
fn restores_on_focus_loss() {
    let mut daemon = Daemon::new();
    daemon.react("game.class");
    daemon.react("desktop");
    assert_eq!(daemon.current(), None);
    assert_eq!(daemon.calls, [apply_all(1.5), Call::Reset]);
}

#[test]
fn same_profile_is_a_no_op_while_healthy() {
    let mut daemon = Daemon::new();
    daemon.react("game.class");
    daemon.react("game.class");
    assert_eq!(daemon.calls, [apply_all(1.5)]);
}

#[test]
fn failed_apply_is_retried_on_next_focus() {
    let mut daemon = Daemon::new();
    daemon.fail_apply = true;
    daemon.react("game.class");
    assert_eq!(daemon.current(), None);
    daemon.fail_apply = false;
    daemon.react("game.class");
    assert_eq!(daemon.current().as_deref(), Some("game"));
    assert_eq!(daemon.calls, [apply_all(1.5), apply_all(1.5)]);
}

#[test]
fn invalidation_reapplies_the_same_profile() {
    let mut daemon = Daemon::new();
    daemon.react("game.class");
    daemon.focus.record_restore();
    daemon.react("game.class");
    assert_eq!(daemon.calls, [apply_all(1.5), apply_all(1.5)]);
}

#[test]
fn applies_profile_to_each_configured_output() {
    let mut daemon = Daemon::new();
    daemon.profiles.profiles[0].outputs = vec!["DP-1".into(), "HDMI-A-1".into()];

    daemon.react("game.class");

    assert_eq!(
        daemon.calls,
        [Call::Apply("DP-1".to_string(), 1.5), Call::Apply("HDMI-A-1".to_string(), 1.5)]
    );
}
