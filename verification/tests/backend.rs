use satur8::backend::{
    all_outputs, cost_suffix, linear_ignored_note, linear_light_step, pick_output, BackendError,
    CostNote, LinearLightStep, Output,
};

#[test]
fn cost_suffixes() {
    assert_eq!(cost_suffix(CostNote::ZeroCost), " (zero per-frame cost)");
    assert_eq!(cost_suffix(CostNote::CompositorShaderPass), " (one compositor GPU pass)");
    assert_eq!(
        cost_suffix(CostNote::NestedCompositor),
        " (nested compositor: extra pass + latency)"
    );
}

#[test]
fn backend_error_texts() {
    assert_eq!(BackendError::Unavailable("x".into()).to_string(), "backend unavailable: x");
    assert_eq!(BackendError::Apply("y".into()).to_string(), "failed to apply: y");
}

#[test]
fn all_outputs_sentinel() {
    let o = all_outputs();
    assert_eq!(o.id, "all");
    assert_eq!(o.human_name, "All outputs");
}

#[test]
fn linear_flag_is_enabled_only_when_supported() {
    assert_eq!(linear_light_step(true, true), (LinearLightStep::Enable, true));
    assert_eq!(linear_light_step(true, false), (LinearLightStep::Leave, false));
    assert_eq!(linear_light_step(false, true), (LinearLightStep::Disable, false));
    assert_eq!(linear_light_step(false, false), (LinearLightStep::Disable, false));
    assert_eq!(
        linear_ignored_note("drm-ctm"),
        "note: the drm-ctm backend works in its native color space and ignores --linear"
    );
}

#[test]
fn pick_output_by_id_or_all() {
    let outs = vec![
        Output { id: "31".into(), human_name: "CRTC 31".into() },
        Output { id: "42".into(), human_name: "CRTC 42".into() },
    ];
    let o = pick_output(&outs, Some("42"), "drm-ctm").unwrap();
    assert_eq!((o.id.as_str(), o.human_name.as_str()), ("42", "CRTC 42"));
    let all = pick_output(&outs, None, "drm-ctm").unwrap();
    assert_eq!(all.id, "all");
    assert_eq!(
        pick_output(&outs, Some("DP-1"), "drm-ctm").unwrap_err(),
        "no output 'DP-1' on the drm-ctm backend (see `satur8 outputs`)"
    );
}

/// A backend that records the linear-light calls and whether linear light
/// was on when the saturation was applied.
#[derive(Default)]
struct FakeBackend {
    supports_linear: bool,
    linear_light: bool,
    linear_at_apply: Option<bool>,
    set_calls: Vec<bool>,
}

impl FakeBackend {
    fn set_linear_light(&mut self, enabled: bool) {
        self.linear_light = enabled;
        self.set_calls.push(enabled);
    }

    /// Applies a saturation after the linear-light step, as `satur8 set` does.
    fn apply_with_linear_flag(&mut self, linear: bool) -> bool {
        let (step, active) = linear_light_step(linear, self.supports_linear);
        match step {
            LinearLightStep::Enable => self.set_linear_light(true),
            LinearLightStep::Disable => self.set_linear_light(false),
            LinearLightStep::Leave => {}
        }
        self.linear_at_apply = Some(self.linear_light);
        active
    }
}

#[test]
fn linear_flag_is_set_before_apply_when_supported() {
    let mut backend = FakeBackend { supports_linear: true, ..FakeBackend::default() };

    let active = backend.apply_with_linear_flag(true);

    assert!(active);
    assert_eq!(backend.set_calls, vec![true]);
    assert_eq!(backend.linear_at_apply, Some(true));
}

#[test]
fn linear_flag_is_ignored_without_backend_support() {
    let mut backend = FakeBackend::default();

    let active = backend.apply_with_linear_flag(true);

    assert!(!active);
    assert!(backend.set_calls.is_empty());
    assert_eq!(backend.linear_at_apply, Some(false));
}

#[test]
fn non_linear_apply_disables_linear_mode_before_apply() {
    let mut backend = FakeBackend { supports_linear: true, linear_light: true, ..FakeBackend::default() };

    let active = backend.apply_with_linear_flag(false);

    assert!(!active);
    assert_eq!(backend.set_calls, vec![false]);
    assert_eq!(backend.linear_at_apply, Some(false));
}
