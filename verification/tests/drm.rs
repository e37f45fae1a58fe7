use std::cell::RefCell;

use satur8::backend::{BackendError, Output};
use satur8::drm::{
    apply_to_targets, card_node_path, crtc_outputs, has_active_ctm_crtc_id, probe_ctm,
    resolve_target_ids, sorted_unique, CardOutcome, CardSearch, CtmCard,
};

fn output(id: &str) -> Output {
    Output { id: id.into(), human_name: id.into() }
}

#[test]
fn has_active_ctm_crtc_id_reports_true_when_any_crtc_is_active() {
    let ids = [31, 42, 73];

    assert!(has_active_ctm_crtc_id(&ids, |id| id == 42));
    assert!(!has_active_ctm_crtc_id(&ids, |_| false));
}

#[test]
fn resolve_targets_all_fans_out_to_active_crtcs_only() {
    let targets = resolve_target_ids(&output("all"), &[42, 31, 73], |id| id != 42).unwrap();

    assert_eq!(targets, vec![31, 73]);
}

#[test]
fn resolve_targets_all_falls_back_to_every_ctm_crtc_when_none_report_active() {
    let targets = resolve_target_ids(&output("all"), &[42, 31, 73], |_| false).unwrap();

    assert_eq!(targets, vec![31, 42, 73]);
}

#[test]
fn resolve_targets_all_errors_when_no_ctm_crtcs_exist() {
    let err = resolve_target_ids(&output("all"), &[], |_| false).unwrap_err();

    assert!(err.to_string().contains("no CTM-capable CRTC available"));
}

#[test]
fn resolve_targets_numeric_output_selects_that_crtc() {
    let targets = resolve_target_ids(&output("42"), &[31, 42, 73], |_| false).unwrap();

    assert_eq!(targets, vec![42]);
}

#[test]
fn resolve_targets_rejects_non_numeric_output_id() {
    let err = resolve_target_ids(&output("DP-1"), &[31, 42, 73], |_| false).unwrap_err();

    assert!(err.to_string().contains("bad CRTC id 'DP-1'"));
}

#[test]
fn resolve_targets_rejects_crtc_without_ctm_property() {
    let err = resolve_target_ids(&output("99"), &[31, 42, 73], |_| false).unwrap_err();

    assert!(err.to_string().contains("CRTC 99 has no CTM property"));
}

#[test]
fn apply_to_targets_errors_when_any_target_rejects_the_ctm() {
    let attempted = RefCell::new(Vec::new());
    let saturation = 1.5f32;

    let err = apply_to_targets(&vec![31, 42, 73], |id| {
        attempted.borrow_mut().push((id, saturation));
        if id == 42 {
            return Err("simulated commit failure".to_string());
        }
        Ok(())
    })
    .unwrap_err();

    assert_eq!(attempted.into_inner(), vec![(31, 1.5), (42, 1.5), (73, 1.5)]);
    assert!(err.to_string().contains("CRTC 42"));
    assert!(err.to_string().contains("simulated commit failure"));
}

#[test]
fn apply_to_targets_errors_when_every_target_rejects_the_ctm() {
    let err = apply_to_targets(&vec![31, 42], |id| Err(format!("simulated commit failure on {id}")))
        .unwrap_err();

    assert!(err.to_string().contains("CRTC 31"));
    assert!(err.to_string().contains("CRTC 42"));
    assert!(err.to_string().contains("simulated commit failure on 31"));
    assert!(err.to_string().contains("simulated commit failure on 42"));
}

#[test]
fn apply_to_targets_reports_the_exact_joined_failures() {
    let err = apply_to_targets(&vec![7, 8, 9], |id| {
        if id == 8 {
            Ok(())
        } else {
            Err(format!("busy {id}"))
        }
    })
    .unwrap_err();
    match err {
        BackendError::Apply(m) => assert_eq!(m, "CTM commit failed for CRTC 7: busy 7; CRTC 9: busy 9"),
        BackendError::Unavailable(_) => panic!("wrong error kind"),
    }
    assert!(apply_to_targets(&vec![1, 2], |_| Ok(())).is_ok());
    assert!(apply_to_targets(&vec![], |_| Err("never called".to_string())).is_ok());
}

#[test]
fn resolve_targets_exact_error_texts() {
    let err = resolve_target_ids(&output("+x"), &[1], |_| true).unwrap_err();
    assert_eq!(err.to_string(), "failed to apply: bad CRTC id '+x'");
    let err = resolve_target_ids(&output("5000000000"), &[1], |_| true).unwrap_err();
    assert_eq!(err.to_string(), "failed to apply: bad CRTC id '5000000000'");
    let err = resolve_target_ids(&output("all"), &[], |_| true).unwrap_err();
    assert_eq!(err.to_string(), "failed to apply: no CTM-capable CRTC available on this device");
    let targets = resolve_target_ids(&output("+42"), &[42, 42], |_| true).unwrap();
    assert_eq!(targets, vec![42]);
}

#[test]
fn resolve_targets_all_drops_duplicates() {
    let targets = resolve_target_ids(&output("all"), &[9, 3, 9, 3, 1], |id| id != 1).unwrap();
    assert_eq!(targets, vec![3, 9]);
}

#[test]
fn sorted_unique_orders_and_dedups() {
    assert_eq!(sorted_unique(&[5, 1, 5, 3, 1]), vec![1, 3, 5]);
    assert_eq!(sorted_unique(&[]), Vec::<u32>::new());
}

#[test]
fn crtc_outputs_are_ordered_by_id_text() {
    let outs = crtc_outputs(&[9, 100, 42]);
    let ids: Vec<&str> = outs.iter().map(|o| o.id.as_str()).collect();
    assert_eq!(ids, vec!["100", "42", "9"]);
    assert_eq!(outs[0].human_name, "CRTC 100");
    assert_eq!(outs[2].human_name, "CRTC 9");
}

#[test]
fn card_node_paths() {
    assert_eq!(card_node_path(0), "/dev/dri/card0");
    assert_eq!(card_node_path(15), "/dev/dri/card15");
}

#[test]
fn probe_reports_cards_with_ctm() {
    let cards = vec![
        CtmCard { path: "/dev/dri/card0".into(), ctm_crtcs: 0 },
        CtmCard { path: "/dev/dri/card1".into(), ctm_crtcs: 4 },
    ];
    assert_eq!(probe_ctm(&cards).unwrap(), vec!["/dev/dri/card1: 4 CTM-capable CRTC(s)".to_string()]);
    let none = vec![CtmCard { path: "/dev/dri/card0".into(), ctm_crtcs: 0 }];
    assert_eq!(probe_ctm(&none).unwrap_err(), "no CTM-capable DRM CRTCs found on this system");
}

#[test]
fn card_search_prefers_an_active_card_then_the_first_capable_one() {
    let mut s = CardSearch::new();
    assert!(!s.observe(0, CardOutcome::Failed("opening /dev/dri/card0: denied".into())));
    assert!(!s.observe(1, CardOutcome::Opened { ctm_crtcs: 0, any_active: true }));
    assert!(!s.observe(2, CardOutcome::Opened { ctm_crtcs: 3, any_active: false }));
    assert!(!s.observe(3, CardOutcome::Opened { ctm_crtcs: 2, any_active: false }));
    assert!(s.observe(4, CardOutcome::Opened { ctm_crtcs: 1, any_active: true }));
    assert_eq!(s.finish(), Ok(2));

    let mut failed = CardSearch::new();
    failed.observe(0, CardOutcome::Failed("first".into()));
    failed.observe(1, CardOutcome::Failed("second".into()));
    assert_eq!(failed.finish(), Err("second".to_string()));

    assert_eq!(CardSearch::new().finish(), Err("no CTM-capable DRM device found".to_string()));
}
