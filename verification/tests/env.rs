use satur8::env::{
    choose_gpu, classify_driver, ctm_reach_note, detect_desktop, detect_session, is_card_entry,
    is_connector_entry, no_backend_message, session_allows_backend, status_is_connected,
    CardFacts, Desktop, Environment, Gpu, SessionBackend, SessionType, SessionVars,
};

fn vars() -> SessionVars {
    SessionVars::default()
}

fn card(driver: Option<&str>, connected: bool) -> CardFacts {
    CardFacts { driver: driver.map(|d| d.to_string()), has_connected: connected }
}

#[test]
fn session_prefers_xdg_session_type() {
    let mut v = vars();
    v.xdg_session_type = Some("x11".into());
    v.wayland_display = Some("wayland-0".into());
    assert_eq!(detect_session(&v), SessionType::X11);
    v.xdg_session_type = Some("tty".into());
    assert_eq!(detect_session(&v), SessionType::Tty);
    v.xdg_session_type = Some("".into());
    assert_eq!(detect_session(&v), SessionType::Wayland);
    v.wayland_display = None;
    v.display = Some(":0".into());
    assert_eq!(detect_session(&v), SessionType::X11);
    assert_eq!(detect_session(&vars()), SessionType::Unknown);
}

#[test]
fn desktop_detection_by_name_and_compositor_variables() {
    let mut v = vars();
    v.xdg_current_desktop = Some("KDE".into());
    assert_eq!(detect_desktop(&v), Desktop::Kde);
    v.xdg_current_desktop = Some("ubuntu:GNOME".into());
    assert_eq!(detect_desktop(&v), Desktop::Gnome);
    v.swaysock = Some("/run/sway.sock".into());
    assert_eq!(detect_desktop(&v), Desktop::Sway);
    v.hyprland_instance_signature = Some("abc".into());
    assert_eq!(detect_desktop(&v), Desktop::Hyprland);
    let mut w = vars();
    w.desktop_session = Some("plasmawayland".into());
    assert_eq!(detect_desktop(&w), Desktop::Kde);
    assert_eq!(detect_desktop(&vars()), Desktop::Other);
}

#[test]
fn gpu_prefers_a_card_with_a_connected_display() {
    assert_eq!(classify_driver("amdgpu"), Some(Gpu::Amd));
    assert_eq!(classify_driver("nvidia-drm"), Some(Gpu::Nvidia));
    assert_eq!(classify_driver("vfio-pci"), None);
    let cards = vec![card(Some("i915"), false), card(Some("nvidia"), true)];
    assert_eq!(choose_gpu(&cards), Gpu::Nvidia);
    let cards = vec![card(None, true), card(Some("i915"), false), card(Some("amdgpu"), false)];
    assert_eq!(choose_gpu(&cards), Gpu::Intel);
    assert_eq!(choose_gpu(&vec![]), Gpu::Unknown);
}

#[test]
fn sysfs_entry_names() {
    assert!(is_card_entry("card0"));
    assert!(is_card_entry("card12"));
    assert!(!is_card_entry("card"));
    assert!(!is_card_entry("card0-DP-1"));
    assert!(!is_card_entry("renderD128"));
    assert!(is_connector_entry("card0", "card0-DP-1"));
    assert!(!is_connector_entry("card0", "card01-DP-1"));
    assert!(status_is_connected("connected\n"));
    assert!(!status_is_connected("disconnected\n"));
}

#[test]
fn preferred_backend_per_session() {
    let env = |session, desktop, gpu| Environment { session, desktop, gpu };
    assert_eq!(env(SessionType::Wayland, Desktop::Kde, Gpu::Amd).preferred_backend(), "kwin");
    assert_eq!(env(SessionType::Wayland, Desktop::Gnome, Gpu::Amd).preferred_backend(), "gnome-shell");
    assert_eq!(env(SessionType::Wayland, Desktop::Sway, Gpu::Amd).preferred_backend(), "gamescope");
    assert_eq!(env(SessionType::X11, Desktop::Kde, Gpu::Nvidia).preferred_backend(), "nv-control");
    assert_eq!(env(SessionType::X11, Desktop::Kde, Gpu::Intel).preferred_backend(), "drm-ctm");
    assert_eq!(env(SessionType::Tty, Desktop::Other, Gpu::Unknown).preferred_backend(), "drm-ctm");
}

#[test]
fn environment_detect_combines_the_parts() {
    let mut v = vars();
    v.xdg_session_type = Some("wayland".into());
    v.xdg_current_desktop = Some("KDE".into());
    let e = Environment::detect(&v, &vec![card(Some("amdgpu"), true)]);
    assert_eq!(e, Environment { session: SessionType::Wayland, desktop: Desktop::Kde, gpu: Gpu::Amd });
}

#[test]
fn no_backend_message_names_the_session_and_the_fallback() {
    let e = Environment { session: SessionType::Wayland, desktop: Desktop::Sway, gpu: Gpu::Nouveau };
    assert_eq!(
        no_backend_message(e),
        "no usable apply/reset backend for this session (Wayland, Sway, NVIDIA (nouveau)).\nPreferred here is 'gamescope'. On a niche wlroots compositor with no native hook, use the gamescope fallback: `satur8 run --via gamescope -- <game>`."
    );
}

#[test]
fn ctm_is_reachable_only_from_a_tty() {
    assert_eq!(ctm_reach_note(SessionType::Tty), "-> usable now: no display server owns DRM master");
    assert_eq!(
        ctm_reach_note(SessionType::X11),
        "-> on X11 the display server owns DRM master; CTM is reached through its backend (KWin here), not directly"
    );
}

#[test]
fn session_gates_of_the_compositor_backends() {
    let kde = Environment { session: SessionType::Wayland, desktop: Desktop::Kde, gpu: Gpu::Amd };
    let tty = Environment { session: SessionType::Tty, desktop: Desktop::Other, gpu: Gpu::Amd };
    assert!(session_allows_backend(SessionBackend::Kwin, kde));
    assert!(!session_allows_backend(SessionBackend::GnomeShell, kde));
    assert!(!session_allows_backend(SessionBackend::DrmCtm, kde));
    assert!(session_allows_backend(SessionBackend::DrmCtm, tty));
    assert_eq!(SessionType::Tty.label(), "TTY/KMS");
    assert_eq!(Desktop::Kde.label(), "KDE Plasma");
    assert_eq!(Gpu::Nvidia.label(), "NVIDIA (proprietary)");
}
