//! Environment detection: which display session, desktop, and GPU we are on,
//! and which backend that combination prefers.
//!
//! The process environment and the DRM sysfs tree are read by the caller; the
//! decisions made from what was read live here.

use vstd::prelude::*;

use crate::text::{
    all_digits, all_digits_from, chars_of, contains, copy_string, has_prefix, has_substring, lower_seq, owned, push_char,
    starts_with, str_eq, to_ascii_lowercase, trim, trim_str,
};

verus! {

/// The display server in use. This decides who owns DRM and therefore which
/// backends can reach the colour pipeline at all.
#[derive(Debug, Clone, Copy, PartialEq, Eq, Structural)]
pub enum SessionType {
    Wayland,
    X11,
    /// Bare KMS / no display server: we can own DRM master ourselves.
    Tty,
    Unknown,
}

/// The Wayland compositor / desktop, where it matters for backend choice.
#[derive(Debug, Clone, Copy, PartialEq, Eq, Structural)]
pub enum Desktop {
    Kde,
    Gnome,
    Hyprland,
    Sway,
    Other,
}

/// GPU vendor, which decides whether the hardware CTM is reachable and reliable.
#[derive(Debug, Clone, Copy, PartialEq, Eq, Structural)]
pub enum Gpu {
    Amd,
    Intel,
    /// NVIDIA proprietary driver (CTM unreliable; use NV-CONTROL on X11).
    Nvidia,
    /// Open nouveau driver (exposes DRM CTM).
    Nouveau,
    Unknown,
}

/// A snapshot of the runtime environment.
#[derive(Debug, Clone, Copy, PartialEq, Eq, Structural)]
pub struct Environment {
    pub session: SessionType,
    pub desktop: Desktop,
    pub gpu: Gpu,
}

/// The process environment variables that session and desktop detection read,
/// each as `std::env::var` returned it (`None` when unset or not Unicode).
#[derive(Debug, Clone, Default)]
pub struct SessionVars {
    pub xdg_session_type: Option<String>,
    pub wayland_display: Option<String>,
    pub display: Option<String>,
    pub hyprland_instance_signature: Option<String>,
    pub swaysock: Option<String>,
    pub xdg_current_desktop: Option<String>,
    pub xdg_session_desktop: Option<String>,
    pub desktop_session: Option<String>,
}

/// What was learnt about one DRM card node (`/sys/class/drm/cardN`).
#[derive(Debug, Clone)]
pub struct CardFacts {
    /// Name of the kernel driver bound to the card, if the link resolved.
    pub driver: Option<String>,
    /// Whether any of the card's connectors reports `connected`.
    pub has_connected: bool,
}

/// A variable counts as set when it is present and non-empty.
pub open spec fn var_set(v: Option<String>) -> bool {
    v matches Some(s) && s@.len() > 0
}

/// The session named by the environment.
pub open spec fn session_of(v: SessionVars) -> SessionType {
    if var_set(v.xdg_session_type) && v.xdg_session_type->0@ == "wayland"@ {
        SessionType::Wayland
    } else if var_set(v.xdg_session_type) && v.xdg_session_type->0@ == "x11"@ {
        SessionType::X11
    } else if var_set(v.xdg_session_type) && v.xdg_session_type->0@ == "tty"@ {
        SessionType::Tty
    } else if var_set(v.wayland_display) {
        SessionType::Wayland
    } else if var_set(v.display) {
        SessionType::X11
    } else {
        SessionType::Unknown
    }
}

/// The desktop name that is consulted: the first set of `XDG_CURRENT_DESKTOP`,
/// `XDG_SESSION_DESKTOP` and `DESKTOP_SESSION`, else empty.
pub open spec fn desktop_name(v: SessionVars) -> Seq<char> {
    if var_set(v.xdg_current_desktop) {
        v.xdg_current_desktop->0@
    } else if var_set(v.xdg_session_desktop) {
        v.xdg_session_desktop->0@
    } else if var_set(v.desktop_session) {
        v.desktop_session->0@
    } else {
        Seq::empty()
    }
}

/// The desktop named by the environment. Hyprland and Sway advertise
/// themselves with their own variables first.
pub open spec fn desktop_of(v: SessionVars) -> Desktop {
    let d = lower_seq(desktop_name(v));
    if var_set(v.hyprland_instance_signature) {
        Desktop::Hyprland
    } else if var_set(v.swaysock) {
        Desktop::Sway
    } else if has_substring(d, "kde"@) || has_substring(d, "plasma"@) {
        Desktop::Kde
    } else if has_substring(d, "gnome"@) {
        Desktop::Gnome
    } else if has_substring(d, "hyprland"@) {
        Desktop::Hyprland
    } else if has_substring(d, "sway"@) {
        Desktop::Sway
    } else {
        Desktop::Other
    }
}

/// The GPU a kernel driver name stands for.
pub open spec fn gpu_of_driver(d: Seq<char>) -> Option<Gpu> {
    if d == "amdgpu"@ || d == "radeon"@ {
        Some(Gpu::Amd)
    } else if d == "i915"@ || d == "xe"@ {
        Some(Gpu::Intel)
    } else if d == "nvidia"@ || d == "nvidia-drm"@ {
        Some(Gpu::Nvidia)
    } else if d == "nouveau"@ {
        Some(Gpu::Nouveau)
    } else {
        None
    }
}

/// The GPU one card is known to be, if its driver is bound and recognised.
pub open spec fn card_gpu(c: CardFacts) -> Option<Gpu> {
    match c.driver {
        Some(d) => gpu_of_driver(d@),
        None => None,
    }
}

/// The GPU of the first card in `cards` that satisfies `ok` and is recognised.
pub open spec fn first_gpu(cards: Seq<CardFacts>, connected_only: bool) -> Option<Gpu>
    decreases cards.len(),
{
    if cards.len() == 0 {
        None
    } else if (!connected_only || cards[0].has_connected) && card_gpu(cards[0]) is Some {
        card_gpu(cards[0])
    } else {
        first_gpu(cards.drop_first(), connected_only)
    }
}

/// The GPU driving the display: the first recognised card with a connected
/// connector, else the first recognised card, else unknown.
pub open spec fn gpu_of(cards: Seq<CardFacts>) -> Gpu {
    match first_gpu(cards, true) {
        Some(g) => g,
        None => match first_gpu(cards, false) {
            Some(g) => g,
            None => Gpu::Unknown,
        },
    }
}

/// Each kernel driver stands for its own vendor: only `nvidia` and
/// `nvidia-drm` are the proprietary NVIDIA driver, only `nouveau` is the open
/// NVIDIA driver, only `amdgpu` and `radeon` are AMD, only `i915` and `xe`
/// are Intel; every other name is unrecognised.
pub proof fn lemma_driver_vendors(d: Seq<char>)
    ensures
        gpu_of_driver(d) == Some(Gpu::Nvidia) <==> (d == "nvidia"@ || d == "nvidia-drm"@),
        gpu_of_driver(d) == Some(Gpu::Nouveau) <==> d == "nouveau"@,
        gpu_of_driver(d) == Some(Gpu::Amd) <==> (d == "amdgpu"@ || d == "radeon"@),
        gpu_of_driver(d) == Some(Gpu::Intel) <==> (d == "i915"@ || d == "xe"@),
        gpu_of_driver(d) != Some(Gpu::Unknown),
{
    reveal_strlit("amdgpu");
    reveal_strlit("radeon");
    reveal_strlit("i915");
    reveal_strlit("xe");
    reveal_strlit("nvidia");
    reveal_strlit("nvidia-drm");
    reveal_strlit("nouveau");
    let ds = seq!["amdgpu"@, "radeon"@, "i915"@, "xe"@, "nvidia"@, "nvidia-drm"@, "nouveau"@];
    assert forall|a: int, b: int| 0 <= a < b < 7 implies #[trigger] ds[a] != #[trigger] ds[b] by {
        if ds[a].len() == ds[b].len() {
            assert(ds[a][0] != ds[b][0] || ds[a][1] != ds[b][1]);
        }
    }
    assert(ds[0] == "amdgpu"@ && ds[1] == "radeon"@ && ds[2] == "i915"@ && ds[3] == "xe"@);
    assert(ds[4] == "nvidia"@ && ds[5] == "nvidia-drm"@ && ds[6] == "nouveau"@);
}

/// A GPU recognised in a list of cards is the GPU of one of them.
proof fn lemma_first_gpu_from_a_card(cards: Seq<CardFacts>, connected_only: bool)
    ensures
        first_gpu(cards, connected_only) matches Some(g) ==> exists|i: int|
            0 <= i < cards.len() && #[trigger] card_gpu(cards[i]) == Some(g),
    decreases cards.len(),
{
    if cards.len() > 0 {
        lemma_first_gpu_from_a_card(cards.drop_first(), connected_only);
        if let Some(g) = first_gpu(cards.drop_first(), connected_only) {
            let i = choose|i: int| 0 <= i < cards.drop_first().len() && #[trigger] card_gpu(cards.drop_first()[i]) == Some(g);
            assert(card_gpu(cards[i + 1]) == Some(g));
        }
        assert(card_gpu(cards[0]) == card_gpu(cards[0]));
    }
}

/// The GPU detected is one a card's driver stands for: the proprietary NVIDIA
/// GPU is reported only when some card is bound to `nvidia` or `nvidia-drm`,
/// and the open NVIDIA driver only when some card is bound to `nouveau`.
pub proof fn lemma_gpu_comes_from_a_driver(cards: Seq<CardFacts>)
    ensures
        gpu_of(cards) == Gpu::Nvidia ==> exists|i: int|
            0 <= i < cards.len() && ((#[trigger] cards[i]).driver matches Some(d) && (d@ == "nvidia"@ || d@
                == "nvidia-drm"@)),
        gpu_of(cards) == Gpu::Nouveau ==> exists|i: int|
            0 <= i < cards.len() && ((#[trigger] cards[i]).driver matches Some(d) && d@ == "nouveau"@),
{
    lemma_first_gpu_from_a_card(cards, true);
    lemma_first_gpu_from_a_card(cards, false);
    let g = gpu_of(cards);
    if g == Gpu::Nvidia || g == Gpu::Nouveau {
        let i = if first_gpu(cards, true) is Some {
            choose|i: int| 0 <= i < cards.len() && #[trigger] card_gpu(cards[i]) == Some(g)
        } else {
            choose|i: int| 0 <= i < cards.len() && #[trigger] card_gpu(cards[i]) == Some(g)
        };
        let d = cards[i].driver->0;
        lemma_driver_vendors(d@);
        assert(cards[i].driver matches Some(x) && x@ == d@);
    }
}

/// The backend a session prefers, by name.
pub open spec fn preferred_backend_name(e: Environment) -> Seq<char> {
    match e.session {
        SessionType::Wayland => match e.desktop {
            Desktop::Kde => "kwin"@,
            Desktop::Hyprland => "hyprland"@,
            Desktop::Gnome => "gnome-shell"@,
            _ => "gamescope"@,
        },
        SessionType::X11 => match e.gpu {
            Gpu::Nvidia => "nv-control"@,
            _ => "drm-ctm"@,
        },
        SessionType::Tty => "drm-ctm"@,
        SessionType::Unknown => "gamescope"@,
    }
}

/// On Wayland each compositor with a native backend prefers that backend,
/// and only desktops without one fall back to the nested gamescope: KDE gets
/// `kwin`, GNOME `gnome-shell`, Hyprland `hyprland`, whatever the GPU.
pub proof fn lemma_wayland_prefers_native_backends(e: Environment)
    requires
        e.session == SessionType::Wayland,
    ensures
        preferred_backend_name(e) == "gamescope"@ <==> (e.desktop == Desktop::Sway || e.desktop
            == Desktop::Other),
        e.desktop == Desktop::Kde ==> preferred_backend_name(e) == "kwin"@,
        e.desktop == Desktop::Gnome ==> preferred_backend_name(e) == "gnome-shell"@,
        e.desktop == Desktop::Hyprland ==> preferred_backend_name(e) == "hyprland"@,
        forall|g: Gpu| #[trigger] preferred_backend_name(Environment { gpu: g, ..e }) == preferred_backend_name(e),
{
    reveal_strlit("gamescope");
    reveal_strlit("kwin");
    reveal_strlit("gnome-shell");
    reveal_strlit("hyprland");
    assert("kwin"@ != "gamescope"@) by {
        assert("kwin"@.len() != "gamescope"@.len());
    }
    assert("gnome-shell"@ != "gamescope"@) by {
        assert("gnome-shell"@.len() != "gamescope"@.len());
    }
    assert("hyprland"@ != "gamescope"@) by {
        assert("hyprland"@[0] != "gamescope"@[0]);
    }
}

/// The DRM sysfs entry name of a card node: `card` followed by at least one
/// digit and nothing else (so not a connector such as `card0-DP-1`).
pub open spec fn is_card_name(n: Seq<char>) -> bool {
    &&& starts_with(n, "card"@)
    &&& n.len() > 4
    &&& all_digits(n.subrange(4, n.len() as int))
}

/// A connector entry of card `card`: its name starts with `card` and `-`.
pub open spec fn is_connector_of(card: Seq<char>, entry: Seq<char>) -> bool {
    starts_with(entry, card.push('-'))
}

/// Whether the value is set and non-empty.
pub fn var_is_set(v: &Option<String>) -> (r: bool)
    ensures
        r == var_set(*v),
{
    match v {
        Some(s) => s.unicode_len() > 0,
        None => false,
    }
}

/// Whether a set variable equals `lit` exactly.
fn var_equals(v: &Option<String>, lit: &str) -> (r: bool)
    ensures
        r == (var_set(*v) && v->0@ == lit@),
{
    match v {
        Some(s) => s.unicode_len() > 0 && str_eq(s.as_str(), lit),
        None => false,
    }
}

impl Environment {
    /// Detect the environment from the process variables and the DRM cards
    /// found under `/sys/class/drm`, in the order they were listed.
    pub fn detect(vars: &SessionVars, cards: &Vec<CardFacts>) -> (e: Environment)
        ensures
            e.session == session_of(*vars),
            e.desktop == desktop_of(*vars),
            e.gpu == gpu_of(cards@),
    {
        Environment {
            session: detect_session(vars),
            desktop: detect_desktop(vars),
            gpu: choose_gpu(cards),
        }
    }

    /// The backend that should be preferred here, by name. The backends still
    /// confirm availability themselves; this is the intended pick.
    pub fn preferred_backend(self) -> (r: &'static str)
        ensures
            r@ == preferred_backend_name(self),
    {
        match self.session {
            SessionType::Wayland => match self.desktop {
                Desktop::Kde => "kwin",
                Desktop::Hyprland => "hyprland",
                Desktop::Gnome => "gnome-shell",
                _ => "gamescope",
            },
            SessionType::X11 => match self.gpu {
                Gpu::Nvidia => "nv-control",
                _ => "drm-ctm",
            },
            SessionType::Tty => "drm-ctm",
            SessionType::Unknown => "gamescope",
        }
    }
}

/// The session the environment variables name.
pub fn detect_session(vars: &SessionVars) -> (s: SessionType)
    ensures
        s == session_of(*vars),
{
    if var_equals(&vars.xdg_session_type, "wayland") {
        return SessionType::Wayland;
    }
    if var_equals(&vars.xdg_session_type, "x11") {
        return SessionType::X11;
    }
    if var_equals(&vars.xdg_session_type, "tty") {
        return SessionType::Tty;
    }
    if var_is_set(&vars.wayland_display) {
        SessionType::Wayland
    } else if var_is_set(&vars.display) {
        SessionType::X11
    } else {
        SessionType::Unknown
    }
}

/// The desktop the environment variables name.
pub fn detect_desktop(vars: &SessionVars) -> (d: Desktop)
    ensures
        d == desktop_of(*vars),
{
    if var_is_set(&vars.hyprland_instance_signature) {
        return Desktop::Hyprland;
    }
    if var_is_set(&vars.swaysock) {
        return Desktop::Sway;
    }
    let raw: String = if var_is_set(&vars.xdg_current_desktop) {
        copy_string(vars.xdg_current_desktop.as_ref().unwrap())
    } else if var_is_set(&vars.xdg_session_desktop) {
        copy_string(vars.xdg_session_desktop.as_ref().unwrap())
    } else if var_is_set(&vars.desktop_session) {
        copy_string(vars.desktop_session.as_ref().unwrap())
    } else {
        String::new()
    };
    assert(raw@ == desktop_name(*vars));
    let lower = to_ascii_lowercase(raw.as_str());
    let desk = chars_of(lower.as_str());
    let kde = chars_of("kde");
    let plasma = chars_of("plasma");
    let gnome = chars_of("gnome");
    let hyprland = chars_of("hyprland");
    let sway = chars_of("sway");
    if contains(&desk, &kde) || contains(&desk, &plasma) {
        Desktop::Kde
    } else if contains(&desk, &gnome) {
        Desktop::Gnome
    } else if contains(&desk, &hyprland) {
        Desktop::Hyprland
    } else if contains(&desk, &sway) {
        Desktop::Sway
    } else {
        Desktop::Other
    }
}

/// The GPU a kernel driver name stands for.
pub fn classify_driver(driver: &str) -> (g: Option<Gpu>)
    ensures
        g == gpu_of_driver(driver@),
{
    if str_eq(driver, "amdgpu") || str_eq(driver, "radeon") {
        Some(Gpu::Amd)
    } else if str_eq(driver, "i915") || str_eq(driver, "xe") {
        Some(Gpu::Intel)
    } else if str_eq(driver, "nvidia") || str_eq(driver, "nvidia-drm") {
        Some(Gpu::Nvidia)
    } else if str_eq(driver, "nouveau") {
        Some(Gpu::Nouveau)
    } else {
        None
    }
}

fn card_classify(c: &CardFacts) -> (g: Option<Gpu>)
    ensures
        g == card_gpu(*c),
{
    match &c.driver {
        Some(d) => classify_driver(d.as_str()),
        None => None,
    }
}

fn find_gpu(cards: &Vec<CardFacts>, connected_only: bool) -> (g: Option<Gpu>)
    ensures
        g == first_gpu(cards@, connected_only),
{
    let mut i: usize = cards.len();
    let mut found: Option<Gpu> = None;
    while i > 0
        invariant
            i <= cards@.len(),
            found == first_gpu(cards@.subrange(i as int, cards@.len() as int), connected_only),
        decreases i,
    {
        i = i - 1;
        let ghost rest = cards@.subrange(i as int, cards@.len() as int);
        assert(rest.drop_first() =~= cards@.subrange(i + 1, cards@.len() as int));
        let g = card_classify(&cards[i]);
        if (!connected_only || cards[i].has_connected) && g.is_some() {
            found = g;
        }
    }
    assert(cards@.subrange(0, cards@.len() as int) =~= cards@);
    found
}

/// The GPU driving the display, chosen from the DRM cards in listing order:
/// the first recognised card with a connected connector, else the first
/// recognised card, else unknown.
pub fn choose_gpu(cards: &Vec<CardFacts>) -> (g: Gpu)
    ensures
        g == gpu_of(cards@),
{
    match find_gpu(cards, true) {
        Some(g) => g,
        None => match find_gpu(cards, false) {
            Some(g) => g,
            None => Gpu::Unknown,
        },
    }
}

/// Whether a `/sys/class/drm` entry is a card node rather than a connector.
pub fn is_card_entry(name: &str) -> (r: bool)
    ensures
        r == is_card_name(name@),
{
    let v = chars_of(name);
    let card = chars_of("card");
    if !has_prefix(&v, &card) || v.len() <= 4 {
        return false;
    }
    all_digits_from(&v, 4)
}

/// Whether `entry` is one of the connectors of card `card` (`card0-DP-1` for
/// `card0`).
pub fn is_connector_entry(card: &str, entry: &str) -> (r: bool)
    ensures
        r == is_connector_of(card@, entry@),
{
    let mut prefix = owned(card);
    push_char(&mut prefix, '-');
    let p = chars_of(prefix.as_str());
    let e = chars_of(entry);
    has_prefix(&e, &p)
}

/// Whether a connector's `status` file content reports a connected display.
pub fn status_is_connected(status: &str) -> (r: bool)
    ensures
        r == (trim(status@) == "connected"@),
{
    let t = trim_str(status);
    str_eq(t.as_str(), "connected")
}

/// The name a session type is shown by.
pub open spec fn session_label(s: SessionType) -> Seq<char> {
    match s {
        SessionType::Wayland => "Wayland"@,
        SessionType::X11 => "X11"@,
        SessionType::Tty => "TTY/KMS"@,
        SessionType::Unknown => "unknown"@,
    }
}

/// The name a desktop is shown by.
pub open spec fn desktop_label(d: Desktop) -> Seq<char> {
    match d {
        Desktop::Kde => "KDE Plasma"@,
        Desktop::Gnome => "GNOME"@,
        Desktop::Hyprland => "Hyprland"@,
        Desktop::Sway => "Sway"@,
        Desktop::Other => "other"@,
    }
}

/// The name a GPU driver family is shown by.
pub open spec fn gpu_label(g: Gpu) -> Seq<char> {
    match g {
        Gpu::Amd => "AMD"@,
        Gpu::Intel => "Intel"@,
        Gpu::Nvidia => "NVIDIA (proprietary)"@,
        Gpu::Nouveau => "NVIDIA (nouveau)"@,
        Gpu::Unknown => "unknown"@,
    }
}

impl SessionType {
    /// The name shown to users.
    pub fn label(self) -> (r: &'static str)
        ensures
            r@ == session_label(self),
    {
        match self {
            SessionType::Wayland => "Wayland",
            SessionType::X11 => "X11",
            SessionType::Tty => "TTY/KMS",
            SessionType::Unknown => "unknown",
        }
    }
}

impl Desktop {
    /// The name shown to users.
    pub fn label(self) -> (r: &'static str)
        ensures
            r@ == desktop_label(self),
    {
        match self {
            Desktop::Kde => "KDE Plasma",
            Desktop::Gnome => "GNOME",
            Desktop::Hyprland => "Hyprland",
            Desktop::Sway => "Sway",
            Desktop::Other => "other",
        }
    }
}

impl Gpu {
    /// The name shown to users.
    pub fn label(self) -> (r: &'static str)
        ensures
            r@ == gpu_label(self),
    {
        match self {
            Gpu::Amd => "AMD",
            Gpu::Intel => "Intel",
            Gpu::Nvidia => "NVIDIA (proprietary)",
            Gpu::Nouveau => "NVIDIA (nouveau)",
            Gpu::Unknown => "unknown",
        }
    }
}

/// What is reported when no apply/reset backend is reachable: the detected
/// environment, the preferred backend, and the gamescope fallback.
pub open spec fn no_backend_text(e: Environment) -> Seq<char> {
    "no usable apply/reset backend for this session ("@ + session_label(e.session) + ", "@
        + desktop_label(e.desktop) + ", "@ + gpu_label(e.gpu) + ").\nPreferred here is '"@
        + preferred_backend_name(e)
        + "'. On a niche wlroots compositor with no native hook, use the gamescope fallback: `satur8 run --via gamescope -- <game>`."@
}

/// The report for a session in which no backend could be reached.
pub fn no_backend_message(e: Environment) -> (r: String)
    ensures
        r@ == no_backend_text(e),
{
    let mut s = owned("no usable apply/reset backend for this session (");
    s.append(e.session.label());
    s.append(", ");
    s.append(e.desktop.label());
    s.append(", ");
    s.append(e.gpu.label());
    s.append(").\nPreferred here is '");
    s.append(e.preferred_backend());
    s.append(
        "'. On a niche wlroots compositor with no native hook, use the gamescope fallback: `satur8 run --via gamescope -- <game>`.",
    );
    s
}

/// What the doctor says about reaching the DRM colour matrix directly.
pub open spec fn ctm_reach_text(s: SessionType) -> Seq<char> {
    match s {
        SessionType::Tty => "-> usable now: no display server owns DRM master"@,
        _ => "-> on "@ + session_label(s)
            + " the display server owns DRM master; CTM is reached through its backend (KWin here), not directly"@,
    }
}

/// Whether the DRM colour matrix can be driven directly in this session.
pub fn ctm_reach_note(session: SessionType) -> (r: String)
    ensures
        r@ == ctm_reach_text(session),
{
    match session {
        SessionType::Tty => owned("-> usable now: no display server owns DRM master"),
        _ => {
            let mut s = owned("-> on ");
            s.append(session.label());
            s.append(
                " the display server owns DRM master; CTM is reached through its backend (KWin here), not directly",
            );
            s
        },
    }
}

/// A backend that is only claimed in one kind of session.
#[derive(Debug, Clone, Copy, PartialEq, Eq, Structural)]
pub enum SessionBackend {
    /// The KWin effect: KDE Plasma on Wayland.
    Kwin,
    /// The GNOME Shell extension: GNOME on Wayland.
    GnomeShell,
    /// Writing the DRM colour matrix directly: a bare TTY, where no display
    /// server owns DRM master.
    DrmCtm,
}

/// Whether a backend may be claimed in this environment (it still has to
/// answer before it is used).
pub open spec fn session_allows(b: SessionBackend, e: Environment) -> bool {
    match b {
        SessionBackend::Kwin => e.session == SessionType::Wayland && e.desktop == Desktop::Kde,
        SessionBackend::GnomeShell => e.session == SessionType::Wayland && e.desktop == Desktop::Gnome,
        SessionBackend::DrmCtm => e.session == SessionType::Tty,
    }
}

/// Whether a backend may be claimed in this environment.
pub fn session_allows_backend(b: SessionBackend, e: Environment) -> (r: bool)
    ensures
        r == session_allows(b, e),
{
    match b {
        SessionBackend::Kwin => e.session == SessionType::Wayland && e.desktop == Desktop::Kde,
        SessionBackend::GnomeShell => e.session == SessionType::Wayland && e.desktop == Desktop::Gnome,
        SessionBackend::DrmCtm => e.session == SessionType::Tty,
    }
}

} // verus!
