//! The focus daemon's decisions. The compositor reports each window
//! activation; a window class that matches a profile applies that profile, and
//! focusing anything else restores the desktop default. The daemon performs
//! the backend calls these decisions ask for and reports back how they went.

use vstd::prelude::*;

use crate::backend::{all_outputs, Output};
use crate::profile::{first_match, name_is, window_class_is, Profile, ProfileKey, Profiles};
use crate::text::{copy_string, str_eq};

verus! {

/// The first delay before looking for a backend again, in milliseconds.
pub const INITIAL_RETRY_MS: u64 = 250;

/// The longest delay between looks for a backend, in milliseconds.
pub const MAX_RETRY_MS: u64 = 8000;

/// What a window activation asks the daemon to do.
#[derive(Debug, Clone, Copy, PartialEq, Eq, Structural)]
pub enum FocusAction {
    /// Apply the profile at this index.
    Apply(usize),
    /// Restore the desktop default.
    Restore,
    /// Nothing to do.
    NoChange,
}

/// What re-reading the profiles file asks the daemon to do.
#[derive(Debug, Clone, Copy, PartialEq, Eq, Structural)]
pub enum ReloadAction {
    /// Apply the (possibly edited) active profile again, at this index.
    Reapply(usize),
    /// The active profile is gone: restore the desktop default.
    Restore,
    /// No profile is active.
    NoChange,
}

/// The action for a window of class `class` while `current` is applied.
pub open spec fn focus_action(current: Option<Seq<char>>, class: Seq<char>, ps: Seq<Profile>) -> FocusAction {
    match first_match(ps, window_class_is(class)) {
        Some(i) => if current == Some(ps[i].name@) {
            FocusAction::NoChange
        } else {
            FocusAction::Apply(i as usize)
        },
        None => if current is Some {
            FocusAction::Restore
        } else {
            FocusAction::NoChange
        },
    }
}

/// The action after a reload while `current` is applied.
pub open spec fn reload_action(current: Option<Seq<char>>, ps: Seq<Profile>) -> ReloadAction {
    match current {
        None => ReloadAction::NoChange,
        Some(n) => match first_match(ps, name_is(n)) {
            Some(i) => ReloadAction::Reapply(i as usize),
            None => ReloadAction::Restore,
        },
    }
}

/// The view of an optional string.
pub open spec fn opt_string_view(v: Option<String>) -> Option<Seq<char>> {
    match v {
        Some(s) => Some(s@),
        None => None,
    }
}

/// Decides what to do when a window of class `window_class` is activated while
/// the profile named `current` (if any) is applied.
pub fn decide_focus_action(current: Option<&str>, window_class: &str, profiles: &Profiles) -> (a:
    FocusAction)
    ensures
        a == focus_action(crate::config::opt_view(current), window_class@, profiles.profiles@),
{
    match profiles.position(&ProfileKey::WindowClass(window_class)) {
        Some(i) => {
            let same = match current {
                Some(c) => str_eq(c, profiles.profiles[i].name.as_str()),
                None => false,
            };
            if same {
                FocusAction::NoChange
            } else {
                FocusAction::Apply(i)
            }
        },
        None => if current.is_some() {
            FocusAction::Restore
        } else {
            FocusAction::NoChange
        },
    }
}

/// Which profile the daemon has applied.
#[derive(Debug, Clone)]
pub struct FocusState {
    /// Name of the profile currently applied, if any.
    pub current: Option<String>,
}

impl FocusState {
    /// Nothing applied yet.
    pub fn new() -> (s: FocusState)
        ensures
            s.current is None,
    {
        FocusState { current: None }
    }

    /// What a window activation of class `window_class` asks for.
    pub fn on_window_activated(&self, window_class: &str, profiles: &Profiles) -> (a: FocusAction)
        ensures
            a == focus_action(opt_string_view(self.current), window_class@, profiles.profiles@),
    {
        match &self.current {
            Some(c) => decide_focus_action(Some(c.as_str()), window_class, profiles),
            None => decide_focus_action(None, window_class, profiles),
        }
    }

    /// Records how applying profile `index` went: on success it becomes the
    /// active profile; on failure nothing counts as applied, so the next
    /// activation of the same game tries again.
    pub fn record_apply(&mut self, profiles: &Profiles, index: usize, succeeded: bool)
        requires
            index < profiles.profiles@.len(),
        ensures
            succeeded ==> opt_string_view(final(self).current) == Some(
                profiles.profiles@[index as int].name@,
            ),
            !succeeded ==> final(self).current is None,
    {
        if succeeded {
            self.current = Some(copy_string(&profiles.profiles[index].name));
        } else {
            self.current = None;
        }
    }

    /// Records that the desktop default was restored (or attempted).
    pub fn record_restore(&mut self)
        ensures
            final(self).current is None,
    {
        self.current = None;
    }

    /// What re-reading the profiles file asks for.
    pub fn on_reload(&self, profiles: &Profiles) -> (a: ReloadAction)
        ensures
            a == reload_action(opt_string_view(self.current), profiles.profiles@),
    {
        match &self.current {
            None => ReloadAction::NoChange,
            Some(n) => match profiles.position(&ProfileKey::Name(n.as_str())) {
                Some(i) => ReloadAction::Reapply(i),
                None => ReloadAction::Restore,
            },
        }
    }

    /// The profile currently applied, or the empty string.
    pub fn active_profile(&self) -> (r: String)
        ensures
            r@ == match self.current {
                Some(c) => c@,
                None => Seq::<char>::empty(),
            },
    {
        match &self.current {
            Some(c) => copy_string(c),
            None => String::new(),
        }
    }
}

/// Re-focusing the game whose profile was just applied does nothing, while a
/// failed apply is tried again on the next activation.
pub proof fn lemma_refocus(ps: Seq<Profile>, class: Seq<char>)
    ensures
        first_match(ps, window_class_is(class)) matches Some(i) ==> {
            &&& focus_action(Some(ps[i].name@), class, ps) == FocusAction::NoChange
            &&& focus_action(None, class, ps) == FocusAction::Apply(i as usize)
        },
{
}

/// Leaving a game restores the desktop once: an unmatched window restores
/// while a profile is applied, and does nothing once it has been restored.
pub proof fn lemma_leave_game(ps: Seq<Profile>, class: Seq<char>, applied: Seq<char>)
    requires
        first_match(ps, window_class_is(class)) is None,
    ensures
        focus_action(Some(applied), class, ps) == FocusAction::Restore,
        focus_action(None, class, ps) == FocusAction::NoChange,
{
}

/// The delay before the next look for a backend after one more failure:
/// doubled, up to the maximum.
pub open spec fn next_retry(delay_ms: u64) -> u64 {
    if delay_ms * 2 < MAX_RETRY_MS {
        (delay_ms * 2) as u64
    } else {
        MAX_RETRY_MS
    }
}

/// The delay before the next look for a backend after one more failure.
pub fn next_retry_delay_ms(delay_ms: u64) -> (r: u64)
    requires
        delay_ms <= MAX_RETRY_MS,
    ensures
        r == next_retry(delay_ms),
{
    let doubled = delay_ms * 2;
    if doubled < MAX_RETRY_MS {
        doubled
    } else {
        MAX_RETRY_MS
    }
}

/// Backing off never shrinks the delay and never leaves the range between the
/// first delay and the maximum.
pub proof fn lemma_retry_bounded(delay_ms: u64)
    requires
        INITIAL_RETRY_MS <= delay_ms <= MAX_RETRY_MS,
    ensures
        delay_ms <= next_retry(delay_ms) <= MAX_RETRY_MS,
        INITIAL_RETRY_MS <= next_retry(delay_ms),
{
}

/// When the daemon may next look for a backend, after looks that failed.
/// Times are milliseconds on the caller's monotonic clock.
#[derive(Debug, Clone, Copy, PartialEq, Eq, Structural)]
pub struct BackendRetry {
    /// The wait after the next failed look.
    pub delay_ms: u64,
    /// No look before this time.
    pub next_at_ms: u64,
}

impl BackendRetry {
    /// The delay stays between the first delay and the maximum.
    pub open spec fn wf(self) -> bool {
        INITIAL_RETRY_MS <= self.delay_ms <= MAX_RETRY_MS
    }

    /// Ready to look at once, with the first delay.
    pub fn new(now_ms: u64) -> (r: BackendRetry)
        ensures
            r.wf(),
            r.delay_ms == INITIAL_RETRY_MS,
            r.next_at_ms == now_ms,
    {
        BackendRetry { delay_ms: INITIAL_RETRY_MS, next_at_ms: now_ms }
    }

    /// Whether a look for a backend is due at `now_ms`.
    pub fn due(&self, now_ms: u64) -> (r: bool)
        ensures
            r == (now_ms >= self.next_at_ms),
    {
        now_ms >= self.next_at_ms
    }

    /// A look at `now_ms` failed: wait the current delay, then double it (up
    /// to the maximum) for the time after.
    pub fn record_failure(&mut self, now_ms: u64)
        requires
            old(self).wf(),
            now_ms + old(self).delay_ms <= u64::MAX,
        ensures
            final(self).wf(),
            final(self).next_at_ms == now_ms + old(self).delay_ms,
            final(self).delay_ms == next_retry(old(self).delay_ms),
    {
        self.next_at_ms = now_ms + self.delay_ms;
        self.delay_ms = next_retry_delay_ms(self.delay_ms);
    }

    /// A look found a backend: the next failure waits the first delay again.
    pub fn record_success(&mut self)
        ensures
            final(self).wf(),
            final(self).delay_ms == INITIAL_RETRY_MS,
            final(self).next_at_ms == old(self).next_at_ms,
    {
        self.delay_ms = INITIAL_RETRY_MS;
    }
}

/// After `n` failed looks in a row the delay is the first delay doubled `n`
/// times, capped at the maximum, and never outside that range.
pub open spec fn delay_after(n: nat) -> u64
    decreases n,
{
    if n == 0 {
        INITIAL_RETRY_MS
    } else {
        next_retry(delay_after((n - 1) as nat))
    }
}

/// The backoff reaches the maximum after five failures and stays there.
pub proof fn lemma_backoff_caps(n: nat)
    ensures
        INITIAL_RETRY_MS <= delay_after(n) <= MAX_RETRY_MS,
        n >= 5 ==> delay_after(n) == MAX_RETRY_MS,
    decreases n,
{
    if n > 0 {
        lemma_backoff_caps((n - 1) as nat);
        if n == 5 {
            reveal_with_fuel(delay_after, 6);
        }
    }
}

/// The outputs a profile is applied to: the single "all" output when it names
/// none, otherwise each output it names, in order.
pub fn profile_targets(outputs: &Vec<String>) -> (r: Vec<Output>)
    ensures
        outputs@.len() == 0 ==> r@.len() == 1 && r@[0].id@ == crate::backend::all_outputs_id(),
        outputs@.len() > 0 ==> r@.len() == outputs@.len() && forall|i: int|
            0 <= i < r@.len() ==> (#[trigger] r@[i]).id@ == outputs@[i]@ && r@[i].human_name@
                == outputs@[i]@,
{
    let mut r: Vec<Output> = Vec::new();
    if outputs.len() == 0 {
        r.push(all_outputs());
        return r;
    }
    let mut i: usize = 0;
    while i < outputs.len()
        invariant
            i <= outputs@.len(),
            r@.len() == i,
            forall|j: int|
                0 <= j < i ==> (#[trigger] r@[j]).id@ == outputs@[j]@ && r@[j].human_name@
                    == outputs@[j]@,
        decreases outputs@.len() - i,
    {
        r.push(Output { id: copy_string(&outputs[i]), human_name: copy_string(&outputs[i]) });
        i = i + 1;
    }
    r
}

} // verus!
