//! The launch wrapper's decisions: `satur8 run [...] -- <game command>`.
//!
//! Which saturation a launch gets, in priority order: an explicit
//! `--saturation`, a named `--profile`, or the profile that matches the
//! launched executable's basename. Spawning the game, forwarding signals and
//! restoring the desktop afterwards is done by the caller.

use vstd::prelude::*;

use crate::profile::{exe_is, first_match, name_is, Profiles, ProfileKey};
use crate::text::{chars_of, concat, owned, str_eq, string_from_chars};

verus! {

/// Index of the last `/` in `s`, or -1 when there is none.
pub open spec fn last_slash(s: Seq<char>) -> int
    decreases s.len(),
{
    if s.len() == 0 {
        -1
    } else if s.last() == '/' {
        s.len() - 1
    } else {
        last_slash(s.drop_last())
    }
}

/// The final component of a path, as `Path::file_name` gives it: trailing
/// separators and `.` components are ignored, and a path that ends in `..`, or
/// has no normal component at all, has none.
pub open spec fn file_name(s: Seq<char>) -> Option<Seq<char>>
    decreases s.len(),
{
    if s.len() == 0 {
        None
    } else if s.last() == '/' {
        file_name(s.drop_last())
    } else if s == seq!['.'] {
        None
    } else if s.len() >= 2 && s.last() == '.' && s[s.len() - 2] == '/' {
        file_name(s.subrange(0, s.len() - 2))
    } else {
        let seg = s.subrange(last_slash(s) + 1, s.len() as int);
        if seg == seq!['.', '.'] {
            None
        } else {
            Some(seg)
        }
    }
}

/// The executable name a command is matched by: its file name, or the whole
/// command when it has none.
pub open spec fn exe_basename_of(cmd: Seq<char>) -> Seq<char> {
    match file_name(cmd) {
        Some(n) => n,
        None => cmd,
    }
}

proof fn lemma_last_slash(s: Seq<char>)
    ensures
        -1 <= last_slash(s) < s.len(),
        last_slash(s) >= 0 ==> s[last_slash(s)] == '/',
        forall|j: int| last_slash(s) < j < s.len() ==> s[j] != '/',
    decreases s.len(),
{
    if s.len() > 0 && s.last() != '/' {
        lemma_last_slash(s.drop_last());
        assert forall|j: int| last_slash(s) < j < s.len() implies s[j] != '/' by {
            if j < s.len() - 1 {
                assert(s.drop_last()[j] == s[j]);
            }
        }
    }
}

/// What `file_name` returns is a single non-empty component: no `/`, and
/// neither `.` nor `..`.
pub proof fn lemma_file_name_is_component(s: Seq<char>)
    ensures
        file_name(s) matches Some(n) ==> {
            &&& n.len() > 0
            &&& forall|j: int| 0 <= j < n.len() ==> n[j] != '/'
            &&& n != seq!['.']
            &&& n != seq!['.', '.']
        },
    decreases s.len(),
{
    if s.len() == 0 {
    } else if s.last() == '/' {
        lemma_file_name_is_component(s.drop_last());
    } else if s == seq!['.'] {
    } else if s.len() >= 2 && s.last() == '.' && s[s.len() - 2] == '/' {
        lemma_file_name_is_component(s.subrange(0, s.len() - 2));
    } else {
        lemma_last_slash(s);
        let seg = s.subrange(last_slash(s) + 1, s.len() as int);
        assert(seg.last() == s.last());
        if seg == seq!['.'] {
            if last_slash(s) >= 0 {
                assert(s[s.len() - 2] == '/');
            } else {
                assert(seg =~= s);
            }
        }
    }
}

proof fn lemma_no_slash(s: Seq<char>)
    requires
        forall|j: int| 0 <= j < s.len() ==> s[j] != '/',
    ensures
        last_slash(s) == -1,
    decreases s.len(),
{
    if s.len() > 0 {
        lemma_no_slash(s.drop_last());
    }
}

/// Taking the basename twice changes nothing.
pub proof fn lemma_exe_basename_idempotent(cmd: Seq<char>)
    ensures
        exe_basename_of(exe_basename_of(cmd)) == exe_basename_of(cmd),
{
    lemma_file_name_is_component(cmd);
    if let Some(n) = file_name(cmd) {
        lemma_no_slash(n);
        assert(n.subrange(0, n.len() as int) =~= n);
        if n.len() >= 2 {
            assert(n[n.len() - 2] != '/');
        }
    }
}

/// The final component of a path (`Path::file_name`).
pub fn path_file_name(cmd: &str) -> (r: Option<String>)
    ensures
        r is Some <==> file_name(cmd@) is Some,
        r matches Some(n) ==> file_name(cmd@) == Some(n@),
{
    let v = chars_of(cmd);
    let mut end: usize = v.len();
    assert(v@.subrange(0, end as int) =~= cmd@);
    loop
        invariant
            v@ == cmd@,
            end <= v@.len(),
            file_name(cmd@) == file_name(v@.subrange(0, end as int)),
        decreases end,
    {
        let ghost s = v@.subrange(0, end as int);
        if end == 0 {
            return None;
        }
        if v[end - 1] == '/' {
            assert(s.drop_last() =~= v@.subrange(0, end - 1));
            end = end - 1;
            continue;
        }
        if end == 1 && v[0] == '.' {
            assert(s =~= seq!['.']);
            return None;
        }
        if end >= 2 && v[end - 1] == '.' && v[end - 2] == '/' {
            assert(s.subrange(0, s.len() - 2) =~= v@.subrange(0, end - 2));
            end = end - 2;
            continue;
        }
        assert(s != seq!['.']);
        let mut k: usize = end;
        while k > 0 && v[k - 1] != '/'
            invariant
                k <= end <= v@.len(),
                s == v@.subrange(0, end as int),
                last_slash(s) == last_slash(v@.subrange(0, k as int)),
            decreases k,
        {
            assert(v@.subrange(0, k as int).drop_last() =~= v@.subrange(0, k - 1));
            k = k - 1;
        }
        assert(last_slash(s) + 1 == k as int);
        let seg = string_from_chars(&v, k, end);
        assert(seg@ =~= s.subrange(last_slash(s) + 1, s.len() as int));
        if end - k == 2 && v[k] == '.' && v[k + 1] == '.' {
            assert(seg@ =~= seq!['.', '.']);
            return None;
        }
        assert(seg@ != seq!['.', '.']) by {
            if seg@.len() == 2 {
                assert(seg@[0] == v@[k as int]);
                assert(seg@[1] == v@[k + 1]);
            }
        }
        return Some(seg);
    }
}

/// The executable name of a command: its file name, or the command itself.
pub fn exe_basename(cmd: &str) -> (r: String)
    ensures
        r@ == exe_basename_of(cmd@),
{
    match path_file_name(cmd) {
        Some(n) => n,
        None => owned(cmd),
    }
}

/// Where a launch's saturation comes from.
#[derive(Debug, Clone, Copy, PartialEq, Eq, Structural)]
pub enum SaturationSource {
    /// The `--saturation` given on the command line.
    Explicit,
    /// The profile named by `--profile`, at this index.
    Named(usize),
    /// The profile matching the launched executable, at this index.
    MatchedExe(usize),
    /// Nothing: launch without changing colours.
    Unchanged,
}

/// How the game is launched.
#[derive(Debug, Clone, Copy, PartialEq, Eq, Structural)]
pub enum LaunchMode {
    /// Apply with the session's backend, launch, restore on exit.
    Native,
    /// Wrap the launch in a nested gamescope with the saturation baked in.
    Gamescope,
}

/// What a launch will do.
#[derive(Debug, Clone, Copy, PartialEq, Eq, Structural)]
pub struct RunPlan {
    pub source: SaturationSource,
    pub mode: LaunchMode,
}

/// Why a launch was refused.
#[derive(Debug, Clone)]
pub enum RunError {
    /// No command after `--`.
    NothingToRun,
    /// `--profile` names no profile.
    NoSuchProfile(String),
    /// `--via` names no supported strategy.
    UnknownVia(String),
}

/// The user-facing text of a launch error.
pub open spec fn run_error_text(e: RunError) -> Seq<char> {
    match e {
        RunError::NothingToRun => "nothing to run. Usage: satur8 run [--profile NAME | --saturation S] -- <command>"@,
        RunError::NoSuchProfile(n) => "no profile named '"@ + n@ + "' (see `satur8 profile list`)"@,
        RunError::UnknownVia(v) => "unknown --via '"@ + v@ + "' (supported: gamescope)"@,
    }
}

impl RunError {
    /// The user-facing text of this error.
    pub fn to_string(&self) -> (r: String)
        ensures
            r@ == run_error_text(*self),
    {
        match self {
            RunError::NothingToRun => owned(
                "nothing to run. Usage: satur8 run [--profile NAME | --saturation S] -- <command>",
            ),
            RunError::NoSuchProfile(n) => {
                let mut s = concat("no profile named '", n.as_str());
                s.append("' (see `satur8 profile list`)");
                s
            },
            RunError::UnknownVia(v) => {
                let mut s = concat("unknown --via '", v.as_str());
                s.append("' (supported: gamescope)");
                s
            },
        }
    }
}

/// The saturation source of a launch of `cmd0`, or the missing profile's name.
pub open spec fn source_of(
    profiles: Profiles,
    explicit: bool,
    profile: Option<Seq<char>>,
    cmd0: Seq<char>,
) -> Result<SaturationSource, Seq<char>> {
    if explicit {
        Ok(SaturationSource::Explicit)
    } else if profile is Some {
        match first_match(profiles.profiles@, name_is(profile->0)) {
            Some(i) => Ok(SaturationSource::Named(i as usize)),
            None => Err(profile->0),
        }
    } else {
        match first_match(profiles.profiles@, exe_is(exe_basename_of(cmd0))) {
            Some(i) => Ok(SaturationSource::MatchedExe(i as usize)),
            None => Ok(SaturationSource::Unchanged),
        }
    }
}

/// An explicit `--saturation` always wins: whatever `--profile` names (an
/// existing profile or none at all) and whatever the command is, the source is
/// the explicit value, and a missing profile is then no error.
pub proof fn lemma_explicit_saturation_wins(
    profiles: Profiles,
    profile: Option<Seq<char>>,
    cmd0: Seq<char>,
)
    ensures
        source_of(profiles, true, profile, cmd0) == Ok::<SaturationSource, Seq<char>>(
            SaturationSource::Explicit,
        ),
{
}

/// Without an explicit value, a named profile decides: the source is that
/// name's first profile, and an unknown name is refused, whatever the command.
pub proof fn lemma_named_profile_before_exe(profiles: Profiles, name: Seq<char>, cmd0: Seq<char>)
    requires
        profiles.profiles@.len() <= usize::MAX,
    ensures
        source_of(profiles, false, Some(name), cmd0) is Err <==> (forall|j: int|
            0 <= j < profiles.profiles@.len() ==> !crate::profile::named(#[trigger] profiles.profiles@[j], name)),
        source_of(profiles, false, Some(name), cmd0) matches Ok(s) ==> (s matches SaturationSource::Named(i)
            && 0 <= i < profiles.profiles@.len() && crate::profile::named(profiles.profiles@[i as int], name)),
{
    crate::profile::lemma_first_match(profiles.profiles@, name_is(name));
    crate::profile::lemma_first_match_unique(profiles.profiles@, name_is(name), 0);
}

/// Decides a launch: refuses an empty command, resolves the saturation source
/// (explicit > named profile > executable match), then the launch strategy.
/// Errors come in that order.
pub fn plan_run(
    profiles: &Profiles,
    explicit_saturation: bool,
    profile: Option<&str>,
    command: &Vec<String>,
    via: Option<&str>,
) -> (r: Result<RunPlan, RunError>)
    ensures
        command@.len() == 0 ==> r matches Err(RunError::NothingToRun),
        command@.len() > 0 && explicit_saturation && (via is None || via == Some("gamescope")) ==> (r
            matches Ok(p) && p.source == SaturationSource::Explicit),
        command@.len() > 0 && explicit_saturation ==> !(r matches Err(RunError::NoSuchProfile(_))),
        command@.len() > 0 ==> {
            let src = source_of(
                *profiles,
                explicit_saturation,
                crate::config::opt_view(profile),
                command@[0]@,
            );
            match src {
                Err(n) => r matches Err(RunError::NoSuchProfile(m)) && m@ == n,
                Ok(s) => match via {
                    None => r == Ok::<RunPlan, RunError>(RunPlan { source: s, mode: LaunchMode::Native }),
                    Some(v) => if v@ == "gamescope"@ {
                        r == Ok::<RunPlan, RunError>(RunPlan { source: s, mode: LaunchMode::Gamescope })
                    } else {
                        r matches Err(RunError::UnknownVia(w)) && w@ == v@
                    },
                },
            }
        },
{
    if command.len() == 0 {
        return Err(RunError::NothingToRun);
    }
    let source = if explicit_saturation {
        SaturationSource::Explicit
    } else if let Some(name) = profile {
        match profiles.position(&ProfileKey::Name(name)) {
            Some(i) => SaturationSource::Named(i),
            None => {
                return Err(RunError::NoSuchProfile(owned(name)));
            },
        }
    } else {
        let exe = exe_basename(command[0].as_str());
        match profiles.position(&ProfileKey::Exe(exe.as_str())) {
            Some(i) => SaturationSource::MatchedExe(i),
            None => SaturationSource::Unchanged,
        }
    };
    match via {
        None => Ok(RunPlan { source, mode: LaunchMode::Native }),
        Some(v) => {
            if str_eq(v, "gamescope") {
                Ok(RunPlan { source, mode: LaunchMode::Gamescope })
            } else {
                Err(RunError::UnknownVia(owned(v)))
            }
        },
    }
}

} // verus!
