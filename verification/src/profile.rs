//! Per-game profiles: how a game is recognised and what saturation it gets.
//!
//! Stored as TOML at `$XDG_CONFIG_HOME/satur8/profiles.toml`. The launch
//! wrapper and the focus daemon both resolve a running game to a profile
//! through the `match_*` lookups: any populated match field that matches
//! selects the profile, and the first matching profile in file order wins.
//!
//! Saturations are carried as the bit pattern of their `f32` value
//! (`f32::to_bits`); nothing here computes with them.

use vstd::prelude::*;

use crate::text::{
    ascii_lower, concat, decimal, eq_ignore_ascii_case, join, join_strings, owned,
    str_eq_ignore_ascii_case, u64_to_decimal, views,
};

verus! {

/// The bit pattern of `1.0f32`, the saturation that leaves colours unchanged.
pub const UNCHANGED_SATURATION_BITS: u32 = 0x3f80_0000;

/// How a profile is matched to a running game.
#[derive(Debug, Clone, Default, PartialEq)]
pub struct MatchRule {
    /// Executable basename, e.g. `cs2`. Case-insensitive.
    pub exe: Option<String>,
    /// Window class / app id, e.g. `cs2.x86_64`. Case-insensitive.
    pub window_class: Option<String>,
    /// Steam AppID, e.g. `730` for CS2.
    pub steam_app_id: Option<u32>,
}

/// A single named profile.
#[derive(Debug, Clone, PartialEq)]
pub struct Profile {
    pub name: String,
    /// Target saturation as `f32` bits (0.0..=4.0, 1.0 = unchanged).
    pub saturation_bits: u32,
    pub match_rule: MatchRule,
    /// Output ids to affect; empty = all outputs.
    pub outputs: Vec<String>,
}

/// The whole profiles file: a default applied when nothing matches, plus a list.
#[derive(Debug, Clone, PartialEq)]
pub struct Profiles {
    /// Desktop default saturation as `f32` bits (usually 1.0 = no change).
    pub default_saturation_bits: u32,
    pub profiles: Vec<Profile>,
}

/// What a profile can be looked up by.
pub enum ProfileKey<'a> {
    Exe(&'a str),
    WindowClass(&'a str),
    SteamAppId(u32),
    Name(&'a str),
}

/// A profile is named `name`, ignoring ASCII case.
pub open spec fn named(p: Profile, name: Seq<char>) -> bool {
    eq_ignore_ascii_case(p.name@, name)
}

/// Selects profiles whose executable rule equals `e`, ignoring ASCII case.
pub open spec fn exe_is(e: Seq<char>) -> spec_fn(Profile) -> bool {
    |p: Profile| p.match_rule.exe matches Some(x) && eq_ignore_ascii_case(x@, e)
}

/// Selects profiles whose window-class rule equals `c`, ignoring ASCII case.
pub open spec fn window_class_is(c: Seq<char>) -> spec_fn(Profile) -> bool {
    |p: Profile| p.match_rule.window_class matches Some(x) && eq_ignore_ascii_case(x@, c)
}

/// Selects profiles whose Steam AppID rule is `id`.
pub open spec fn steam_app_id_is(id: u32) -> spec_fn(Profile) -> bool {
    |p: Profile| p.match_rule.steam_app_id == Some(id)
}

/// Selects profiles named `n`, ignoring ASCII case.
pub open spec fn name_is(n: Seq<char>) -> spec_fn(Profile) -> bool {
    |p: Profile| named(p, n)
}

/// What a lookup key selects.
pub open spec fn key_pred(key: ProfileKey) -> spec_fn(Profile) -> bool {
    match key {
        ProfileKey::Exe(e) => exe_is(e@),
        ProfileKey::WindowClass(c) => window_class_is(c@),
        ProfileKey::SteamAppId(id) => steam_app_id_is(id),
        ProfileKey::Name(n) => name_is(n@),
    }
}

/// The index of the first profile in `ps` that `pred` selects.
pub open spec fn first_match(ps: Seq<Profile>, pred: spec_fn(Profile) -> bool) -> Option<int>
    decreases ps.len(),
{
    if ps.len() == 0 {
        None
    } else if pred(ps[0]) {
        Some(0)
    } else {
        match first_match(ps.drop_first(), pred) {
            Some(i) => Some(i + 1),
            None => None,
        }
    }
}

/// The profile a lookup returned, by value.
pub open spec fn found(r: Option<&Profile>) -> Option<Profile> {
    match r {
        Some(p) => Some(*p),
        None => None,
    }
}

/// The profile `pred` selects first in `ps`, if any.
pub open spec fn matched(ps: Seq<Profile>, pred: spec_fn(Profile) -> bool) -> Option<Profile> {
    match first_match(ps, pred) {
        Some(i) => Some(ps[i]),
        None => None,
    }
}

/// `first_match` is the least index whose profile is selected.
pub proof fn lemma_first_match(ps: Seq<Profile>, pred: spec_fn(Profile) -> bool)
    ensures
        first_match(ps, pred) matches Some(i) ==> {
            &&& 0 <= i < ps.len()
            &&& pred(ps[i])
            &&& forall|j: int| 0 <= j < i ==> !pred(#[trigger] ps[j])
        },
        first_match(ps, pred) is None ==> forall|j: int| 0 <= j < ps.len() ==> !pred(#[trigger] ps[j]),
    decreases ps.len(),
{
    if ps.len() > 0 {
        lemma_first_match(ps.drop_first(), pred);
        if !pred(ps[0]) {
            assert forall|j: int| 1 <= j < ps.len() implies ps[j] == ps.drop_first()[j - 1] by {}
        }
    }
}

/// The converse: a least selected index is what `first_match` returns, and no
/// selected profile at all gives `None`.
pub proof fn lemma_first_match_unique(ps: Seq<Profile>, pred: spec_fn(Profile) -> bool, i: int)
    ensures
        (0 <= i < ps.len() && pred(ps[i]) && forall|j: int| 0 <= j < i ==> !pred(#[trigger] ps[j]))
            ==> first_match(ps, pred) == Some(i),
        (forall|j: int| 0 <= j < ps.len() ==> !pred(#[trigger] ps[j])) ==> first_match(ps, pred) is None,
{
    lemma_first_match(ps, pred);
}

/// Profiles whose name is not `name` (ignoring ASCII case), in order.
pub open spec fn without_named(ps: Seq<Profile>, name: Seq<char>) -> Seq<Profile>
    decreases ps.len(),
{
    if ps.len() == 0 {
        ps
    } else if named(ps.last(), name) {
        without_named(ps.drop_last(), name)
    } else {
        without_named(ps.drop_last(), name).push(ps.last())
    }
}

/// Why a profile operation was refused.
#[derive(Debug, Clone)]
pub enum ProfileError {
    /// No profile has this name.
    NoSuchProfile(String),
    /// The profile would match nothing.
    NoMatchRule,
}

/// The user-facing text of a profile error.
pub open spec fn profile_error_text(e: ProfileError) -> Seq<char> {
    match e {
        ProfileError::NoSuchProfile(n) => "no profile named '"@ + n@ + "'"@,
        ProfileError::NoMatchRule => "a profile needs at least one match rule (--exe, --window-class, or --steam-app-id)"@,
    }
}

impl ProfileError {
    /// The user-facing text of this error.
    pub fn to_string(&self) -> (r: String)
        ensures
            r@ == profile_error_text(*self),
    {
        match self {
            ProfileError::NoSuchProfile(n) => {
                let mut s = concat("no profile named '", n.as_str());
                s.append("'");
                s
            },
            ProfileError::NoMatchRule => owned(
                "a profile needs at least one match rule (--exe, --window-class, or --steam-app-id)",
            ),
        }
    }
}

fn key_matches_exec(p: &Profile, key: &ProfileKey) -> (r: bool)
    ensures
        r == key_pred(*key)(*p),
{
    match key {
        ProfileKey::Exe(e) => match &p.match_rule.exe {
            Some(x) => str_eq_ignore_ascii_case(x.as_str(), e),
            None => false,
        },
        ProfileKey::WindowClass(c) => match &p.match_rule.window_class {
            Some(x) => str_eq_ignore_ascii_case(x.as_str(), c),
            None => false,
        },
        ProfileKey::SteamAppId(id) => match p.match_rule.steam_app_id {
            Some(x) => x == *id,
            None => false,
        },
        ProfileKey::Name(n) => str_eq_ignore_ascii_case(p.name.as_str(), n),
    }
}

impl Default for Profiles {
    /// No profiles, and a desktop default that leaves colours unchanged.
    fn default() -> (r: Profiles)
        ensures
            r.default_saturation_bits == UNCHANGED_SATURATION_BITS,
            r.profiles@.len() == 0,
    {
        Profiles { default_saturation_bits: UNCHANGED_SATURATION_BITS, profiles: Vec::new() }
    }
}

impl Profiles {
    /// The index of the first profile `key` selects.
    pub fn position(&self, key: &ProfileKey) -> (r: Option<usize>)
        ensures
            r matches Some(i) ==> i < self.profiles@.len() && first_match(self.profiles@, key_pred(*key))
                == Some(i as int),
            r is None ==> first_match(self.profiles@, key_pred(*key)) is None,
    {
        let mut i: usize = 0;
        while i < self.profiles.len()
            invariant
                i <= self.profiles@.len(),
                forall|j: int| 0 <= j < i ==> !key_pred(*key)(#[trigger] self.profiles@[j]),
            decreases self.profiles@.len() - i,
        {
            if key_matches_exec(&self.profiles[i], key) {
                proof {
                    lemma_first_match_unique(self.profiles@, key_pred(*key), i as int);
                }
                return Some(i);
            }
            i = i + 1;
        }
        proof {
            lemma_first_match_unique(self.profiles@, key_pred(*key), 0);
        }
        None
    }

    fn lookup(&self, key: &ProfileKey) -> (r: Option<&Profile>)
        ensures
            found(r) == matched(self.profiles@, key_pred(*key)),
    {
        match self.position(key) {
            Some(i) => Some(&self.profiles[i]),
            None => None,
        }
    }

    /// The first profile whose executable rule equals `exe`, ignoring ASCII case.
    pub fn match_exe(&self, exe: &str) -> (r: Option<&Profile>)
        ensures
            found(r) == matched(self.profiles@, exe_is(exe@)),
    {
        self.lookup(&ProfileKey::Exe(exe))
    }

    /// The first profile whose window-class rule equals `class`, ignoring ASCII case.
    pub fn match_window_class(&self, class: &str) -> (r: Option<&Profile>)
        ensures
            found(r) == matched(self.profiles@, window_class_is(class@)),
    {
        self.lookup(&ProfileKey::WindowClass(class))
    }

    /// The first profile whose Steam AppID rule is `app_id`.
    pub fn match_steam_app_id(&self, app_id: u32) -> (r: Option<&Profile>)
        ensures
            found(r) == matched(self.profiles@, steam_app_id_is(app_id)),
    {
        self.lookup(&ProfileKey::SteamAppId(app_id))
    }

    /// The first profile named `name`, ignoring ASCII case.
    pub fn by_name(&self, name: &str) -> (r: Option<&Profile>)
        ensures
            found(r) == matched(self.profiles@, name_is(name@)),
    {
        self.lookup(&ProfileKey::Name(name))
    }
}

/// Adds `profile`, or replaces the first profile with the same name (ignoring
/// ASCII case) in its place. Returns whether an existing profile was replaced.
pub fn add_or_replace_profile(profiles: &mut Profiles, profile: Profile) -> (replaced: bool)
    ensures
        final(profiles).default_saturation_bits == old(profiles).default_saturation_bits,
        match first_match(old(profiles).profiles@, name_is(profile.name@)) {
            Some(i) => replaced && final(profiles).profiles@ == old(profiles).profiles@.update(
                i,
                profile,
            ),
            None => !replaced && final(profiles).profiles@ == old(profiles).profiles@.push(profile),
        },
{
    let pos = profiles.position(&ProfileKey::Name(profile.name.as_str()));
    match pos {
        Some(i) => {
            profiles.profiles.set(i, profile);
            true
        },
        None => {
            profiles.profiles.push(profile);
            false
        },
    }
}

/// Removes every profile named `name` (ignoring ASCII case). Fails, leaving the
/// profiles unchanged, when there is none.
pub fn remove_profile_by_name(profiles: &mut Profiles, name: &str) -> (r: Result<(), ProfileError>)
    ensures
        final(profiles).default_saturation_bits == old(profiles).default_saturation_bits,
        r is Err <==> first_match(old(profiles).profiles@, name_is(name@)) is None,
        r matches Err(e) ==> (e matches ProfileError::NoSuchProfile(n) && n@ == name@),
        r is Err ==> final(profiles).profiles@ == old(profiles).profiles@,
        r is Ok ==> final(profiles).profiles@ == without_named(old(profiles).profiles@, name@),
{
    let ghost old_ps = profiles.profiles@;
    let ghost n = old_ps.len();
    let mut removed = false;
    let mut i: usize = 0;
    let ghost mut j: int = 0;
    while i < profiles.profiles.len()
        invariant
            n == old_ps.len(),
            0 <= i <= j <= n,
            profiles.profiles@ == without_named(old_ps.subrange(0, j), name@) + old_ps.subrange(j, n as int),
            i == without_named(old_ps.subrange(0, j), name@).len(),
            !removed ==> profiles.profiles@ == old_ps && i == j,
            removed <==> exists|k: int| 0 <= k < j && named(#[trigger] old_ps[k], name@),
            profiles.default_saturation_bits == old(profiles).default_saturation_bits,
        decreases n - j,
    {
        let ghost before = profiles.profiles@;
        let ghost w = without_named(old_ps.subrange(0, j), name@);
        assert(before[i as int] == old_ps[j]);
        assert(old_ps.subrange(0, j + 1).drop_last() =~= old_ps.subrange(0, j));
        assert(old_ps.subrange(0, j + 1).last() == old_ps[j]);
        let hit = str_eq_ignore_ascii_case(profiles.profiles[i].name.as_str(), name);
        if hit {
            profiles.profiles.remove(i);
            removed = true;
            assert(profiles.profiles@ =~= w + old_ps.subrange(j + 1, n as int));
        } else {
            i = i + 1;
            assert(before =~= w.push(old_ps[j]) + old_ps.subrange(j + 1, n as int));
        }
        proof {
            j = j + 1;
        }
    }
    assert(old_ps.subrange(0, j) =~= old_ps);
    assert(old_ps.subrange(j, n as int) =~= Seq::<Profile>::empty());
    if !removed {
        proof {
            lemma_first_match_unique(old_ps, name_is(name@), 0);
        }
        return Err(ProfileError::NoSuchProfile(owned(name)));
    }
    proof {
        lemma_first_match(old_ps, name_is(name@));
        let k = choose|k: int| 0 <= k < j && named(#[trigger] old_ps[k], name@);
        assert(name_is(name@)(old_ps[k]));
    }
    assert(profiles.profiles@ =~= without_named(old_ps, name@));
    Ok(())
}

/// Builds a profile from the command line's fields. A profile must be
/// selectable by something, so at least one match field is required.
pub fn build_profile(
    name: String,
    saturation_bits: u32,
    exe: Option<String>,
    window_class: Option<String>,
    steam_app_id: Option<u32>,
) -> (r: Result<Profile, ProfileError>)
    ensures
        r is Err <==> (exe is None && window_class is None && steam_app_id is None),
        r matches Err(e) ==> e == ProfileError::NoMatchRule,
        r matches Ok(p) ==> {
            &&& p.name == name
            &&& p.saturation_bits == saturation_bits
            &&& p.match_rule == (MatchRule { exe, window_class, steam_app_id })
            &&& p.outputs@.len() == 0
        },
{
    if exe.is_none() && window_class.is_none() && steam_app_id.is_none() {
        return Err(ProfileError::NoMatchRule);
    }
    Ok(Profile {
        name,
        saturation_bits,
        match_rule: MatchRule { exe, window_class, steam_app_id },
        outputs: Vec::new(),
    })
}

/// The `key=value` parts describing a match rule, in the order exe, class, appid.
pub open spec fn rule_parts(m: MatchRule) -> Seq<Seq<char>> {
    let a: Seq<Seq<char>> = match m.exe {
        Some(e) => seq!["exe="@ + e@],
        None => Seq::empty(),
    };
    let b: Seq<Seq<char>> = match m.window_class {
        Some(c) => seq!["class="@ + c@],
        None => Seq::empty(),
    };
    let c: Seq<Seq<char>> = match m.steam_app_id {
        Some(id) => seq!["appid="@ + decimal(id as nat)],
        None => Seq::empty(),
    };
    a + b + c
}

/// The one-line description of a match rule shown by `profile list`.
pub open spec fn match_description(m: MatchRule) -> Seq<char> {
    if rule_parts(m).len() == 0 {
        "(no match rule)"@
    } else {
        join(rule_parts(m), " "@)
    }
}

/// Describes a match rule as `exe=.. class=.. appid=..`, or says it has none.
pub fn describe_match(m: &MatchRule) -> (r: String)
    ensures
        r@ == match_description(*m),
{
    let mut parts: Vec<String> = Vec::new();
    let ghost mut expect: Seq<Seq<char>> = Seq::empty();
    if let Some(e) = &m.exe {
        parts.push(concat("exe=", e.as_str()));
        proof {
            expect = expect.push("exe="@ + e@);
        }
    }
    if let Some(c) = &m.window_class {
        parts.push(concat("class=", c.as_str()));
        proof {
            expect = expect.push("class="@ + c@);
        }
    }
    if let Some(id) = m.steam_app_id {
        let digits = u64_to_decimal(id as u64);
        parts.push(concat("appid=", digits.as_str()));
        proof {
            expect = expect.push("appid="@ + decimal(id as nat));
        }
    }
    assert(views(parts@) =~= expect);
    assert(expect =~= rule_parts(*m));
    if parts.len() == 0 {
        owned("(no match rule)")
    } else {
        join_strings(&parts, " ")
    }
}

/// Equality up to ASCII case is reflexive.
pub proof fn lemma_eq_ignore_case_refl(a: Seq<char>)
    ensures
        eq_ignore_ascii_case(a, a),
{
}

/// Read after write: once a profile has been added or put in place of its
/// namesake, looking its name up (in any ASCII case) returns exactly it.
pub proof fn lemma_add_then_lookup(ps: Seq<Profile>, p: Profile, key: Seq<char>)
    requires
        eq_ignore_ascii_case(key, p.name@),
    ensures
        ({
            let after = match first_match(ps, name_is(p.name@)) {
                Some(i) => ps.update(i, p),
                None => ps.push(p),
            };
            matched(after, name_is(key)) == Some(p)
        }),
{
    lemma_first_match(ps, name_is(p.name@));
    assert(name_is(key) =~= name_is(p.name@)) by {
        assert forall|q: Profile| #[trigger] name_is(key)(q) == name_is(p.name@)(q) by {
            if named(q, key) {
                assert forall|i: int| 0 <= i < q.name@.len() implies ascii_lower(#[trigger] q.name@[i])
                    == ascii_lower(p.name@[i]) by {
                    assert(ascii_lower(q.name@[i]) == ascii_lower(key[i]));
                }
            }
            if named(q, p.name@) {
                assert forall|i: int| 0 <= i < q.name@.len() implies ascii_lower(#[trigger] q.name@[i])
                    == ascii_lower(key[i]) by {
                    assert(ascii_lower(q.name@[i]) == ascii_lower(p.name@[i]));
                }
            }
        }
    }
    match first_match(ps, name_is(p.name@)) {
        Some(i) => {
            let after = ps.update(i, p);
            assert(name_is(p.name@)(after[i]));
            assert forall|j: int| 0 <= j < i implies !name_is(p.name@)(#[trigger] after[j]) by {
                assert(after[j] == ps[j]);
            }
            lemma_first_match_unique(after, name_is(p.name@), i);
        },
        None => {
            let after = ps.push(p);
            assert(name_is(p.name@)(after[ps.len() as int]));
            assert forall|j: int| 0 <= j < ps.len() implies !name_is(p.name@)(#[trigger] after[j]) by {
                assert(after[j] == ps[j]);
            }
            lemma_first_match_unique(after, name_is(p.name@), ps.len() as int);
        },
    }
}

/// Removing by name leaves no profile of that name (in any ASCII case); the
/// profiles that stay keep their order, as `without_named` states.
pub proof fn lemma_removed_name_is_gone(ps: Seq<Profile>, name: Seq<char>)
    ensures
        forall|j: int|
            0 <= j < without_named(ps, name).len() ==> !named(#[trigger] without_named(ps, name)[j], name),
        first_match(without_named(ps, name), name_is(name)) is None,
    decreases ps.len(),
{
    if ps.len() > 0 {
        lemma_removed_name_is_gone(ps.drop_last(), name);
        let w = without_named(ps.drop_last(), name);
        if !named(ps.last(), name) {
            assert forall|j: int| 0 <= j < w.len() + 1 implies !named(#[trigger] w.push(ps.last())[j], name) by {
                if j < w.len() {
                    assert(w.push(ps.last())[j] == w[j]);
                }
            }
        }
    }
    let w = without_named(ps, name);
    assert forall|j: int| 0 <= j < w.len() implies !name_is(name)(#[trigger] w[j]) by {}
    lemma_first_match_unique(w, name_is(name), 0);
}

/// Lookups ignore ASCII case: two spellings that differ only in case select
/// the same profile, whichever field is matched.
pub proof fn lemma_lookup_ignores_case(ps: Seq<Profile>, a: Seq<char>, b: Seq<char>)
    requires
        eq_ignore_ascii_case(a, b),
    ensures
        matched(ps, exe_is(a)) == matched(ps, exe_is(b)),
        matched(ps, window_class_is(a)) == matched(ps, window_class_is(b)),
        matched(ps, name_is(a)) == matched(ps, name_is(b)),
{
    assert forall|x: Seq<char>| eq_ignore_ascii_case(x, a) <==> eq_ignore_ascii_case(x, b) by {
        if eq_ignore_ascii_case(x, a) {
            assert forall|i: int| 0 <= i < x.len() implies ascii_lower(#[trigger] x[i]) == ascii_lower(b[i]) by {
                assert(ascii_lower(x[i]) == ascii_lower(a[i]));
            }
        }
        if eq_ignore_ascii_case(x, b) {
            assert forall|i: int| 0 <= i < x.len() implies ascii_lower(#[trigger] x[i]) == ascii_lower(a[i]) by {
                assert(ascii_lower(x[i]) == ascii_lower(b[i]));
            }
        }
    }
    assert(exe_is(a) =~= exe_is(b));
    assert(window_class_is(a) =~= window_class_is(b));
    assert(name_is(a) =~= name_is(b));
}

} // verus!
