//! The desktop app's model of the game list: adding a running program as a
//! profile, which Steam AppID a profile's art comes from, the colour a game
//! tile gets, and the small texts the app shows.

use vstd::prelude::*;
use vstd::string::StringSliceAdditionalSpecFns;

use crate::profile::{first_match, MatchRule, Profile, Profiles};
use crate::steam::{app_key, known_app_id, known_app_id_of_key};
use crate::text::{digit_char, owned, push_char, str_eq, trim_end_matches, trim_end_matches_str};

verus! {

/// The profile name a program gets when added: its executable name without
/// trailing `.exe`, then without trailing `.x86_64` (case-sensitive).
pub open spec fn game_name(exe: Seq<char>) -> Seq<char> {
    trim_end_matches(trim_end_matches(exe, ".exe"@), ".x86_64"@)
}

/// Selects the profile a program is added to: one whose executable rule is
/// exactly `exe`, or whose name is exactly the program's game name.
pub open spec fn same_game(exe: Seq<char>) -> spec_fn(Profile) -> bool {
    |p: Profile| (p.match_rule.exe matches Some(x) && x@ == exe) || p.name@ == game_name(exe)
}

/// `n` is `o` updated for a program `exe`: new saturation and executable rule,
/// the AppID replaced only when one is known, everything else kept.
pub open spec fn updated_for(o: Profile, n: Profile, exe: Seq<char>, app_id: Option<u32>, saturation_bits: u32) -> bool {
    &&& n.name == o.name
    &&& n.saturation_bits == saturation_bits
    &&& n.match_rule.exe matches Some(x) && x@ == exe
    &&& n.match_rule.window_class == o.match_rule.window_class
    &&& n.match_rule.steam_app_id == (if app_id is Some {
        app_id
    } else {
        o.match_rule.steam_app_id
    })
    &&& n.outputs == o.outputs
}

/// `n` is the profile made for a program `exe` that had none.
pub open spec fn new_for(n: Profile, exe: Seq<char>, app_id: Option<u32>, saturation_bits: u32) -> bool {
    &&& n.name@ == game_name(exe)
    &&& n.saturation_bits == saturation_bits
    &&& n.match_rule.exe matches Some(x) && x@ == exe
    &&& n.match_rule.window_class is None
    &&& n.match_rule.steam_app_id == app_id
    &&& n.outputs@.len() == 0
}

/// `new` is `old` after adding program `exe`: the first profile that stands
/// for it updated in place, or a new profile appended when none does.
pub open spec fn added_game(
    old: Seq<Profile>,
    new: Seq<Profile>,
    exe: Seq<char>,
    app_id: Option<u32>,
    saturation_bits: u32,
) -> bool {
    match first_match(old, same_game(exe)) {
        Some(i) => {
            &&& new == old.update(i, new[i])
            &&& updated_for(old[i], new[i], exe, app_id, saturation_bits)
        },
        None => {
            &&& new.len() == old.len() + 1
            &&& new.drop_last() == old
            &&& new_for(new.last(), exe, app_id, saturation_bits)
        },
    }
}

/// Adds a running program as a game profile, or updates the first profile
/// that already stands for it (same executable rule, or same name): its
/// saturation and executable rule are set, and its AppID when one is known.
pub fn add_or_update(profiles: &mut Profiles, exe: &str, app_id: Option<u32>, saturation_bits: u32)
    ensures
        final(profiles).default_saturation_bits == old(profiles).default_saturation_bits,
        added_game(old(profiles).profiles@, final(profiles).profiles@, exe@, app_id, saturation_bits),
{
    let no_exe = trim_end_matches_str(exe, ".exe");
    let name = trim_end_matches_str(no_exe.as_str(), ".x86_64");
    let ghost ps = profiles.profiles@;
    let mut i: usize = 0;
    while i < profiles.profiles.len()
        invariant
            i <= ps.len(),
            profiles.profiles@ == ps,
            ps == old(profiles).profiles@,
            profiles.default_saturation_bits == old(profiles).default_saturation_bits,
            name@ == game_name(exe@),
            forall|j: int| 0 <= j < i ==> !same_game(exe@)(#[trigger] ps[j]),
        decreases ps.len() - i,
    {
        let by_exe = match &profiles.profiles[i].match_rule.exe {
            Some(x) => str_eq(x.as_str(), exe),
            None => false,
        };
        let hit = by_exe || str_eq(profiles.profiles[i].name.as_str(), name.as_str());
        assert(hit == same_game(exe@)(ps[i as int]));
        if hit {
            proof {
                crate::profile::lemma_first_match_unique(ps, same_game(exe@), i as int);
            }
            let o = profiles.profiles.remove(i);
            let steam = if app_id.is_some() {
                app_id
            } else {
                o.match_rule.steam_app_id
            };
            let p = Profile {
                name: o.name,
                saturation_bits,
                match_rule: MatchRule {
                    exe: Some(owned(exe)),
                    window_class: o.match_rule.window_class,
                    steam_app_id: steam,
                },
                outputs: o.outputs,
            };
            profiles.profiles.insert(i, p);
            assert(profiles.profiles@ =~= ps.update(i as int, profiles.profiles@[i as int]));
            return;
        }
        i = i + 1;
    }
    proof {
        crate::profile::lemma_first_match_unique(ps, same_game(exe@), 0);
    }
    profiles.profiles.push(
        Profile {
            name,
            saturation_bits,
            match_rule: MatchRule { exe: Some(owned(exe)), window_class: None, steam_app_id: app_id },
            outputs: Vec::new(),
        },
    );
    assert(profiles.profiles@.drop_last() =~= ps);
}

/// A profile whose executable rule is exactly the added program is updated
/// in place, whatever its name: the list keeps its length, and the profile
/// updated is that one or an earlier one that already stood for the program;
/// it keeps its name and gets the new saturation and executable rule, and no
/// other profile changes.
pub proof fn lemma_add_updates_exe_match(
    old: Seq<Profile>,
    new: Seq<Profile>,
    exe: Seq<char>,
    app_id: Option<u32>,
    saturation_bits: u32,
    j: int,
)
    requires
        added_game(old, new, exe, app_id, saturation_bits),
        0 <= j < old.len(),
        old[j].match_rule.exe matches Some(x) && x@ == exe,
    ensures
        new.len() == old.len(),
        exists|i: int|
            #![trigger new[i]]
            0 <= i <= j && new[i].name == old[i].name && new[i].saturation_bits == saturation_bits && (
            new[i].match_rule.exe matches Some(y) && y@ == exe) && forall|k: int|
                0 <= k < new.len() && k != i ==> #[trigger] new[k] == old[k],
{
    crate::profile::lemma_first_match(old, same_game(exe));
    assert(same_game(exe)(old[j]));
    match first_match(old, same_game(exe)) {
        Some(i) => {
            assert(i <= j);
            assert(new[i] == new[i]);
        },
        None => {
            assert(false);
        },
    }
}

/// Adding the same program again never makes a second profile for it: after
/// one add, a profile stands for the program, so the next add updates that
/// profile in place and the list keeps its length.
pub proof fn lemma_add_twice_keeps_one_profile(
    ps0: Seq<Profile>,
    ps1: Seq<Profile>,
    ps2: Seq<Profile>,
    exe: Seq<char>,
    id1: Option<u32>,
    sat1: u32,
    id2: Option<u32>,
    sat2: u32,
)
    requires
        added_game(ps0, ps1, exe, id1, sat1),
        added_game(ps1, ps2, exe, id2, sat2),
    ensures
        first_match(ps1, same_game(exe)) is Some,
        ps2.len() == ps1.len(),
{
    crate::profile::lemma_first_match(ps0, same_game(exe));
    match first_match(ps0, same_game(exe)) {
        Some(i) => {
            assert(same_game(exe)(ps1[i]));
            crate::profile::lemma_first_match(ps1, same_game(exe));
        },
        None => {
            let k = ps1.len() - 1;
            assert(ps1[k] == ps1.last());
            assert(same_game(exe)(ps1[k]));
            crate::profile::lemma_first_match(ps1, same_game(exe));
        },
    }
}

/// The Steam AppID whose art a profile is shown with: its own AppID rule, or
/// the well-known AppID of its executable rule (of its name when it has none).
pub open spec fn art_app_id(p: Profile) -> Option<u32> {
    match p.match_rule.steam_app_id {
        Some(id) => Some(id),
        None => known_app_id_of_key(
            app_key(
                match p.match_rule.exe {
                    Some(e) => e@,
                    None => p.name@,
                },
            ),
        ),
    }
}

/// The Steam AppID whose art a profile is shown with.
pub fn profile_app_id(p: &Profile) -> (r: Option<u32>)
    ensures
        r == art_app_id(*p),
{
    match p.match_rule.steam_app_id {
        Some(id) => Some(id),
        None => match &p.match_rule.exe {
            Some(e) => known_app_id(e.as_str()),
            None => known_app_id(p.name.as_str()),
        },
    }
}

/// How many tile colours there are.
pub const TILE_COLOR_COUNT: usize = 8;

/// A name's hash: `h * 31 + byte` over its bytes, wrapping at 2^32.
pub open spec fn name_hash(bytes: Seq<u8>) -> u32
    decreases bytes.len(),
{
    if bytes.len() == 0 {
        0
    } else {
        ((name_hash(bytes.drop_last()) as int * 31 + bytes.last() as int) % 0x1_0000_0000) as u32
    }
}

/// Which tile colour a game named `name` gets: its hash over the name's UTF-8
/// bytes, modulo the number of colours. The same name always gets the same
/// colour.
pub fn tile_color_index(name: &str) -> (r: usize)
    ensures
        r as int == name_hash(name.spec_bytes()) as int % (TILE_COLOR_COUNT as int),
        r < TILE_COLOR_COUNT,
{
    let bytes = name.as_bytes();
    let mut h: u32 = 0;
    let mut i: usize = 0;
    while i < bytes.len()
        invariant
            bytes@ == name.spec_bytes(),
            i <= bytes@.len(),
            h == name_hash(bytes@.subrange(0, i as int)),
        decreases bytes@.len() - i,
    {
        let b = bytes[i];
        let t: u64 = (h as u64) * 31 + (b as u64);
        let next: u32 = (t % 0x1_0000_0000u64) as u32;
        assert(bytes@.subrange(0, i + 1).drop_last() =~= bytes@.subrange(0, i as int));
        assert(bytes@.subrange(0, i + 1).last() == b);
        h = next;
        i = i + 1;
    }
    assert(bytes@.subrange(0, i as int) =~= bytes@);
    (h % 8) as usize
}

/// Two decimal digits of a number below 100, zero-padded (`{:02}`).
pub open spec fn two_digits(n: nat) -> Seq<char> {
    seq![digit_char(n / 10), digit_char(n % 10)]
}

/// The `HH:MM:SS` wall-clock time (UTC) of a moment given in seconds since
/// the Unix epoch.
pub open spec fn hms_text(secs: nat) -> Seq<char> {
    let day = secs % 86400;
    two_digits(day / 3600) + seq![':'] + two_digits((day % 3600) / 60) + seq![':'] + two_digits(day % 60)
}

fn push_two_digits(s: &mut String, n: u64)
    requires
        n < 100,
    ensures
        final(s)@ == old(s)@ + two_digits(n as nat),
{
    let hi: u8 = (n / 10) as u8;
    let lo: u8 = (n % 10) as u8;
    push_char(s, (48u8 + hi) as char);
    push_char(s, (48u8 + lo) as char);
    assert(final(s)@ =~= old(s)@ + two_digits(n as nat));
}

/// The time of day of a log line, `HH:MM:SS` (UTC), from the seconds since
/// the Unix epoch.
pub fn clock_hms(secs: u64) -> (r: String)
    ensures
        r@ == hms_text(secs as nat),
{
    let day = secs % 86400;
    let mut s = String::new();
    push_two_digits(&mut s, day / 3600);
    push_char(&mut s, ':');
    push_two_digits(&mut s, (day % 3600) / 60);
    push_char(&mut s, ':');
    push_two_digits(&mut s, day % 60);
    assert(s@ =~= hms_text(secs as nat));
    s
}

/// What the app says about which outputs an adjustment reaches, by backend.
pub open spec fn outputs_note_text(backend: Option<Seq<char>>) -> Seq<char> {
    match backend {
        Some(b) => if b == "kwin"@ || b == "gnome-shell"@ || b == "hyprland"@ {
            "On this compositor it affects all monitors."@
        } else if b == "drm-ctm"@ {
            "Targets the connected display(s)."@
        } else {
            ""@
        },
        None => ""@,
    }
}

/// What the app says about which outputs an adjustment reaches.
pub fn outputs_note(backend: Option<&str>) -> (r: &'static str)
    ensures
        r@ == outputs_note_text(match backend {
            Some(b) => Some(b@),
            None => None,
        }),
{
    match backend {
        Some(b) => if str_eq(b, "kwin") || str_eq(b, "gnome-shell") || str_eq(b, "hyprland") {
            "On this compositor it affects all monitors."
        } else if str_eq(b, "drm-ctm") {
            "Targets the connected display(s)."
        } else {
            ""
        },
        None => "",
    }
}

/// A switch given in the environment is on: `1`, `true`, `yes` or `on`.
pub fn switch_is_on(value: &str) -> (r: bool)
    ensures
        r == (value@ == "1"@ || value@ == "true"@ || value@ == "yes"@ || value@ == "on"@),
{
    str_eq(value, "1") || str_eq(value, "true") || str_eq(value, "yes") || str_eq(value, "on")
}

} // verus!
