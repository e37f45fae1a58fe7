//! A game's art in the user's local Steam install, and the Steam AppIDs of a
//! few common games.
//!
//! Only files Steam already cached on this machine are looked at. The file
//! system is asked through the `is_dir` / `is_file` probes the caller passes
//! in; what is stated here holds for whatever the probes answer.

use vstd::prelude::*;

use crate::config::{join_path, path_join};
use crate::text::{
    decimal, lower_seq, str_eq, to_ascii_lowercase, trim_end_matches, trim_end_matches_str,
    u64_to_decimal,
};

verus! {

/// The key a game is looked up by: ASCII-lowercased, then without trailing
/// `.exe` and then without trailing `.x86_64`.
pub open spec fn app_key(exe_or_name: Seq<char>) -> Seq<char> {
    trim_end_matches(trim_end_matches(lower_seq(exe_or_name), ".exe"@), ".x86_64"@)
}

/// The built-in table of well-known games, by lookup key.
pub open spec fn known_app_id_of_key(k: Seq<char>) -> Option<u32> {
    if k == "cs2"@ || k == "csgo"@ {
        Some(730u32)
    } else if k == "dota2"@ || k == "dota"@ {
        Some(570u32)
    } else if k == "r5apex"@ || k == "apex"@ {
        Some(1172470u32)
    } else if k == "tf_linux64"@ || k == "tf2"@ {
        Some(440u32)
    } else if k == "left4dead2"@ {
        Some(550u32)
    } else if k == "hl2"@ {
        Some(220u32)
    } else {
        None
    }
}

/// The Steam AppID of a few common games, so that profiles added without a
/// detected AppID still get art. Valorant and unknown names have none.
pub fn known_app_id(exe_or_name: &str) -> (r: Option<u32>)
    ensures
        r == known_app_id_of_key(app_key(exe_or_name@)),
{
    let lower = to_ascii_lowercase(exe_or_name);
    let no_exe = trim_end_matches_str(lower.as_str(), ".exe");
    let key = trim_end_matches_str(no_exe.as_str(), ".x86_64");
    let k = key.as_str();
    if str_eq(k, "cs2") || str_eq(k, "csgo") {
        Some(730)
    } else if str_eq(k, "dota2") || str_eq(k, "dota") {
        Some(570)
    } else if str_eq(k, "r5apex") || str_eq(k, "apex") {
        Some(1172470)
    } else if str_eq(k, "valorant") {
        proof {
            reveal_strlit("valorant");
            reveal_strlit("tf_linux64");
            reveal_strlit("tf2");
            reveal_strlit("left4dead2");
            reveal_strlit("hl2");
            assert(k@ != "tf_linux64"@ && k@ != "tf2"@ && k@ != "left4dead2"@ && k@ != "hl2"@) by {
                assert(k@.len() == 8);
            }
        }
        None
    } else if str_eq(k, "tf_linux64") || str_eq(k, "tf2") {
        Some(440)
    } else if str_eq(k, "left4dead2") {
        Some(550)
    } else if str_eq(k, "hl2") {
        Some(220)
    } else {
        None
    }
}

/// Names that differ only in ASCII case look up the same game.
pub proof fn lemma_app_key_ignores_case(a: Seq<char>, b: Seq<char>)
    requires
        crate::text::eq_ignore_ascii_case(a, b),
    ensures
        app_key(a) == app_key(b),
{
    assert(lower_seq(a) =~= lower_seq(b));
}

/// A `.exe` suffix, in any case, does not change which game a name looks up.
pub proof fn lemma_app_key_ignores_exe_suffix(name: Seq<char>, suffix: Seq<char>)
    requires
        crate::text::eq_ignore_ascii_case(suffix, ".exe"@),
    ensures
        app_key(name + suffix) == app_key(name),
{
    reveal_strlit(".exe");
    let e = ".exe"@;
    let l = lower_seq(name);
    assert(lower_seq(name + suffix) =~= l + e) by {
        assert forall|i: int| 0 <= i < suffix.len() implies crate::text::ascii_lower(
            #[trigger] suffix[i],
        ) == e[i] by {
            assert(crate::text::ascii_lower(suffix[i]) == crate::text::ascii_lower(e[i]));
        }
    }
    assert((l + e).subrange((l + e).len() - e.len(), (l + e).len() as int) =~= e);
    assert((l + e).subrange(0, (l + e).len() - e.len()) =~= l);
}

/// Where Steam keeps its data, relative to the home directory, in the order
/// they are searched.
pub open spec fn steam_root_suffix(k: int) -> Seq<char> {
    if k == 0 {
        ".local/share/Steam"@
    } else if k == 1 {
        ".steam/steam"@
    } else if k == 2 {
        ".steam/root"@
    } else {
        ".var/app/com.valvesoftware.Steam/.local/share/Steam"@
    }
}

/// How many Steam roots are searched.
pub const STEAM_ROOTS: usize = 4;

/// The `k`-th Steam root under `home`.
pub open spec fn steam_root(home: Seq<char>, k: int) -> Seq<char> {
    path_join(home, steam_root_suffix(k))
}

/// The directory of cached art for `app_id` under a Steam root.
pub open spec fn art_dir(root: Seq<char>, app_id: u32) -> Seq<char> {
    path_join(path_join(root, "appcache/librarycache"@), decimal(app_id as nat))
}

/// The probe `f` answered `answer` when asked about `path`.
pub open spec fn probed<F: Fn(&str) -> bool>(f: F, path: Seq<char>, answer: bool) -> bool {
    exists|s: &str| s@ == path && #[trigger] call_ensures(f, (s,), answer)
}

/// `is_dir` accepted both the `k`-th Steam root and its art directory.
pub open spec fn art_dir_found<F: Fn(&str) -> bool>(is_dir: F, home: Seq<char>, app_id: u32, k: int) -> bool {
    probed(is_dir, steam_root(home, k), true) && probed(
        is_dir,
        art_dir(steam_root(home, k), app_id),
        true,
    )
}

/// `is_dir` rejected the `k`-th Steam root or its art directory.
pub open spec fn art_dir_missing<F: Fn(&str) -> bool>(is_dir: F, home: Seq<char>, app_id: u32, k: int) -> bool {
    probed(is_dir, steam_root(home, k), false) || probed(
        is_dir,
        art_dir(steam_root(home, k), app_id),
        false,
    )
}

/// `d` is a possible outcome of searching the Steam roots for the art
/// directory of `app_id`: the first root whose art directory exists, or none.
pub open spec fn cache_dir_outcome<F: Fn(&str) -> bool>(
    is_dir: F,
    home: Seq<char>,
    app_id: u32,
    d: Option<Seq<char>>,
) -> bool {
    match d {
        Some(p) => exists|k: int|
            0 <= k < STEAM_ROOTS && p == art_dir(steam_root(home, k), app_id) && #[trigger] art_dir_found(
                is_dir,
                home,
                app_id,
                k,
            ) && forall|j: int| 0 <= j < k ==> #[trigger] art_dir_missing(is_dir, home, app_id, j),
        None => forall|j: int| 0 <= j < STEAM_ROOTS ==> #[trigger] art_dir_missing(is_dir, home, app_id, j),
    }
}

/// An optional string by its view.
pub open spec fn opt_path(r: Option<String>) -> Option<Seq<char>> {
    match r {
        Some(p) => Some(p@),
        None => None,
    }
}

/// Any path may be asked about.
pub open spec fn probe_total<F: Fn(&str) -> bool>(f: F) -> bool {
    forall|s: &str| #[trigger] call_requires(f, (s,))
}

/// The `k`-th Steam root under `home`.
fn steam_root_path(home: &str, k: usize) -> (r: String)
    requires
        k < STEAM_ROOTS,
    ensures
        r@ == steam_root(home@, k as int),
{
    if k == 0 {
        join_path(home, ".local/share/Steam")
    } else if k == 1 {
        join_path(home, ".steam/steam")
    } else if k == 2 {
        join_path(home, ".steam/root")
    } else {
        join_path(home, ".var/app/com.valvesoftware.Steam/.local/share/Steam")
    }
}

/// The directory under the first Steam root that holds cached art for
/// `app_id`, if any root has one.
pub fn cache_dir<F: Fn(&str) -> bool>(home: &str, app_id: u32, is_dir: &F) -> (r: Option<String>)
    requires
        probe_total(*is_dir),
    ensures
        cache_dir_outcome(*is_dir, home@, app_id, opt_path(r)),
{
    let id = u64_to_decimal(app_id as u64);
    let mut k: usize = 0;
    while k < STEAM_ROOTS
        invariant
            k <= STEAM_ROOTS,
            probe_total(*is_dir),
            id@ == decimal(app_id as nat),
            forall|j: int| 0 <= j < k ==> #[trigger] art_dir_missing(*is_dir, home@, app_id, j),
        decreases STEAM_ROOTS - k,
    {
        let root = steam_root_path(home, k);
        let root_ok = is_dir(root.as_str());
        assert(probed(*is_dir, steam_root(home@, k as int), root_ok));
        if root_ok {
            let lib = join_path(root.as_str(), "appcache/librarycache");
            let d = join_path(lib.as_str(), id.as_str());
            let d_ok = is_dir(d.as_str());
            assert(probed(*is_dir, art_dir(steam_root(home@, k as int), app_id), d_ok));
            if d_ok {
                assert(art_dir_found(*is_dir, home@, app_id, k as int));
                return Some(d);
            }
        }
        assert(art_dir_missing(*is_dir, home@, app_id, k as int));
        k = k + 1;
    }
    None
}

/// The four Steam roots searched are all different places: the native
/// install (`.local/share/Steam`), its two `.steam` links, and the Flatpak
/// install (`.var/app/com.valvesoftware.Steam/.local/share/Steam`).
pub proof fn lemma_steam_roots_distinct()
    ensures
        forall|a: int, b: int|
            0 <= a < b < STEAM_ROOTS ==> #[trigger] steam_root_suffix(a) != #[trigger] steam_root_suffix(b),
        exists|k: int|
            0 <= k < STEAM_ROOTS && #[trigger] steam_root_suffix(k) == ".var/app/com.valvesoftware.Steam/.local/share/Steam"@,
        exists|k: int| 0 <= k < STEAM_ROOTS && #[trigger] steam_root_suffix(k) == ".local/share/Steam"@,
{
    reveal_strlit(".local/share/Steam");
    reveal_strlit(".steam/steam");
    reveal_strlit(".steam/root");
    reveal_strlit(".var/app/com.valvesoftware.Steam/.local/share/Steam");
    assert(".local/share/Steam"@[1] != ".steam/steam"@[1]);
    assert(".local/share/Steam"@[1] != ".steam/root"@[1]);
    assert(".local/share/Steam"@[1] != ".var/app/com.valvesoftware.Steam/.local/share/Steam"@[1]);
    assert(".steam/steam"@[1] != ".var/app/com.valvesoftware.Steam/.local/share/Steam"@[1]);
    assert(".steam/root"@[1] != ".var/app/com.valvesoftware.Steam/.local/share/Steam"@[1]);
    assert(".steam/steam"@[7] != ".steam/root"@[7]);
    assert(steam_root_suffix(3) == ".var/app/com.valvesoftware.Steam/.local/share/Steam"@);
    assert(steam_root_suffix(0) == ".local/share/Steam"@);
}

/// A Flatpak Steam install is searched: when the probe accepts the Flatpak
/// root under `home` and the art directory of `app_id` inside it (and never
/// rejects either), the search cannot come back empty.
pub proof fn lemma_flatpak_art_is_found<F: Fn(&str) -> bool>(is_dir: F, home: Seq<char>, app_id: u32)
    requires
        probed(is_dir, path_join(home, ".var/app/com.valvesoftware.Steam/.local/share/Steam"@), true),
        !probed(is_dir, path_join(home, ".var/app/com.valvesoftware.Steam/.local/share/Steam"@), false),
        probed(
            is_dir,
            path_join(
                path_join(
                    path_join(home, ".var/app/com.valvesoftware.Steam/.local/share/Steam"@),
                    "appcache/librarycache"@,
                ),
                decimal(app_id as nat),
            ),
            true,
        ),
        !probed(
            is_dir,
            path_join(
                path_join(
                    path_join(home, ".var/app/com.valvesoftware.Steam/.local/share/Steam"@),
                    "appcache/librarycache"@,
                ),
                decimal(app_id as nat),
            ),
            false,
        ),
    ensures
        !cache_dir_outcome(is_dir, home, app_id, None),
{
    lemma_steam_roots_distinct();
    let k = choose|k: int|
        0 <= k < STEAM_ROOTS && #[trigger] steam_root_suffix(k) == ".var/app/com.valvesoftware.Steam/.local/share/Steam"@;
    assert(!art_dir_missing(is_dir, home, app_id, k));
}

/// The views of a list of string slices.
pub open spec fn str_views(v: Seq<&str>) -> Seq<Seq<char>> {
    v.map_values(|s: &str| s@)
}

/// `r` is a possible outcome of taking the first of `names`, in order, that
/// `is_file` accepts inside `dir`.
pub open spec fn first_file_outcome<F: Fn(&str) -> bool>(
    is_file: F,
    dir: Seq<char>,
    names: Seq<Seq<char>>,
    r: Option<Seq<char>>,
) -> bool {
    match r {
        Some(p) => exists|k: int|
            0 <= k < names.len() && p == path_join(dir, names[k]) && #[trigger] probed(
                is_file,
                path_join(dir, names[k]),
                true,
            ) && forall|j: int|
                0 <= j < k ==> #[trigger] probed(is_file, path_join(dir, names[j]), false),
        None => forall|j: int|
            0 <= j < names.len() ==> #[trigger] probed(is_file, path_join(dir, names[j]), false),
    }
}

/// The first of `names` that exists as a file in `dir`.
pub fn first_existing<F: Fn(&str) -> bool>(dir: &str, names: &Vec<&str>, is_file: &F) -> (r: Option<
    String,
>)
    requires
        probe_total(*is_file),
    ensures
        first_file_outcome(*is_file, dir@, str_views(names@), opt_path(r)),
{
    let ghost nv = str_views(names@);
    let mut k: usize = 0;
    while k < names.len()
        invariant
            k <= names@.len(),
            nv == str_views(names@),
            probe_total(*is_file),
            forall|j: int| 0 <= j < k ==> #[trigger] probed(*is_file, path_join(dir@, nv[j]), false),
        decreases names@.len() - k,
    {
        let p = join_path(dir, names[k]);
        assert(nv[k as int] == names@[k as int]@);
        let ok = is_file(p.as_str());
        assert(probed(*is_file, path_join(dir@, nv[k as int]), ok));
        if ok {
            return Some(p);
        }
        k = k + 1;
    }
    None
}

/// Where `names` are looked for: the art directory that searching the Steam
/// roots may give, then the first of `names` there.
pub open spec fn art_outcome<D: Fn(&str) -> bool, F: Fn(&str) -> bool>(
    is_dir: D,
    is_file: F,
    home: Seq<char>,
    app_id: u32,
    names: Seq<Seq<char>>,
    r: Option<Seq<char>>,
) -> bool {
    exists|d: Option<Seq<char>>|
        #[trigger] cache_dir_outcome(is_dir, home, app_id, d) && match d {
            Some(dir) => first_file_outcome(is_file, dir, names, r),
            None => r is None,
        }
}

/// The art tried for a row tile, best first (portrait box art looks best).
pub open spec fn icon_names() -> Seq<Seq<char>> {
    seq!["library_600x900.jpg"@, "header.jpg"@, "logo.png"@]
}

/// The art tried for the before/after preview, best first (wide banners).
pub open spec fn preview_names() -> Seq<Seq<char>> {
    seq!["header.jpg"@, "library_hero.jpg"@, "library_600x900.jpg"@]
}

/// The cached art of `app_id` among `names`.
fn art_path<D: Fn(&str) -> bool, F: Fn(&str) -> bool>(
    home: &str,
    app_id: u32,
    names: &Vec<&str>,
    is_dir: &D,
    is_file: &F,
) -> (r: Option<String>)
    requires
        probe_total(*is_dir),
        probe_total(*is_file),
    ensures
        art_outcome(*is_dir, *is_file, home@, app_id, str_views(names@), opt_path(r)),
{
    let dir = cache_dir(home, app_id, is_dir);
    let ghost d = opt_path(dir);
    assert(cache_dir_outcome(*is_dir, home@, app_id, d));
    match dir {
        Some(dir) => first_existing(dir.as_str(), names, is_file),
        None => None,
    }
}

/// Square-ish art for a game's row tile, from Steam's local cache under
/// `home`.
pub fn icon_path<D: Fn(&str) -> bool, F: Fn(&str) -> bool>(home: &str, app_id: u32, is_dir: D, is_file: F) -> (r:
    Option<String>)
    requires
        probe_total(is_dir),
        probe_total(is_file),
    ensures
        art_outcome(is_dir, is_file, home@, app_id, icon_names(), opt_path(r)),
{
    let names = vec!["library_600x900.jpg", "header.jpg", "logo.png"];
    assert(str_views(names@) =~= icon_names());
    art_path(home, app_id, &names, &is_dir, &is_file)
}

/// Wide art for a game's before/after preview (the header or hero banner),
/// from Steam's local cache under `home`.
pub fn preview_path<D: Fn(&str) -> bool, F: Fn(&str) -> bool>(home: &str, app_id: u32, is_dir: D, is_file: F) -> (r:
    Option<String>)
    requires
        probe_total(is_dir),
        probe_total(is_file),
    ensures
        art_outcome(is_dir, is_file, home@, app_id, preview_names(), opt_path(r)),
{
    let names = vec!["header.jpg", "library_hero.jpg", "library_600x900.jpg"];
    assert(str_views(names@) =~= preview_names());
    art_path(home, app_id, &names, &is_dir, &is_file)
}

} // verus!
