//! Running programs, so that a game can be picked from a list, and the Steam
//! AppID a game process carries in its environment.
//!
//! The caller reads `/proc`; this module decides which entries are programs
//! worth listing, merges duplicates and orders the list.

use vstd::prelude::*;

use crate::launch::{file_name, path_file_name};
use crate::text::{
    all_digits, chars_of, has_prefix, is_all_digits, parse_u32, parse_u32_str, seq_lt,
    starts_with, str_lt, strip_prefix_str, trim, trim_str, views,
};

verus! {

/// What `String::from_utf8_lossy` makes of a byte string: its UTF-8 decoding
/// with each invalid sequence replaced by U+FFFD.
pub uninterp spec fn utf8_lossy(bytes: Seq<u8>) -> Seq<char>;

/// Decodes bytes as UTF-8, replacing what is invalid (`String::from_utf8_lossy`).
/// Stated: the result is `utf8_lossy` of the bytes, and ASCII bytes decode one
/// character per byte. The decoding of other bytes is left to the name.
#[verifier::external_body]
fn from_utf8_lossy(bytes: &[u8]) -> (r: String)
    ensures
        r@ == utf8_lossy(bytes@),
        (forall|i: int| 0 <= i < bytes@.len() ==> bytes@[i] < 128) ==> r@ == bytes@.map_values(
            |b: u8| b as char,
        ),
{
    String::from_utf8_lossy(bytes).into_owned()
}

/// The pieces of `s` between zero bytes, in order (`[u8]::split` on `0`): one
/// more piece than there are zero bytes, empty pieces included.
pub open spec fn nul_fields(s: Seq<u8>) -> Seq<Seq<u8>>
    decreases s.len(),
{
    if s.len() == 0 {
        seq![Seq::empty()]
    } else {
        let f = nul_fields(s.drop_last());
        if s.last() == 0 {
            f.push(Seq::empty())
        } else {
            f.update(f.len() - 1, f.last().push(s.last()))
        }
    }
}

/// `nul_fields` always has at least one piece.
proof fn lemma_nul_fields_nonempty(s: Seq<u8>)
    ensures
        nul_fields(s).len() >= 1,
    decreases s.len(),
{
    if s.len() > 0 {
        lemma_nul_fields_nonempty(s.drop_last());
    }
}

/// The variables that carry a Steam game's AppID, in the order they are tried.
pub open spec fn steam_keys() -> Seq<Seq<char>> {
    seq!["SteamAppId="@, "SteamGameId="@, "STEAM_COMPAT_APP_ID="@]
}

/// The AppID an environment entry gives under `key`: the rest after the key,
/// trimmed, parsed as a `u32`, and not zero.
pub open spec fn key_app_id(var: Seq<char>, key: Seq<char>) -> Option<u32> {
    if starts_with(var, key) {
        match parse_u32(trim(var.subrange(key.len() as int, var.len() as int))) {
            Some(id) => if id != 0 {
                Some(id)
            } else {
                None
            },
            None => None,
        }
    } else {
        None
    }
}

/// The AppID one environment entry gives, trying the keys in order.
pub open spec fn var_app_id(var: Seq<char>) -> Option<u32> {
    let ks = steam_keys();
    if key_app_id(var, ks[0]) is Some {
        key_app_id(var, ks[0])
    } else if key_app_id(var, ks[1]) is Some {
        key_app_id(var, ks[1])
    } else {
        key_app_id(var, ks[2])
    }
}

/// The AppID of the first environment entry that gives one.
pub open spec fn vars_app_id(vars: Seq<Seq<char>>) -> Option<u32>
    decreases vars.len(),
{
    if vars.len() == 0 {
        None
    } else if var_app_id(vars[0]) is Some {
        var_app_id(vars[0])
    } else {
        vars_app_id(vars.drop_first())
    }
}

/// The AppID a raw environment block (`/proc/<pid>/environ`) gives.
pub open spec fn environ_app_id(environ: Seq<u8>) -> Option<u32> {
    vars_app_id(nul_fields(environ).map_values(|f: Seq<u8>| utf8_lossy(f)))
}

/// The AppID one environment entry gives under `key`.
fn key_app_id_of(var: &str, key: &str) -> (r: Option<u32>)
    ensures
        r == key_app_id(var@, key@),
{
    match strip_prefix_str(var, key) {
        Some(rest) => {
            let t = trim_str(rest.as_str());
            match parse_u32_str(t.as_str()) {
                Some(id) => if id != 0 {
                    Some(id)
                } else {
                    None
                },
                None => None,
            }
        },
        None => None,
    }
}

/// The AppID one environment entry gives.
fn var_app_id_of(var: &str) -> (r: Option<u32>)
    ensures
        r == var_app_id(var@),
{
    let a = key_app_id_of(var, "SteamAppId=");
    if a.is_some() {
        return a;
    }
    let g = key_app_id_of(var, "SteamGameId=");
    if g.is_some() {
        return g;
    }
    key_app_id_of(var, "STEAM_COMPAT_APP_ID=")
}

/// The Steam AppID a process's environment entries (`NAME=value`) give:
/// `SteamAppId`, `SteamGameId` or `STEAM_COMPAT_APP_ID`, from the first entry
/// that holds a non-zero number under one of them.
pub fn steam_app_id_from_vars(vars: &Vec<String>) -> (r: Option<u32>)
    ensures
        r == vars_app_id(views(vars@)),
{
    let ghost all = views(vars@);
    let mut i: usize = 0;
    assert(all.subrange(0, all.len() as int) =~= all);
    while i < vars.len()
        invariant
            all == views(vars@),
            i <= vars@.len(),
            vars_app_id(all) == vars_app_id(all.subrange(i as int, all.len() as int)),
        decreases vars@.len() - i,
    {
        let ghost rest = all.subrange(i as int, all.len() as int);
        assert(rest[0] == vars@[i as int]@);
        let a = var_app_id_of(vars[i].as_str());
        if a.is_some() {
            return a;
        }
        assert(rest.drop_first() =~= all.subrange(i + 1, all.len() as int));
        i = i + 1;
    }
    None
}

/// The Steam AppID in a raw process environment block, whose entries are
/// separated by zero bytes and decoded as (lossy) UTF-8.
pub fn steam_app_id_of(environ: &[u8]) -> (r: Option<u32>)
    ensures
        r == environ_app_id(environ@),
{
    let mut fields: Vec<Vec<u8>> = Vec::new();
    let mut cur: Vec<u8> = Vec::new();
    let mut i: usize = 0;
    while i < environ.len()
        invariant
            i <= environ@.len(),
            fields@.map_values(|f: Vec<u8>| f@).push(cur@) == nul_fields(
                environ@.subrange(0, i as int),
            ),
        decreases environ@.len() - i,
    {
        let ghost before = environ@.subrange(0, i as int);
        let b = environ[i];
        assert(environ@.subrange(0, i + 1).drop_last() =~= before);
        if b == 0 {
            let done = cur;
            fields.push(done);
            cur = Vec::new();
            assert(fields@.map_values(|f: Vec<u8>| f@).push(cur@) =~= nul_fields(before).push(
                Seq::empty(),
            ));
        } else {
            cur.push(b);
            assert(fields@.map_values(|f: Vec<u8>| f@).push(cur@) =~= nul_fields(before).update(
                nul_fields(before).len() - 1,
                nul_fields(before).last().push(b),
            ));
        }
        i = i + 1;
    }
    fields.push(cur);
    assert(environ@.subrange(0, i as int) =~= environ@);
    let ghost raw = nul_fields(environ@);
    assert(fields@.map_values(|f: Vec<u8>| f@) =~= raw);
    let mut vars: Vec<String> = Vec::new();
    let mut k: usize = 0;
    while k < fields.len()
        invariant
            k <= fields@.len(),
            fields@.map_values(|f: Vec<u8>| f@) == raw,
            views(vars@) == raw.subrange(0, k as int).map_values(|f: Seq<u8>| utf8_lossy(f)),
        decreases fields@.len() - k,
    {
        let ghost prev = vars@;
        let bytes = fields[k].as_slice();
        assert(bytes@ == raw[k as int]);
        let s = from_utf8_lossy(bytes);
        vars.push(s);
        assert(vars@ == prev.push(s));
        assert(views(vars@) =~= views(prev).push(utf8_lossy(raw[k as int])));
        assert(views(vars@) =~= raw.subrange(0, k + 1).map_values(|f: Seq<u8>| utf8_lossy(f)));
        k = k + 1;
    }
    assert(raw.subrange(0, k as int) =~= raw);
    steam_app_id_from_vars(&vars)
}

/// A running program: its executable name and, for a Steam game, its AppID.
pub struct RunningApp {
    pub exe: String,
    pub app_id: Option<u32>,
}

/// One entry of `/proc`, as the caller read it.
pub struct ProcEntry {
    /// The entry's name: a process id for processes.
    pub name: String,
    /// Where the entry's `exe` link points, when it could be read (kernel
    /// threads have none).
    pub exe_target: Option<String>,
    /// The process's raw environment block, when it could be read.
    pub environ: Option<Vec<u8>>,
}

/// The program name an entry is listed under, if it is listed: only process
/// entries whose executable resolves to a file name that does not start with
/// `own` (the prefix of the listing tool's own programs).
pub open spec fn listed_exe(e: ProcEntry, own: Seq<char>) -> Option<Seq<char>> {
    if all_digits(e.name@) {
        match e.exe_target {
            Some(t) => match file_name(t@) {
                Some(b) => if b.len() > 0 && !starts_with(b, own) {
                    Some(b)
                } else {
                    None
                },
                None => None,
            },
            None => None,
        }
    } else {
        None
    }
}

/// The AppID an entry's environment gives.
pub open spec fn entry_app_id(e: ProcEntry) -> Option<u32> {
    match e.environ {
        Some(d) => environ_app_id(d@),
        None => None,
    }
}

/// Some entry of `es` is listed under `exe`.
pub open spec fn is_listed(es: Seq<ProcEntry>, own: Seq<char>, exe: Seq<char>) -> bool {
    exists|j: int| 0 <= j < es.len() && #[trigger] listed_exe(es[j], own) == Some(exe)
}

/// The AppID a program is shown with: the first AppID that any entry listed
/// under its name gives.
pub open spec fn first_app_id(es: Seq<ProcEntry>, own: Seq<char>, exe: Seq<char>) -> Option<u32>
    decreases es.len(),
{
    if es.len() == 0 {
        None
    } else {
        let prev = first_app_id(es.drop_last(), own, exe);
        if prev is Some {
            prev
        } else if listed_exe(es.last(), own) == Some(exe) {
            entry_app_id(es.last())
        } else {
            None
        }
    }
}

proof fn lemma_first_app_id_unlisted(es: Seq<ProcEntry>, own: Seq<char>, exe: Seq<char>)
    requires
        !is_listed(es, own, exe),
    ensures
        first_app_id(es, own, exe) is None,
    decreases es.len(),
{
    if es.len() > 0 {
        assert(!is_listed(es.drop_last(), own, exe)) by {
            if is_listed(es.drop_last(), own, exe) {
                let j = choose|j: int|
                    0 <= j < es.drop_last().len() && #[trigger] listed_exe(es.drop_last()[j], own) == Some(
                        exe,
                    );
                assert(listed_exe(es[j], own) == Some(exe));
            }
        }
        lemma_first_app_id_unlisted(es.drop_last(), own, exe);
        assert(listed_exe(es[es.len() - 1], own) != Some(exe));
    }
}

/// The list is ordered by name, each name once.
pub open spec fn sorted_by_exe(r: Seq<RunningApp>) -> bool {
    forall|a: int, b: int| 0 <= a < b < r.len() ==> seq_lt(#[trigger] r[a].exe@, #[trigger] r[b].exe@)
}

/// Some program of the list has this name.
pub open spec fn has_exe(r: Seq<RunningApp>, exe: Seq<char>) -> bool {
    exists|a: int| 0 <= a < r.len() && #[trigger] r[a].exe@ == exe
}

/// The name an entry is listed under, when programs whose name starts with
/// `own` are left out.
pub fn listed_exe_of(e: &ProcEntry, own: &str) -> (r: Option<String>)
    ensures
        r is Some <==> listed_exe(*e, own@) is Some,
        r matches Some(n) ==> listed_exe(*e, own@) == Some(n@),
{
    if !is_all_digits(e.name.as_str()) {
        return None;
    }
    match &e.exe_target {
        None => None,
        Some(t) => match path_file_name(t.as_str()) {
            None => None,
            Some(b) => {
                let v = chars_of(b.as_str());
                let prefix = chars_of(own);
                if v.len() == 0 || has_prefix(&v, &prefix) {
                    None
                } else {
                    Some(b)
                }
            },
        },
    }
}

/// Distinct running programs by executable name, in name order, each with
/// the first Steam AppID found among its processes. Entries that are not
/// processes, have no resolvable executable, or whose program name starts with
/// `own` (the listing tool's own programs) are skipped.
pub fn running_apps_except(entries: &Vec<ProcEntry>, own: &str) -> (r: Vec<RunningApp>)
    ensures
        sorted_by_exe(r@),
        forall|x: Seq<char>| has_exe(r@, x) <==> is_listed(entries@, own@, x),
        forall|a: int| 0 <= a < r@.len() ==> #[trigger] r@[a].app_id == first_app_id(entries@, own@, r@[a].exe@),
{
    let mut out: Vec<RunningApp> = Vec::new();
    let mut i: usize = 0;
    while i < entries.len()
        invariant
            i <= entries@.len(),
            sorted_by_exe(out@),
            forall|x: Seq<char>| has_exe(out@, x) <==> is_listed(entries@.subrange(0, i as int), own@, x),
            forall|a: int|
                0 <= a < out@.len() ==> #[trigger] out@[a].app_id == first_app_id(
                    entries@.subrange(0, i as int), own@,
                    out@[a].exe@,
                ),
        decreases entries@.len() - i,
    {
        let ghost prefix = entries@.subrange(0, i as int);
        let ghost next = entries@.subrange(0, i + 1);
        let ghost e = entries@[i as int];
        assert(next.drop_last() =~= prefix);
        assert(next.last() == e);
        assert forall|x: Seq<char>| is_listed(next, own@, x) <==> (is_listed(prefix, own@, x) || listed_exe(e, own@) == Some(x)) by {
            if is_listed(next, own@, x) {
                let j = choose|j: int| 0 <= j < next.len() && #[trigger] listed_exe(next[j], own@) == Some(x);
                if j < i {
                    assert(prefix[j] == next[j]);
                }
            }
            if is_listed(prefix, own@, x) {
                let j = choose|j: int| 0 <= j < prefix.len() && #[trigger] listed_exe(prefix[j], own@) == Some(x);
                assert(next[j] == prefix[j]);
            }
            if listed_exe(e, own@) == Some(x) {
                assert(listed_exe(next[i as int], own@) == Some(x));
            }
        }
        match listed_exe_of(&entries[i], own) {
            None => {
                assert forall|a: int| 0 <= a < out@.len() implies #[trigger] out@[a].app_id == first_app_id(
                    next, own@,
                    out@[a].exe@,
                ) by {}
            },
            Some(n) => {
                let id = match &entries[i].environ {
                    Some(d) => steam_app_id_of(d.as_slice()),
                    None => None,
                };
                assert(id == entry_app_id(e));
                let mut k: usize = 0;
                while k < out.len() && str_lt(out[k].exe.as_str(), n.as_str())
                    invariant
                        k <= out@.len(),
                        forall|a: int| 0 <= a < k ==> seq_lt(#[trigger] out@[a].exe@, n@),
                    decreases out@.len() - k,
                {
                    k = k + 1;
                }
                let ghost before = out@;
                if k < out.len() && crate::text::str_eq(out[k].exe.as_str(), n.as_str()) {
                    if out[k].app_id.is_none() {
                        let name = crate::text::copy_string(&out[k].exe);
                        out.set(k, RunningApp { exe: name, app_id: id });
                    }
                    assert forall|a: int| 0 <= a < out@.len() implies #[trigger] out@[a].exe@ == before[a].exe@ by {}
                    assert(sorted_by_exe(out@)) by {
                        assert forall|a: int, b: int| 0 <= a < b < out@.len() implies seq_lt(
                            #[trigger] out@[a].exe@,
                            #[trigger] out@[b].exe@,
                        ) by {
                            assert(seq_lt(before[a].exe@, before[b].exe@));
                        }
                    }
                    assert forall|x: Seq<char>| has_exe(out@, x) <==> is_listed(next, own@, x) by {
                        if has_exe(out@, x) {
                            let a = choose|a: int| 0 <= a < out@.len() && #[trigger] out@[a].exe@ == x;
                            assert(before[a].exe@ == x);
                        }
                        if has_exe(before, x) {
                            let a = choose|a: int| 0 <= a < before.len() && #[trigger] before[a].exe@ == x;
                            assert(out@[a].exe@ == x);
                        }
                        if x == n@ {
                            assert(out@[k as int].exe@ == x);
                        }
                    }
                    assert forall|a: int| 0 <= a < out@.len() implies #[trigger] out@[a].app_id == first_app_id(
                        next, own@,
                        out@[a].exe@,
                    ) by {
                        assert(before[a].app_id == first_app_id(prefix, own@, before[a].exe@));
                    }
                } else {
                    assert(!has_exe(before, n@)) by {
                        if has_exe(before, n@) {
                            let a = choose|a: int| 0 <= a < before.len() && #[trigger] before[a].exe@ == n@;
                            crate::text::lemma_seq_lt_strict_total(n@, n@);
                            if a >= k {
                                crate::text::lemma_seq_lt_strict_total(before[k as int].exe@, n@);
                                if a > k {
                                    crate::text::lemma_seq_lt_transitive(
                                        n@,
                                        before[k as int].exe@,
                                        before[a].exe@,
                                    );
                                }
                            }
                        }
                    }
                    proof {
                        lemma_first_app_id_unlisted(prefix, own@, n@);
                    }
                    out.insert(k, RunningApp { exe: n, app_id: id });
                    assert(sorted_by_exe(out@)) by {
                        assert forall|a: int, b: int| 0 <= a < b < out@.len() implies seq_lt(
                            #[trigger] out@[a].exe@,
                            #[trigger] out@[b].exe@,
                        ) by {
                            if b < k {
                                assert(seq_lt(before[a].exe@, before[b].exe@));
                            } else if b == k {
                            } else if a < k {
                                assert(out@[b].exe@ == before[b - 1].exe@);
                                assert(seq_lt(before[a].exe@, before[b - 1].exe@));
                            } else if a == k {
                                assert(out@[b].exe@ == before[b - 1].exe@);
                                crate::text::lemma_seq_lt_strict_total(before[k as int].exe@, n@);
                                if b - 1 > k {
                                    assert(seq_lt(before[k as int].exe@, before[b - 1].exe@));
                                    crate::text::lemma_seq_lt_transitive(
                                        n@,
                                        before[k as int].exe@,
                                        before[b - 1].exe@,
                                    );
                                }
                            } else {
                                assert(out@[a].exe@ == before[a - 1].exe@);
                                assert(out@[b].exe@ == before[b - 1].exe@);
                                assert(seq_lt(before[a - 1].exe@, before[b - 1].exe@));
                            }
                        }
                    }
                    assert forall|x: Seq<char>| has_exe(out@, x) <==> is_listed(next, own@, x) by {
                        if has_exe(out@, x) {
                            let a = choose|a: int| 0 <= a < out@.len() && #[trigger] out@[a].exe@ == x;
                            if a < k {
                                assert(before[a].exe@ == x);
                            } else if a > k {
                                assert(before[a - 1].exe@ == x);
                            }
                        }
                        if has_exe(before, x) {
                            let a = choose|a: int| 0 <= a < before.len() && #[trigger] before[a].exe@ == x;
                            if a < k {
                                assert(out@[a].exe@ == x);
                            } else {
                                assert(out@[a + 1].exe@ == x);
                            }
                        }
                        if x == n@ {
                            assert(out@[k as int].exe@ == x);
                        }
                    }
                    assert forall|a: int| 0 <= a < out@.len() implies #[trigger] out@[a].app_id == first_app_id(
                        next, own@,
                        out@[a].exe@,
                    ) by {
                        if a < k {
                            assert(before[a].app_id == first_app_id(prefix, own@, before[a].exe@));
                            crate::text::lemma_seq_lt_strict_total(n@, n@);
                        } else if a > k {
                            assert(out@[a] == before[a - 1]);
                            assert(before[a - 1].app_id == first_app_id(prefix, own@, before[a - 1].exe@));
                            assert(before[a - 1].exe@ != n@) by {
                                if before[a - 1].exe@ == n@ {
                                    assert(has_exe(before, n@));
                                }
                            }
                        }
                    }
                }
            },
        }
        i = i + 1;
    }
    assert(entries@.subrange(0, i as int) =~= entries@);
    out
}

/// The prefix of Satur8's own programs (`satur8`, `satur8-gui`,
/// `satur8-daemon`), which the running-program list leaves out.
pub open spec fn satur8_tools() -> Seq<char> {
    "satur8"@
}

/// Distinct running programs by executable name, in name order, each with
/// the first Steam AppID found among its processes. Kernel threads, entries
/// that are not processes, and Satur8's own tools are skipped.
pub fn running_apps(entries: &Vec<ProcEntry>) -> (r: Vec<RunningApp>)
    ensures
        sorted_by_exe(r@),
        forall|x: Seq<char>| has_exe(r@, x) <==> is_listed(entries@, satur8_tools(), x),
        forall|a: int|
            0 <= a < r@.len() ==> #[trigger] r@[a].app_id == first_app_id(entries@, satur8_tools(), r@[a].exe@),
{
    running_apps_except(entries, "satur8")
}

/// The prefix of the earlier `vibrance` tools, which their running-program
/// list leaves out.
pub open spec fn vibrance_tools() -> Seq<char> {
    "vibrance"@
}

/// The distinct executable names of running programs, in name order, as the
/// earlier `vibrance` desktop app lists them (leaving out its own `vibrance`
/// tools).
pub fn running_executables(entries: &Vec<ProcEntry>) -> (r: Vec<String>)
    ensures
        forall|a: int, b: int| 0 <= a < b < r@.len() ==> seq_lt(#[trigger] r@[a]@, #[trigger] r@[b]@),
        forall|x: Seq<char>| (exists|a: int| 0 <= a < r@.len() && #[trigger] r@[a]@ == x) <==> is_listed(entries@, vibrance_tools(), x),
{
    let apps = running_apps_except(entries, "vibrance");
    assert(forall|x: Seq<char>| has_exe(apps@, x) <==> is_listed(entries@, vibrance_tools(), x));
    let mut out: Vec<String> = Vec::new();
    let mut i: usize = 0;
    while i < apps.len()
        invariant
            i <= apps@.len(),
            out@.len() == i,
            forall|a: int| 0 <= a < i ==> #[trigger] out@[a]@ == apps@[a].exe@,
        decreases apps@.len() - i,
    {
        out.push(crate::text::copy_string(&apps[i].exe));
        i = i + 1;
    }
    assert forall|x: Seq<char>| (exists|a: int| 0 <= a < out@.len() && #[trigger] out@[a]@ == x) <==> has_exe(apps@, x) by {
        if exists|a: int| 0 <= a < out@.len() && #[trigger] out@[a]@ == x {
            let a = choose|a: int| 0 <= a < out@.len() && #[trigger] out@[a]@ == x;
            assert(apps@[a].exe@ == x);
        }
        if has_exe(apps@, x) {
            let a = choose|a: int| 0 <= a < apps@.len() && #[trigger] apps@[a].exe@ == x;
            assert(out@[a]@ == x);
        }
    }
    assert forall|a: int, b: int| 0 <= a < b < out@.len() implies seq_lt(#[trigger] out@[a]@, #[trigger] out@[b]@) by {
        assert(seq_lt(apps@[a].exe@, apps@[b].exe@));
    }
    assert forall|x: Seq<char>| (exists|a: int| 0 <= a < out@.len() && #[trigger] out@[a]@ == x) <==> is_listed(entries@, vibrance_tools(), x) by {
        assert(has_exe(apps@, x) <==> is_listed(entries@, vibrance_tools(), x));
    }
    out
}

} // verus!
