//! The DRM/KMS CTM backend's decisions: which CRTCs an output refers to, how a
//! failed commit is reported, which card node to drive, and what the read-only
//! probe reports. The ioctls themselves are made by the caller.

use vstd::prelude::*;

use crate::backend::{all_outputs_id, BackendError, Output};
use crate::text::{
    seq_lt, str_lt,
    concat, decimal, join, join_strings, owned, parse_u32, parse_u32_str, str_eq, u64_to_decimal,
    views,
};

verus! {

/// Every element is smaller than the next.
pub open spec fn strictly_increasing(s: Seq<u32>) -> bool {
    forall|i: int, j: int| 0 <= i < j < s.len() ==> s[i] < s[j]
}

/// The ids of `ids` in ascending order, each once (`sort_unstable` then
/// `dedup`).
#[verifier::spinoff_prover]
pub fn sorted_unique(ids: &[u32]) -> (r: Vec<u32>)
    ensures
        strictly_increasing(r@),
        forall|x: u32| r@.contains(x) <==> ids@.contains(x),
{
    let mut out: Vec<u32> = Vec::new();
    let mut i: usize = 0;
    while i < ids.len()
        invariant
            i <= ids@.len(),
            strictly_increasing(out@),
            forall|x: u32| out@.contains(x) <==> ids@.subrange(0, i as int).contains(x),
        decreases ids@.len() - i,
    {
        let x = ids[i];
        let mut k: usize = 0;
        while k < out.len() && out[k] < x
            invariant
                k <= out@.len(),
                forall|j: int| 0 <= j < k ==> out@[j] < x,
            decreases out@.len() - k,
        {
            k = k + 1;
        }
        let ghost before = out@;
        assert(ids@.subrange(0, i + 1) =~= ids@.subrange(0, i as int).push(x));
        if k < out.len() && out[k] == x {
            assert(before.contains(x));
            assert forall|y: u32| out@.contains(y) <==> (before.contains(y) || y == x) by {}
        } else {
            out.insert(k, x);
            assert forall|a: int, b: int| 0 <= a < b < out@.len() implies out@[a] < out@[b] by {
                if b < k {
                } else if a < k && b == k {
                } else if a < k && b > k {
                    assert(out@[b] == before[b - 1]);
                } else if a == k {
                    assert(out@[b] == before[b - 1]);
                    assert(before[k as int] > x || k == before.len());
                    if b - 1 > k {
                        assert(before[k as int] < before[b - 1]);
                    }
                } else {
                    assert(out@[a] == before[a - 1]);
                    assert(out@[b] == before[b - 1]);
                }
            }
            assert forall|y: u32| out@.contains(y) <==> (before.contains(y) || y == x) by {
                if out@.contains(y) {
                    let m = choose|m: int| 0 <= m < out@.len() && out@[m] == y;
                    if m < k {
                        assert(before[m] == y);
                    } else if m > k {
                        assert(before[m - 1] == y);
                    }
                }
                if before.contains(y) {
                    let m = choose|m: int| 0 <= m < before.len() && before[m] == y;
                    if m < k {
                        assert(out@[m] == y);
                    } else {
                        assert(out@[m + 1] == y);
                    }
                }
                if y == x {
                    assert(out@[k as int] == x);
                }
            }
        }
        assert forall|y: u32| out@.contains(y) <==> (before.contains(y) || y == x) by {}
        assert forall|y: u32| ids@.subrange(0, i + 1).contains(y) <==> (ids@.subrange(0, i as int).contains(y)
            || y == x) by {
            let s = ids@.subrange(0, i + 1);
            if s.contains(y) {
                let m = choose|m: int| 0 <= m < s.len() && s[m] == y;
                if m < i {
                    assert(ids@.subrange(0, i as int)[m] == y);
                }
            }
            if ids@.subrange(0, i as int).contains(y) {
                let m = choose|m: int| 0 <= m < i && ids@.subrange(0, i as int)[m] == y;
                assert(s[m] == y);
            }
            if y == x {
                assert(s[i as int] == y);
            }
        }
        assert forall|y: u32| out@.contains(y) <==> ids@.subrange(0, i + 1).contains(y) by {
            assert(before.contains(y) <==> ids@.subrange(0, i as int).contains(y));
            assert(out@.contains(y) <==> (before.contains(y) || y == x));
            assert(ids@.subrange(0, i + 1).contains(y) <==> (ids@.subrange(0, i as int).contains(y)
                || y == x));
        }
        i = i + 1;
    }
    assert(ids@.subrange(0, i as int) =~= ids@);
    out
}

/// Whether any CTM-capable CRTC of a card drives a display. Asks `is_active`
/// about the ids in order and stops at the first yes.
pub fn has_active_ctm_crtc_id<F: Fn(u32) -> bool>(ids: &[u32], is_active: F) -> (r: bool)
    requires
        forall|i: int| 0 <= i < ids@.len() ==> call_requires(is_active, (#[trigger] ids@[i],)),
    ensures
        r ==> exists|i: int| 0 <= i < ids@.len() && call_ensures(is_active, (#[trigger] ids@[i],), true),
        !r ==> forall|i: int| 0 <= i < ids@.len() ==> call_ensures(is_active, (#[trigger] ids@[i],), false),
{
    let mut i: usize = 0;
    while i < ids.len()
        invariant
            i <= ids@.len(),
            forall|j: int| 0 <= j < ids@.len() ==> call_requires(is_active, (#[trigger] ids@[j],)),
            forall|j: int| 0 <= j < i ==> call_ensures(is_active, (#[trigger] ids@[j],), false),
        decreases ids@.len() - i,
    {
        let x = ids[i];
        let a = is_active(x);
        if a {
            assert(call_ensures(is_active, (ids@[i as int],), true));
            return true;
        }
        i = i + 1;
    }
    false
}

/// Which ids `resolve_target_ids` may pick for the `"all"` output: the active
/// ones when any CRTC reports active, otherwise every CTM-capable one.
pub open spec fn all_targets_ok<F: Fn(u32) -> bool>(ids: Seq<u32>, is_active: F, t: Seq<u32>) -> bool {
    &&& t.len() > 0
    &&& strictly_increasing(t)
    &&& forall|x: u32| t.contains(x) ==> ids.contains(x)
    &&& {
        ||| ((forall|x: u32| t.contains(x) ==> call_ensures(is_active, (x,), true)) && (forall|x: u32|
            ids.contains(x) && !t.contains(x) ==> call_ensures(is_active, (x,), false)))
        ||| (forall|x: u32| ids.contains(x) ==> t.contains(x) && call_ensures(is_active, (x,), false))
    }
}

/// The text of the error for an output id that is not a CRTC number.
pub open spec fn bad_crtc_text(id: Seq<char>) -> Seq<char> {
    "bad CRTC id '"@ + id + "'"@
}

/// The text of the error for a CRTC without a CTM property.
pub open spec fn no_ctm_text(id: u32) -> Seq<char> {
    "CRTC "@ + decimal(id as nat) + " has no CTM property"@
}

/// The text of the error when there is no CTM-capable CRTC at all.
pub open spec fn no_crtc_text() -> Seq<char> {
    "no CTM-capable CRTC available on this device"@
}

/// Resolves the CTM-capable CRTCs an output refers to. The `"all"` output fans
/// out across every active CTM-capable CRTC (or every CTM-capable CRTC when
/// none reports active); a numeric id targets exactly that CRTC.
pub fn resolve_target_ids<F: Fn(u32) -> bool>(output: &Output, ids: &[u32], is_active: F) -> (r:
    Result<Vec<u32>, BackendError>)
    requires
        forall|x: u32| ids@.contains(x) ==> call_requires(is_active, (x,)),
    ensures
        output.id@ == all_outputs_id() ==> {
            &&& r is Err <==> ids@.len() == 0
            &&& r matches Err(e) ==> (e matches BackendError::Apply(m) && m@ == no_crtc_text())
            &&& r matches Ok(t) ==> all_targets_ok(ids@, is_active, t@)
        },
        output.id@ != all_outputs_id() ==> match parse_u32(output.id@) {
            None => r matches Err(BackendError::Apply(m)) && m@ == bad_crtc_text(output.id@),
            Some(n) => if ids@.contains(n) {
                r matches Ok(t) && t@ == seq![n]
            } else {
                r matches Err(BackendError::Apply(m)) && m@ == no_ctm_text(n)
            },
        },
{
    let sorted = sorted_unique(ids);
    if str_eq(output.id.as_str(), "all") {
        let mut active: Vec<u32> = Vec::new();
        let mut i: usize = 0;
        while i < sorted.len()
            invariant
                i <= sorted@.len(),
                strictly_increasing(sorted@),
                forall|x: u32| sorted@.contains(x) <==> ids@.contains(x),
                forall|x: u32| ids@.contains(x) ==> call_requires(is_active, (x,)),
                strictly_increasing(active@),
                forall|x: u32| active@.contains(x) ==> call_ensures(is_active, (x,), true),
                forall|x: u32| active@.contains(x) ==> exists|j: int| 0 <= j < i && #[trigger] sorted@[j] == x,
                forall|j: int|
                    0 <= j < i ==> active@.contains(#[trigger] sorted@[j]) || call_ensures(
                        is_active,
                        (sorted@[j],),
                        false,
                    ),
            decreases sorted@.len() - i,
        {
            let x = sorted[i];
            assert(sorted@.contains(x));
            let ghost before = active@;
            let a = is_active(x);
            if a {
                active.push(x);
                assert forall|p: int, q: int| 0 <= p < q < active@.len() implies active@[p] < active@[q] by {
                    if q == active@.len() - 1 {
                        assert(before.contains(before[p]));
                        let j = choose|j: int| 0 <= j < i && #[trigger] sorted@[j] == before[p];
                        assert(sorted@[j] < sorted@[i as int]);
                    }
                }
                assert forall|y: u32| active@.contains(y) implies exists|j: int|
                    0 <= j < i + 1 && #[trigger] sorted@[j] == y by {
                    let m = choose|m: int| 0 <= m < active@.len() && active@[m] == y;
                    if m < before.len() {
                        assert(before[m] == y);
                        assert(before.contains(y));
                    } else {
                        assert(sorted@[i as int] == y);
                    }
                }
                assert forall|y: u32| active@.contains(y) implies call_ensures(is_active, (y,), true) by {
                    let m = choose|m: int| 0 <= m < active@.len() && active@[m] == y;
                    if m < before.len() {
                        assert(before[m] == y);
                        assert(before.contains(y));
                    }
                }
                assert forall|j: int| 0 <= j < i + 1 implies active@.contains(#[trigger] sorted@[j])
                    || call_ensures(is_active, (sorted@[j],), false) by {
                    if j < i && before.contains(sorted@[j]) {
                        let m = choose|m: int| 0 <= m < before.len() && before[m] == sorted@[j];
                        assert(active@[m] == sorted@[j]);
                    }
                    if j == i {
                        assert(active@[before.len() as int] == sorted@[j]);
                    }
                }
            }
            i = i + 1;
        }
        if active.len() > 0 {
            assert forall|x: u32| ids@.contains(x) && !active@.contains(x) implies call_ensures(
                is_active,
                (x,),
                false,
            ) by {
                assert(sorted@.contains(x));
                let j = choose|j: int| 0 <= j < sorted@.len() && sorted@[j] == x;
            }
            assert forall|x: u32| active@.contains(x) implies ids@.contains(x) by {
                let j = choose|j: int| 0 <= j < i && #[trigger] sorted@[j] == x;
                assert(sorted@.contains(x));
            }
            assert(active@.contains(active@[0]));
            assert(ids@.len() > 0);
            Ok(active)
        } else if sorted.len() > 0 {
            assert forall|x: u32| ids@.contains(x) implies sorted@.contains(x) && call_ensures(
                is_active,
                (x,),
                false,
            ) by {
                assert(sorted@.contains(x));
                let j = choose|j: int| 0 <= j < sorted@.len() && sorted@[j] == x;
                assert(!active@.contains(sorted@[j]));
            }
            assert(sorted@.contains(sorted@[0]));
            assert(ids@.len() > 0);
            Ok(sorted)
        } else {
            assert(ids@.len() == 0) by {
                if ids@.len() > 0 {
                    assert(ids@.contains(ids@[0]));
                    assert(sorted@.contains(ids@[0]));
                }
            }
            Err(BackendError::Apply(owned("no CTM-capable CRTC available on this device")))
        }
    } else {
        match parse_u32_str(output.id.as_str()) {
            None => {
                let mut m = concat("bad CRTC id '", output.id.as_str());
                m.append("'");
                Err(BackendError::Apply(m))
            },
            Some(n) => {
                let mut found = false;
                let mut k: usize = 0;
                while k < sorted.len()
                    invariant
                        k <= sorted@.len(),
                        found <==> exists|j: int| 0 <= j < k && sorted@[j] == n,
                    decreases sorted@.len() - k,
                {
                    if sorted[k] == n {
                        found = true;
                    }
                    k = k + 1;
                }
                assert(found <==> sorted@.contains(n));
                if found {
                    let mut t: Vec<u32> = Vec::new();
                    t.push(n);
                    assert(t@ =~= seq![n]);
                    Ok(t)
                } else {
                    let digits = u64_to_decimal(n as u64);
                    let mut m = concat("CRTC ", digits.as_str());
                    m.append(" has no CTM property");
                    Err(BackendError::Apply(m))
                }
            },
        }
    }
}

/// The failure lines of a round of commits: `CRTC <id>: <error>` for each
/// target whose commit failed, in target order.
pub open spec fn failure_lines(t: Seq<u32>, res: Seq<Result<(), String>>) -> Seq<Seq<char>>
    decreases t.len(),
{
    if t.len() == 0 || res.len() == 0 {
        Seq::empty()
    } else {
        let prev = failure_lines(t.drop_last(), res.drop_last());
        match res.last() {
            Ok(_) => prev,
            Err(m) => prev.push("CRTC "@ + decimal(t.last() as nat) + ": "@ + m@),
        }
    }
}

/// What a round of commits amounts to: success when every commit succeeded,
/// else one error listing every failure.
pub open spec fn commit_outcome(t: Seq<u32>, res: Seq<Result<(), String>>) -> Result<(), Seq<char>> {
    let f = failure_lines(t, res);
    if f.len() == 0 {
        Ok(())
    } else {
        Err("CTM commit failed for "@ + join(f, "; "@))
    }
}

/// Writes the CTM to every target, in order, even after a failure, and
/// reports every failure together.
pub fn apply_to_targets<F: Fn(u32) -> Result<(), String>>(targets: &Vec<u32>, set_target_ctm: F) -> (r:
    Result<(), BackendError>)
    requires
        forall|i: int| 0 <= i < targets@.len() ==> call_requires(set_target_ctm, (#[trigger] targets@[i],)),
    ensures
        exists|res: Seq<Result<(), String>>|
            #![trigger commit_outcome(targets@, res)]
            {
                &&& res.len() == targets@.len()
                &&& forall|i: int|
                    0 <= i < targets@.len() ==> call_ensures(set_target_ctm, (targets@[i],), #[trigger] res[i])
                &&& match commit_outcome(targets@, res) {
                    Ok(_) => r is Ok,
                    Err(m) => r matches Err(BackendError::Apply(x)) && x@ == m,
                }
            },
{
    let mut failures: Vec<String> = Vec::new();
    let ghost mut res: Seq<Result<(), String>> = Seq::empty();
    let mut i: usize = 0;
    while i < targets.len()
        invariant
            i <= targets@.len(),
            res.len() == i,
            forall|j: int| 0 <= j < targets@.len() ==> call_requires(set_target_ctm, (#[trigger] targets@[j],)),
            forall|j: int| 0 <= j < i ==> call_ensures(set_target_ctm, (targets@[j],), #[trigger] res[j]),
            views(failures@) == failure_lines(targets@.subrange(0, i as int), res),
        decreases targets@.len() - i,
    {
        let id = targets[i];
        let outcome = set_target_ctm(id);
        let ghost prev_res = res;
        proof {
            res = res.push(outcome);
        }
        let ghost t2 = targets@.subrange(0, i + 1);
        assert(t2.drop_last() =~= targets@.subrange(0, i as int));
        assert(res.drop_last() =~= prev_res);
        assert(t2.last() == id);
        match outcome {
            Ok(()) => {},
            Err(m) => {
                let digits = u64_to_decimal(id as u64);
                let mut line = concat("CRTC ", digits.as_str());
                line.append(": ");
                line.append(m.as_str());
                failures.push(line);
                assert(views(failures@) =~= failure_lines(targets@.subrange(0, i as int), prev_res).push(
                    "CRTC "@ + decimal(id as nat) + ": "@ + m@,
                ));
            },
        }
        i = i + 1;
    }
    assert(targets@.subrange(0, i as int) =~= targets@);
    let ghost outcome = commit_outcome(targets@, res);
    if failures.len() > 0 {
        let joined = join_strings(&failures, "; ");
        let msg = concat("CTM commit failed for ", joined.as_str());
        Err(BackendError::Apply(msg))
    } else {
        Ok(())
    }
}

/// The device node of DRM card `n`.
pub open spec fn card_node_text(n: u32) -> Seq<char> {
    "/dev/dri/card"@ + decimal(n as nat)
}

/// The device node of DRM card `n`: `/dev/dri/card<n>`.
pub fn card_node_path(n: u32) -> (r: String)
    ensures
        r@ == card_node_text(n),
{
    let digits = u64_to_decimal(n as u64);
    concat("/dev/dri/card", digits.as_str())
}

/// The `(id, name)` an output is listed with.
pub open spec fn output_view(o: Output) -> (Seq<char>, Seq<char>) {
    (o.id@, o.human_name@)
}

/// The `(id, name)` pairs of a list of outputs.
pub open spec fn outputs_view(s: Seq<Output>) -> Seq<(Seq<char>, Seq<char>)> {
    s.map_values(|o: Output| output_view(o))
}

/// How a CTM-capable CRTC is listed: its id in decimal, named `CRTC <id>`.
pub open spec fn crtc_listing(id: u32) -> (Seq<char>, Seq<char>) {
    (decimal(id as nat), "CRTC "@ + decimal(id as nat))
}

/// The listings of a card's CTM-capable CRTCs, in the order given.
pub open spec fn crtc_listings(ids: Seq<u32>) -> Seq<(Seq<char>, Seq<char>)> {
    ids.map_values(|x: u32| crtc_listing(x))
}

/// Outputs in order of the text of their ids.
pub open spec fn ids_sorted(s: Seq<Output>) -> bool {
    forall|a: int, b: int| 0 <= a < b < s.len() ==> !seq_lt(#[trigger] s[b].id@, #[trigger] s[a].id@)
}

/// Inserts `o` after every output whose id is not after its id.
fn insert_by_id(out: &mut Vec<Output>, o: Output) -> (k: usize)
    requires
        ids_sorted(old(out)@),
    ensures
        k <= old(out)@.len(),
        final(out)@ == old(out)@.insert(k as int, o),
        ids_sorted(final(out)@),
{
    let mut k: usize = 0;
    while k < out.len() && !str_lt(o.id.as_str(), out[k].id.as_str())
        invariant
            k <= out@.len(),
            forall|a: int| 0 <= a < k ==> !seq_lt(o.id@, #[trigger] out@[a].id@),
        decreases out@.len() - k,
    {
        k = k + 1;
    }
    let ghost before = out@;
    let ghost oid = o.id@;
    out.insert(k, o);
    assert forall|a: int, b: int| 0 <= a < b < out@.len() implies !seq_lt(#[trigger] out@[b].id@, #[trigger] out@[a].id@) by {
        if b < k {
            assert(!seq_lt(before[b].id@, before[a].id@));
        } else if b == k {
        } else if a < k {
            assert(out@[b] == before[b - 1]);
            assert(!seq_lt(before[b - 1].id@, before[a].id@));
        } else if a == k {
            assert(out@[b] == before[b - 1]);
            assert(seq_lt(oid, before[k as int].id@));
            if seq_lt(before[b - 1].id@, oid) {
                crate::text::lemma_seq_lt_transitive(before[b - 1].id@, oid, before[k as int].id@);
                if b - 1 > k {
                    assert(!seq_lt(before[b - 1].id@, before[k as int].id@));
                } else {
                    crate::text::lemma_seq_lt_strict_total(before[k as int].id@, before[k as int].id@);
                }
            }
        } else {
            assert(out@[a] == before[a - 1]);
            assert(out@[b] == before[b - 1]);
            assert(!seq_lt(before[b - 1].id@, before[a - 1].id@));
        }
    }
    k
}

/// The outputs of a card's CTM-capable CRTCs: one `CRTC <id>` output per id
/// (the same ids, as many times each), ordered by the text of their ids as
/// `String` orders them (`"10"` before `"9"`).
pub fn crtc_outputs(ids: &[u32]) -> (r: Vec<Output>)
    ensures
        ids_sorted(r@),
        outputs_view(r@).to_multiset() == crtc_listings(ids@).to_multiset(),
{
    let mut out: Vec<Output> = Vec::new();
    let mut i: usize = 0;
    assert(outputs_view(out@) =~= crtc_listings(ids@.subrange(0, 0)));
    while i < ids.len()
        invariant
            i <= ids@.len(),
            ids_sorted(out@),
            outputs_view(out@).to_multiset() == crtc_listings(ids@.subrange(0, i as int)).to_multiset(),
        decreases ids@.len() - i,
    {
        let x = ids[i];
        let digits = u64_to_decimal(x as u64);
        let name = concat("CRTC ", digits.as_str());
        let o = Output { id: digits, human_name: name };
        assert(output_view(o) == crtc_listing(x));
        let ghost before = out@;
        let k = insert_by_id(&mut out, o);
        assert(outputs_view(out@) =~= outputs_view(before).insert(k as int, output_view(o)));
        assert(crtc_listings(ids@.subrange(0, i + 1)) =~= crtc_listings(ids@.subrange(0, i as int)).push(
            crtc_listing(x),
        ));
        proof {
            vstd::seq_lib::to_multiset_insert(outputs_view(before), k as int, output_view(o));
            vstd::seq_lib::to_multiset_build(crtc_listings(ids@.subrange(0, i as int)), crtc_listing(x));
        }
        i = i + 1;
    }
    assert(ids@.subrange(0, i as int) =~= ids@);
    out
}

/// A card node that opened and whose CRTCs could be listed.
#[derive(Debug, Clone)]
pub struct CtmCard {
    pub path: String,
    /// How many of its CRTCs expose a `CTM` property.
    pub ctm_crtcs: usize,
}

/// The probe's line for a card.
pub open spec fn probe_line(c: CtmCard) -> Seq<char> {
    c.path@ + ": "@ + decimal(c.ctm_crtcs as nat) + " CTM-capable CRTC(s)"@
}

/// The probe report: a line for each card with at least one CTM-capable CRTC.
pub open spec fn probe_lines(cards: Seq<CtmCard>) -> Seq<Seq<char>>
    decreases cards.len(),
{
    if cards.len() == 0 {
        Seq::empty()
    } else if cards.last().ctm_crtcs > 0 {
        probe_lines(cards.drop_last()).push(probe_line(cards.last()))
    } else {
        probe_lines(cards.drop_last())
    }
}

/// The text of the probe's error when no card has a CTM-capable CRTC.
pub open spec fn probe_none_text() -> Seq<char> {
    "no CTM-capable DRM CRTCs found on this system"@
}

/// Read-only diagnostic report from the cards that could be opened and
/// queried: one line per card exposing a CTM property, or an error when none does.
pub fn probe_ctm(cards: &Vec<CtmCard>) -> (r: Result<Vec<String>, String>)
    ensures
        probe_lines(cards@).len() == 0 ==> (r matches Err(m) && m@ == probe_none_text()),
        probe_lines(cards@).len() > 0 ==> (r matches Ok(v) && views(v@) == probe_lines(cards@)),
{
    let mut report: Vec<String> = Vec::new();
    let mut i: usize = 0;
    while i < cards.len()
        invariant
            i <= cards@.len(),
            views(report@) == probe_lines(cards@.subrange(0, i as int)),
        decreases cards@.len() - i,
    {
        let c = &cards[i];
        assert(cards@.subrange(0, i + 1).drop_last() =~= cards@.subrange(0, i as int));
        if c.ctm_crtcs > 0 {
            let digits = u64_to_decimal(c.ctm_crtcs as u64);
            let mut line = concat(c.path.as_str(), ": ");
            line.append(digits.as_str());
            line.append(" CTM-capable CRTC(s)");
            report.push(line);
            assert(views(report@) =~= probe_lines(cards@.subrange(0, i as int)).push(probe_line(*c)));
        }
        i = i + 1;
    }
    assert(cards@.subrange(0, i as int) =~= cards@);
    if report.len() == 0 {
        return Err(owned("no CTM-capable DRM CRTCs found on this system"));
    }
    Ok(report)
}

/// How opening one card node went.
#[derive(Debug, Clone)]
pub enum CardOutcome {
    /// The node opened; this many CRTCs expose a CTM, and whether any of them
    /// currently drives a display.
    Opened { ctm_crtcs: usize, any_active: bool },
    /// The node could not be opened or set up.
    Failed(String),
}

/// The search for the card to drive: the first card with an active
/// CTM-capable CRTC wins at once; otherwise the first CTM-capable card.
#[derive(Debug, Clone)]
pub struct CardSearch {
    /// The first CTM-capable card seen that drives no display.
    pub fallback: Option<u32>,
    /// The most recent failure to open a card.
    pub last_error: Option<String>,
}

/// The text of the error when no card could be used and none failed.
pub open spec fn no_device_text() -> Seq<char> {
    "no CTM-capable DRM device found"@
}

impl CardSearch {
    /// Nothing seen yet.
    pub fn new() -> (s: CardSearch)
        ensures
            s.fallback is None,
            s.last_error is None,
    {
        CardSearch { fallback: None, last_error: None }
    }

    /// Takes in how card `card` opened. Returns whether to drive that card now.
    pub fn observe(&mut self, card: u32, outcome: CardOutcome) -> (use_now: bool)
        ensures
            use_now <==> (outcome matches CardOutcome::Opened { ctm_crtcs, any_active } && ctm_crtcs > 0
                && any_active),
            final(self).fallback == (if old(self).fallback is None && (outcome matches CardOutcome::Opened {
                ctm_crtcs,
                any_active,
            } && ctm_crtcs > 0 && !any_active) {
                Some(card)
            } else {
                old(self).fallback
            }),
            outcome matches CardOutcome::Failed(e) ==> final(self).last_error == Some(e),
            !(outcome is Failed) ==> final(self).last_error == old(self).last_error,
    {
        match outcome {
            CardOutcome::Opened { ctm_crtcs, any_active } => {
                if ctm_crtcs > 0 {
                    if any_active {
                        return true;
                    }
                    if self.fallback.is_none() {
                        self.fallback = Some(card);
                    }
                }
                false
            },
            CardOutcome::Failed(e) => {
                self.last_error = Some(e);
                false
            },
        }
    }

    /// After every card was seen without one to drive at once: the fallback
    /// card, else the last failure, else a plain "nothing found".
    pub fn finish(self) -> (r: Result<u32, String>)
        ensures
            self.fallback matches Some(c) ==> r == Ok::<u32, String>(c),
            self.fallback is None && self.last_error is Some ==> r == Err::<u32, String>(
                self.last_error->0,
            ),
            self.fallback is None && self.last_error is None ==> (r matches Err(m) && m@
                == no_device_text()),
    {
        match self.fallback {
            Some(c) => Ok(c),
            None => match self.last_error {
                Some(e) => Err(e),
                None => Err(owned("no CTM-capable DRM device found")),
            },
        }
    }
}

} // verus!
