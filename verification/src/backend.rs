//! What every backend shares: the outputs it acts on, the honest per-frame
//! cost it reports, and the errors it returns.

use vstd::prelude::*;

use crate::text::{concat, owned};

verus! {

/// A display output a backend can act on (CRTC / monitor / compositor screen).
#[derive(Debug, Clone)]
pub struct Output {
    /// Stable identifier in the backend's namespace (connector name, CRTC id...).
    pub id: String,
    pub human_name: String,
}

/// Honest per-frame cost of a backend, surfaced to the user instead of hidden.
#[derive(Debug, Clone, Copy, PartialEq, Eq, Structural)]
pub enum CostNote {
    /// Hardware scanout matrix: zero per-frame CPU and GPU.
    ZeroCost,
    /// One extra fullscreen GPU pass in the compositor; negligible CPU.
    CompositorShaderPass,
    /// Nested compositor: extra composite pass plus a little added latency.
    NestedCompositor,
}

/// Why a backend could not do what it was asked.
#[derive(Debug, Clone)]
pub enum BackendError {
    Unavailable(String),
    Apply(String),
}

/// The user-facing text of a backend error.
pub open spec fn backend_error_text(e: BackendError) -> Seq<char> {
    match e {
        BackendError::Unavailable(m) => "backend unavailable: "@ + m@,
        BackendError::Apply(m) => "failed to apply: "@ + m@,
    }
}

impl BackendError {
    /// The user-facing text of this error.
    pub fn to_string(&self) -> (r: String)
        ensures
            r@ == backend_error_text(*self),
    {
        match self {
            BackendError::Unavailable(m) => concat("backend unavailable: ", m.as_str()),
            BackendError::Apply(m) => concat("failed to apply: ", m.as_str()),
        }
    }
}

/// The id of the output that stands for every output at once.
pub open spec fn all_outputs_id() -> Seq<char> {
    "all"@
}

/// The single output Satur8 acts on until per-output targeting is used.
pub fn all_outputs() -> (o: Output)
    ensures
        o.id@ == all_outputs_id(),
        o.human_name@ == "All outputs"@,
{
    Output { id: owned("all"), human_name: owned("All outputs") }
}

/// The note printed after a backend name for its per-frame cost.
pub open spec fn cost_suffix_text(cost: CostNote) -> Seq<char> {
    match cost {
        CostNote::ZeroCost => " (zero per-frame cost)"@,
        CostNote::CompositorShaderPass => " (one compositor GPU pass)"@,
        CostNote::NestedCompositor => " (nested compositor: extra pass + latency)"@,
    }
}

/// The note printed after a backend name for its per-frame cost.
pub fn cost_suffix(cost: CostNote) -> (r: &'static str)
    ensures
        r@ == cost_suffix_text(cost),
{
    match cost {
        CostNote::ZeroCost => " (zero per-frame cost)",
        CostNote::CompositorShaderPass => " (one compositor GPU pass)",
        CostNote::NestedCompositor => " (nested compositor: extra pass + latency)",
    }
}

/// What to do with a backend's linear-light blending before applying.
#[derive(Debug, Clone, Copy, PartialEq, Eq, Structural)]
pub enum LinearLightStep {
    /// Turn it on (asked for, and the backend can); a failure aborts the apply.
    Enable,
    /// Turn it off (not asked for); a failure is ignored.
    Disable,
    /// Leave it (asked for, but the backend works in its native space).
    Leave,
}

/// The linear-light step before an apply, and whether linear light will be
/// in effect.
pub fn linear_light_step(linear: bool, supported: bool) -> (r: (LinearLightStep, bool))
    ensures
        r.1 == (linear && supported),
        r.0 == (if linear && supported {
            LinearLightStep::Enable
        } else if !linear {
            LinearLightStep::Disable
        } else {
            LinearLightStep::Leave
        }),
{
    let active = linear && supported;
    if active {
        (LinearLightStep::Enable, true)
    } else if !linear {
        (LinearLightStep::Disable, false)
    } else {
        (LinearLightStep::Leave, false)
    }
}

/// The note shown when `--linear` was asked of a backend that ignores it.
pub open spec fn linear_ignored_text(backend: Seq<char>) -> Seq<char> {
    "note: the "@ + backend + " backend works in its native color space and ignores --linear"@
}

/// The note shown when `--linear` was asked of a backend that ignores it.
pub fn linear_ignored_note(backend: &str) -> (r: String)
    ensures
        r@ == linear_ignored_text(backend@),
{
    let mut s = concat("note: the ", backend);
    s.append(" backend works in its native color space and ignores --linear");
    s
}

/// The error text for an output id the backend does not have.
pub open spec fn no_output_text(id: Seq<char>, backend: Seq<char>) -> Seq<char> {
    "no output '"@ + id + "' on the "@ + backend + " backend (see `satur8 outputs`)"@
}

/// The output a command acts on: the one with id `id` among the backend's
/// `outputs` (the first, should two share it), or every output when no id is
/// given. An unknown id is refused.
pub fn pick_output(outputs: &Vec<Output>, id: Option<&str>, backend: &str) -> (r: Result<Output, String>)
    ensures
        id is None ==> (r matches Ok(o) && o.id@ == all_outputs_id() && o.human_name@ == "All outputs"@),
        id matches Some(want) ==> {
            &&& r is Err <==> forall|k: int| 0 <= k < outputs@.len() ==> #[trigger] outputs@[k].id@ != want@
            &&& r matches Err(m) ==> m@ == no_output_text(want@, backend@)
            &&& r matches Ok(o) ==> exists|k: int|
                0 <= k < outputs@.len() && #[trigger] outputs@[k].id@ == want@ && o.id@ == want@
                    && o.human_name@ == outputs@[k].human_name@ && forall|j: int|
                    0 <= j < k ==> #[trigger] outputs@[j].id@ != want@
        },
{
    match id {
        None => Ok(all_outputs()),
        Some(want) => {
            let mut k: usize = 0;
            while k < outputs.len()
                invariant
                    id == Some(want),
                    k <= outputs@.len(),
                    forall|j: int| 0 <= j < k ==> #[trigger] outputs@[j].id@ != want@,
                decreases outputs@.len() - k,
            {
                if crate::text::str_eq(outputs[k].id.as_str(), want) {
                    return Ok(
                        Output {
                            id: crate::text::copy_string(&outputs[k].id),
                            human_name: crate::text::copy_string(&outputs[k].human_name),
                        },
                    );
                }
                k = k + 1;
            }
            let mut m = concat("no output '", want);
            m.append("' on the ");
            m.append(backend);
            m.append(" backend (see `satur8 outputs`)");
            Err(m)
        },
    }
}

} // verus!
