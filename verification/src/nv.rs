//! NVIDIA X11 backend: the driver's native Digital Vibrance, driven through
//! `nvidia-settings -a "[gpu:0]/DigitalVibrance=N"` with N in -1024..=1023
//! (0 = neutral). The command itself is run by the caller.

use vstd::prelude::*;

use crate::backend::{CostNote, Output};
use crate::env::{Environment, Gpu, SessionType};
use crate::text::{concat, i32_to_decimal, owned, signed_decimal};

verus! {

/// The lowest Digital Vibrance value (full desaturation).
pub const DV_MIN: i32 = -1024;

/// The highest Digital Vibrance value.
pub const DV_MAX: i32 = 1023;

/// Keeps a Digital Vibrance value inside the driver's range.
pub fn clamp_digital_vibrance(dv: i32) -> (r: i32)
    ensures
        DV_MIN <= r <= DV_MAX,
        DV_MIN <= dv <= DV_MAX ==> r == dv,
        dv < DV_MIN ==> r == DV_MIN,
        dv > DV_MAX ==> r == DV_MAX,
{
    if dv < DV_MIN {
        DV_MIN
    } else if dv > DV_MAX {
        DV_MAX
    } else {
        dv
    }
}

/// The `nvidia-settings` attribute assignment for a Digital Vibrance value.
pub open spec fn vibrance_assignment(dv: i32) -> Seq<char> {
    "[gpu:0]/DigitalVibrance="@ + signed_decimal(dv as int)
}

/// The argument of `nvidia-settings -a` that sets Digital Vibrance on the
/// displays of GPU 0.
pub fn vibrance_attribute(dv: i32) -> (r: String)
    ensures
        r@ == vibrance_assignment(dv),
{
    let n = i32_to_decimal(dv);
    concat("[gpu:0]/DigitalVibrance=", n.as_str())
}

/// The NV-CONTROL backend. It holds no state: every call runs `nvidia-settings`.
#[derive(Debug, Clone, Copy)]
pub struct NvControlBackend;

/// Where this backend can work: an X11 session on the proprietary driver.
pub open spec fn nv_control_session(env: Environment) -> bool {
    env.session == SessionType::X11 && env.gpu == Gpu::Nvidia
}

impl NvControlBackend {
    /// Claims the backend on X11 with the proprietary NVIDIA driver, when
    /// `nvidia-settings` was found on the `PATH`.
    pub fn detect(env: Environment, nvidia_settings_on_path: bool) -> (r: Option<NvControlBackend>)
        ensures
            r is Some <==> nv_control_session(env) && nvidia_settings_on_path,
    {
        if env.session != SessionType::X11 || env.gpu != Gpu::Nvidia {
            return None;
        }
        if nvidia_settings_on_path {
            Some(NvControlBackend)
        } else {
            None
        }
    }

    /// The backend's name.
    pub fn name(&self) -> (r: &'static str)
        ensures
            r@ == "nv-control"@,
    {
        "nv-control"
    }

    /// The driver applies the value in the display pipeline: no per-frame cost.
    pub fn cost(&self) -> (r: CostNote)
        ensures
            r == CostNote::ZeroCost,
    {
        CostNote::ZeroCost
    }

    /// The single target: every display of GPU 0.
    pub fn outputs(&self) -> (r: Vec<Output>)
        ensures
            r@.len() == 1,
            r@[0].id@ == "gpu:0"@,
            r@[0].human_name@ == "NVIDIA GPU 0 displays"@,
    {
        let mut v: Vec<Output> = Vec::new();
        v.push(Output { id: owned("gpu:0"), human_name: owned("NVIDIA GPU 0 displays") });
        v
    }
}

} // verus!
