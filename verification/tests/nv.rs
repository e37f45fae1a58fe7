use satur8::backend::CostNote;
use satur8::env::{Desktop, Environment, Gpu, SessionType};
use satur8::nv::{clamp_digital_vibrance, vibrance_attribute, NvControlBackend, DV_MAX, DV_MIN};

#[test]
fn digital_vibrance_is_clamped_to_the_driver_range() {
    assert_eq!(clamp_digital_vibrance(0), 0);
    assert_eq!(clamp_digital_vibrance(5000), DV_MAX);
    assert_eq!(clamp_digital_vibrance(-5000), DV_MIN);
    assert_eq!(clamp_digital_vibrance(-1024), -1024);
}

#[test]
fn vibrance_attribute_text() {
    assert_eq!(vibrance_attribute(512), "[gpu:0]/DigitalVibrance=512");
    assert_eq!(vibrance_attribute(-1024), "[gpu:0]/DigitalVibrance=-1024");
    assert_eq!(vibrance_attribute(0), "[gpu:0]/DigitalVibrance=0");
}

#[test]
fn nv_control_only_on_x11_with_the_proprietary_driver() {
    let x11 = Environment { session: SessionType::X11, desktop: Desktop::Kde, gpu: Gpu::Nvidia };
    assert!(NvControlBackend::detect(x11, true).is_some());
    assert!(NvControlBackend::detect(x11, false).is_none());
    let wl = Environment { session: SessionType::Wayland, ..x11 };
    assert!(NvControlBackend::detect(wl, true).is_none());
    let b = NvControlBackend;
    assert_eq!(b.name(), "nv-control");
    assert_eq!(b.cost(), CostNote::ZeroCost);
    let outs = b.outputs();
    assert_eq!(outs.len(), 1);
    assert_eq!(outs[0].id, "gpu:0");
}
