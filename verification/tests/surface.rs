//! Decisions of the drawing surface.

use shelvd::surface::{buffer_capacity, pick_format, surface_step, SurfaceStatus, SurfaceStep};

#[test]
fn a_stale_surface_is_configured_once() {
    assert_eq!(surface_step(SurfaceStatus::Ready, false), SurfaceStep::Draw);
    assert_eq!(surface_step(SurfaceStatus::Transient, false), SurfaceStep::Skip);
    assert_eq!(surface_step(SurfaceStatus::Stale, false), SurfaceStep::Reconfigure);
    assert_eq!(surface_step(SurfaceStatus::Stale, true), SurfaceStep::Skip);
    assert_eq!(surface_step(SurfaceStatus::Invalid, false), SurfaceStep::Fail);
    assert_eq!(surface_step(SurfaceStatus::Invalid, true), SurfaceStep::Skip);
}

#[test]
fn the_first_srgb_format_is_picked() {
    assert_eq!(pick_format(&[false, true, true]), 1);
    assert_eq!(pick_format(&[false, false]), 0);
    assert_eq!(pick_format(&[]), 0);
}

#[test]
fn buffers_grow_to_a_power_of_two() {
    assert_eq!(buffer_capacity(100, 100), 100);
    assert_eq!(buffer_capacity(100, 101), 128);
    assert_eq!(buffer_capacity(0, 1), 1);
    assert_eq!(buffer_capacity(4, 1 << 40), 1 << 40);
    assert_eq!(buffer_capacity(4, (1 << 40) + 1), 1 << 41);
}
