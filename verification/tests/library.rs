use solar_system::controls::{
    is_reset_text, key_command, Action, Controls, Event, FramePlan, IdleAction, Key, KeyCommand,
};
use solar_system::frame::{AcquireAction, AcquireOutcome, FrameState, PresentAction, PresentOutcome};
use solar_system::ppm::{encode_ppm, ppm_header_bytes, push_decimal};
use solar_system::quad::{fill_body_vertices, quad_corner, trail_strip_range, QUAD_VERTICES};
use solar_system::stepping::{substep_count, MAX_SUBSTEPS};
use solar_system::trails::{Trails, TRAIL_LEN};

// ---------------------------------------------------------------- trails

#[test]
fn new_trails_are_empty() {
    let t: Trails<u32> = Trails::new();
    assert_eq!(t.len(), 0);
    assert!(t.flatten(|v: u32, _r: usize, _n: usize| v).is_empty());
}

#[test]
fn reset_fills_each_trail_with_its_start() {
    let mut t: Trails<u32> = Trails::new();
    t.reset(&[10, 20, 30]);
    assert_eq!(t.len(), 3);
    let flat = t.flatten(|v: u32, _r: usize, _n: usize| v);
    assert_eq!(flat.len(), 3 * TRAIL_LEN);
    for i in 0..3 {
        for k in 0..TRAIL_LEN {
            assert_eq!(flat[i * TRAIL_LEN + k], 10 * (i as u32 + 1));
        }
    }
}

#[test]
fn sample_skips_star_and_not_due() {
    let mut t: Trails<u32> = Trails::new();
    t.reset(&[0, 1, 2]);
    let recorded = t.sample(&[true, false, true], &[100, 101, 102]);
    assert_eq!(recorded, vec![2]);
    let flat = t.flatten(|v: u32, _r: usize, _n: usize| v);
    // star trail untouched
    assert!(flat[0..TRAIL_LEN].iter().all(|&v| v == 0));
    // body 1 not due: untouched
    assert!(flat[TRAIL_LEN..2 * TRAIL_LEN].iter().all(|&v| v == 1));
    // body 2: newest first is the fresh sample, then the old ones
    assert_eq!(flat[2 * TRAIL_LEN], 102);
    assert!(flat[2 * TRAIL_LEN + 1..3 * TRAIL_LEN].iter().all(|&v| v == 2));
}

#[test]
fn full_trail_slides_by_one() {
    let mut t: Trails<u32> = Trails::new();
    t.reset(&[0, 0]);
    for s in 1..=(TRAIL_LEN as u32 + 5) {
        let rec = t.sample(&[true, true], &[0, s]);
        assert_eq!(rec, vec![1]);
    }
    let flat = t.flatten(|v: u32, _r: usize, _n: usize| v);
    assert_eq!(flat.len(), 2 * TRAIL_LEN);
    // newest first: 705, 704, ..., 6
    for k in 0..TRAIL_LEN {
        assert_eq!(flat[TRAIL_LEN + k], TRAIL_LEN as u32 + 5 - k as u32);
    }
}

#[test]
fn sample_limited_by_fresh_and_trails() {
    let mut t: Trails<u32> = Trails::new();
    t.reset(&[0, 1, 2, 3]);
    // only two fresh samples: body 2 and 3 cannot record
    let rec = t.sample(&[true, true], &[9, 9]);
    assert_eq!(rec, vec![1]);
    // more fresh samples than trails
    let mut u: Trails<u32> = Trails::new();
    u.reset(&[0, 1]);
    let rec = u.sample(&[true, true, true, true], &[5, 6, 7, 8]);
    assert_eq!(rec, vec![1]);
    assert_eq!(u.len(), 2);
}

#[test]
fn sample_on_empty_trails_records_nothing() {
    let mut t: Trails<u32> = Trails::new();
    let rec = t.sample(&[true, true, true], &[1, 2, 3]);
    assert!(rec.is_empty());
    assert_eq!(t.len(), 0);
}

#[test]
fn flatten_passes_rank_and_length_to_fade() {
    let mut t: Trails<u32> = Trails::new();
    t.reset(&[7]);
    let flat = t.flatten(|v: u32, r: usize, n: usize| v * 1_000_000 + (r as u32) * 1000 + n as u32);
    assert_eq!(flat[0], 7_000_000 + 1000 + 700);
    assert_eq!(flat[TRAIL_LEN - 1], 7_000_000 + 700 * 1000 + 700);
    // alpha as the viewer computes it: 0.65 * rank / n
    let alphas = t.flatten(|_v: u32, r: usize, n: usize| ((0.65f64 * r as f64 / n as f64) * 1e6) as u32);
    assert_eq!(alphas[0], 928);
    assert_eq!(alphas[TRAIL_LEN - 1], 650_000);
}

// ---------------------------------------------------------------- quads

#[derive(Clone, Copy, Debug, PartialEq)]
struct Sprite {
    body: usize,
    corner: (i8, i8),
    glow: bool,
}

#[test]
fn quad_corners_are_two_triangles() {
    let corners: Vec<(i8, i8)> = (0..QUAD_VERTICES).map(quad_corner).collect();
    assert_eq!(
        corners,
        vec![(-1, -1), (1, -1), (1, 1), (-1, -1), (1, 1), (-1, 1)]
    );
}

#[test]
fn body_vertices_six_per_body_glow_on_star() {
    let mut out: Vec<Sprite> = vec![Sprite { body: 99, corner: (0, 0), glow: true }];
    fill_body_vertices(9, |body, corner, glow| Sprite { body, corner, glow }, &mut out);
    assert_eq!(out.len(), 54);
    for (v, s) in out.iter().enumerate() {
        assert_eq!(s.body, v / 6);
        assert_eq!(s.corner, quad_corner(v % 6));
        assert_eq!(s.glow, v < 6);
    }
}

#[test]
fn body_vertices_of_no_bodies() {
    let mut out: Vec<Sprite> = vec![Sprite { body: 1, corner: (1, 1), glow: false }];
    fill_body_vertices(0, |body, corner, glow| Sprite { body, corner, glow }, &mut out);
    assert!(out.is_empty());
}

#[test]
fn strip_ranges_tile_buffer() {
    assert_eq!(trail_strip_range(0), (0, 700));
    assert_eq!(trail_strip_range(1), (700, 1400));
    assert_eq!(trail_strip_range(8), (5600, 6300));
    for i in 0..8u64 {
        assert_eq!(trail_strip_range(i).1, trail_strip_range(i + 1).0);
    }
}

// ---------------------------------------------------------------- stepping

#[test]
fn substeps_are_clamped() {
    assert_eq!(substep_count(0), 1);
    assert_eq!(substep_count(1), 1);
    assert_eq!(substep_count(5), 5);
    assert_eq!(substep_count(20000), 20000);
    assert_eq!(substep_count(20001), MAX_SUBSTEPS);
    assert_eq!(substep_count(usize::MAX), 20000);
}

// ---------------------------------------------------------------- controls

fn key(k: Key, pressed: bool) -> Event {
    Event::Key { key: k, pressed }
}

#[test]
fn reset_text_ignores_ascii_case() {
    assert!(is_reset_text("r"));
    assert!(is_reset_text("R"));
    assert!(!is_reset_text(""));
    assert!(!is_reset_text("rr"));
    assert!(!is_reset_text("x"));
    assert!(!is_reset_text("ř"));
}

#[test]
fn key_commands() {
    assert_eq!(key_command(&Key::Space, true), KeyCommand::TogglePause);
    assert_eq!(key_command(&Key::ArrowUp, true), KeyCommand::SpeedUp);
    assert_eq!(key_command(&Key::ArrowDown, true), KeyCommand::SpeedDown);
    assert_eq!(key_command(&Key::Escape, true), KeyCommand::Exit);
    assert_eq!(key_command(&Key::Character("R".to_string()), true), KeyCommand::Reset);
    assert_eq!(key_command(&Key::Character("q".to_string()), true), KeyCommand::Nothing);
    assert_eq!(key_command(&Key::Other, true), KeyCommand::Nothing);
    assert_eq!(key_command(&Key::Escape, false), KeyCommand::Nothing);
    assert_eq!(key_command(&Key::Space, false), KeyCommand::Nothing);
}

#[test]
fn released_keys_do_nothing() {
    let mut c = Controls::new();
    let before = c;
    for k in [Key::Space, Key::ArrowUp, Key::Escape, Key::Character("r".to_string())] {
        assert_eq!(c.on_event(&key(k, false), true), Action::Nothing);
    }
    assert_eq!(c, before);
}

#[test]
fn space_twice_restores_pause() {
    let mut c = Controls::new();
    assert!(!c.paused);
    assert_eq!(c.on_event(&key(Key::Space, true), true), Action::PauseToggled);
    assert!(c.paused);
    assert_eq!(c.plan_frame(true, 1280, 800), FramePlan::Draw { advance: false });
    assert_eq!(c.on_event(&key(Key::Space, true), true), Action::PauseToggled);
    assert_eq!(c, Controls::new());
    assert_eq!(c.plan_frame(true, 1280, 800), FramePlan::Draw { advance: true });
}

#[test]
fn reset_and_speed_keep_pause() {
    let mut c = Controls::new();
    c.on_event(&key(Key::Space, true), true);
    assert_eq!(c.on_event(&key(Key::Character("r".to_string()), true), true), Action::Reset);
    assert_eq!(c.on_event(&key(Key::ArrowUp, true), true), Action::SpeedUp);
    assert_eq!(c.on_event(&key(Key::ArrowDown, true), true), Action::SpeedDown);
    assert!(c.paused);
}

#[test]
fn exit_requests() {
    let mut c = Controls::new();
    assert_eq!(c.on_event(&key(Key::Escape, true), true), Action::Exit);
    assert_eq!(c.on_event(&Event::CloseRequested, false), Action::Exit);
    assert_eq!(c, Controls::new());
}

#[test]
fn drag_pans_after_first_move() {
    let mut c = Controls::new();
    // moving without the button: just tracks the cursor
    assert_eq!(c.on_event(&Event::CursorMoved, true), Action::Nothing);
    assert!(c.has_cursor);
    assert_eq!(c.on_event(&Event::MouseButton { left: true, pressed: true }, true), Action::Nothing);
    assert!(c.dragging);
    assert_eq!(c.on_event(&Event::CursorMoved, true), Action::Pan);
    // the right button does not stop the drag
    c.on_event(&Event::MouseButton { left: false, pressed: false }, true);
    assert_eq!(c.on_event(&Event::CursorMoved, true), Action::Pan);
    c.on_event(&Event::MouseButton { left: true, pressed: false }, true);
    assert_eq!(c.on_event(&Event::CursorMoved, true), Action::Nothing);
}

#[test]
fn drag_without_known_cursor_does_not_pan() {
    let mut c = Controls::new();
    c.on_event(&Event::MouseButton { left: true, pressed: true }, true);
    assert_eq!(c.on_event(&Event::CursorMoved, true), Action::Nothing);
    assert_eq!(c.on_event(&Event::CursorMoved, true), Action::Pan);
}

#[test]
fn wheel_zooms_only_with_cursor_and_window() {
    let mut c = Controls::new();
    assert_eq!(c.on_event(&Event::Wheel { usable: true }, true), Action::Nothing);
    c.on_event(&Event::CursorMoved, true);
    assert_eq!(c.on_event(&Event::Wheel { usable: true }, true), Action::Zoom);
    assert_eq!(c.on_event(&Event::Wheel { usable: false }, true), Action::Nothing);
    assert_eq!(c.on_event(&Event::Wheel { usable: true }, false), Action::Nothing);
}

#[test]
fn resize_and_redraw() {
    let mut c = Controls::new();
    assert_eq!(c.on_event(&Event::Resized, true), Action::InvalidateSwapchain);
    assert_eq!(c.on_event(&Event::Resized, false), Action::Nothing);
    assert_eq!(c.on_event(&Event::RedrawRequested, false), Action::Redraw);
    assert_eq!(c.on_event(&Event::Other, true), Action::Nothing);
}

#[test]
fn dump_happens_once() {
    let mut c = Controls::new();
    assert_eq!(c.on_idle(false, false), IdleAction::Nothing);
    assert_eq!(c.on_idle(false, true), IdleAction::RequestRedraw);
    assert_eq!(c.on_idle(true, true), IdleAction::DumpFrameAndExit);
    assert!(c.dump_done);
    assert_eq!(c.on_idle(true, true), IdleAction::RequestRedraw);
    assert_eq!(c.on_idle(true, false), IdleAction::Nothing);
}

#[test]
fn frame_plan_skips_empty_windows() {
    let c = Controls::new();
    assert_eq!(c.plan_frame(false, 1280, 800), FramePlan::Skip);
    assert_eq!(c.plan_frame(true, 0, 800), FramePlan::Skip);
    assert_eq!(c.plan_frame(true, 1280, 0), FramePlan::Skip);
    assert_eq!(c.plan_frame(true, 1, 1), FramePlan::Draw { advance: true });
}

// ---------------------------------------------------------------- frame

#[test]
fn swapchain_recovery() {
    let mut f = FrameState::new();
    assert!(!f.needs_rebuild());
    assert_eq!(f.on_acquire(AcquireOutcome::Acquired { suboptimal: false }), AcquireAction::Render);
    assert!(!f.needs_rebuild());
    assert_eq!(f.on_present(PresentOutcome::Presented), PresentAction::KeepFuture);
    assert_eq!(f.on_present(PresentOutcome::Failed), PresentAction::ReportAndRestart);
    assert!(!f.needs_rebuild());
    assert_eq!(f.on_acquire(AcquireOutcome::Acquired { suboptimal: true }), AcquireAction::Render);
    assert!(f.needs_rebuild());
    f.rebuilt();
    assert!(!f.needs_rebuild());
    assert_eq!(f.on_acquire(AcquireOutcome::OutOfDate), AcquireAction::Abandon);
    assert!(f.needs_rebuild());
    // stays stale through a clean frame
    f.on_acquire(AcquireOutcome::Acquired { suboptimal: false });
    f.on_present(PresentOutcome::Presented);
    assert!(f.needs_rebuild());
    f.rebuilt();
    assert_eq!(f.on_present(PresentOutcome::OutOfDate), PresentAction::RestartFuture);
    assert!(f.needs_rebuild());
    f.rebuilt();
    f.invalidate();
    assert!(f.needs_rebuild());
}

// ---------------------------------------------------------------- ppm

#[test]
fn decimal_matches_std_formatting() {
    for n in [0u32, 7, 9, 10, 99, 100, 800, 1280, 65535, 1_000_000, u32::MAX] {
        let mut out = b"x".to_vec();
        push_decimal(&mut out, n);
        assert_eq!(out, format!("x{}", n).into_bytes());
    }
}

#[test]
fn header_matches_format() {
    assert_eq!(ppm_header_bytes(1280, 800), b"P6\n1280 800\n255\n".to_vec());
    assert_eq!(ppm_header_bytes(0, 0), b"P6\n0 0\n255\n".to_vec());
}

#[test]
fn encode_rgba_and_bgra() {
    let data = [1u8, 2, 3, 4, 5, 6, 7, 8];
    let rgba = encode_ppm(2, 1, &data, false);
    let bgra = encode_ppm(2, 1, &data, true);
    let mut want = b"P6\n2 1\n255\n".to_vec();
    want.extend_from_slice(&[1, 2, 3, 5, 6, 7]);
    assert_eq!(rgba, want);
    let mut want = b"P6\n2 1\n255\n".to_vec();
    want.extend_from_slice(&[3, 2, 1, 7, 6, 5]);
    assert_eq!(bgra, want);
}

#[test]
fn encode_ignores_partial_pixel() {
    let out = encode_ppm(1, 1, &[9, 8, 7, 6, 5, 4], false);
    let mut want = b"P6\n1 1\n255\n".to_vec();
    want.extend_from_slice(&[9, 8, 7]);
    assert_eq!(out, want);
}

#[test]
fn dump_frame_has_every_pixel() {
    let (w, h) = (1280u32, 800u32);
    let data: Vec<u8> = (0..(w * h * 4)).map(|i| (i % 251) as u8).collect();
    let out = encode_ppm(w, h, &data, true);
    let header = b"P6\n1280 800\n255\n".len();
    assert_eq!(out.len(), header + 3 * 1_024_000);
    let p = 777_777usize;
    assert_eq!(out[header + 3 * p], data[4 * p + 2]);
    assert_eq!(out[header + 3 * p + 1], data[4 * p + 1]);
    assert_eq!(out[header + 3 * p + 2], data[4 * p]);
}

// ---------------------------------------------------------------- device

use solar_system::device::{
    choose_device, first_usable_family, needs_dynamic_rendering_extension, rank_of, DeviceInfo,
    DeviceKind,
};

fn dev(api: (u32, u32, u32), dynr: bool, swap: bool, kind: DeviceKind, fams: &[bool]) -> DeviceInfo {
    DeviceInfo {
        api_version: api,
        dynamic_rendering: dynr,
        swapchain: swap,
        kind,
        family_usable: fams.to_vec(),
    }
}

#[test]
fn device_kind_ranks() {
    assert_eq!(rank_of(DeviceKind::DiscreteGpu), 0);
    assert_eq!(rank_of(DeviceKind::IntegratedGpu), 1);
    assert_eq!(rank_of(DeviceKind::VirtualGpu), 2);
    assert_eq!(rank_of(DeviceKind::Cpu), 3);
    assert_eq!(rank_of(DeviceKind::Other), 4);
    assert_eq!(rank_of(DeviceKind::Unknown), 5);
}

#[test]
fn discrete_gpu_preferred() {
    let devices = vec![
        dev((1, 3, 0), false, true, DeviceKind::IntegratedGpu, &[true]),
        dev((1, 2, 0), true, true, DeviceKind::DiscreteGpu, &[false, false, true, true]),
        dev((1, 3, 0), false, true, DeviceKind::DiscreteGpu, &[true]),
    ];
    assert_eq!(choose_device(&devices), Some((1, 2)));
}

#[test]
fn ineligible_devices_skipped() {
    let devices = vec![
        // too old, no dynamic rendering
        dev((1, 2, 9), false, true, DeviceKind::DiscreteGpu, &[true]),
        // no swapchain
        dev((1, 3, 0), false, false, DeviceKind::DiscreteGpu, &[true]),
        // no family that can draw and present
        dev((2, 0, 0), false, true, DeviceKind::DiscreteGpu, &[false, false]),
        dev((1, 4, 0), false, true, DeviceKind::Cpu, &[false, true]),
    ];
    assert_eq!(choose_device(&devices), Some((3, 1)));
}

#[test]
fn first_of_best_kind_wins() {
    let devices = vec![
        dev((1, 3, 0), false, true, DeviceKind::Unknown, &[true]),
        dev((1, 3, 0), false, true, DeviceKind::VirtualGpu, &[true]),
        dev((1, 3, 0), false, true, DeviceKind::VirtualGpu, &[true]),
        dev((1, 3, 0), false, true, DeviceKind::Other, &[true]),
    ];
    assert_eq!(choose_device(&devices), Some((1, 0)));
}

#[test]
fn no_suitable_device() {
    assert_eq!(choose_device(&Vec::new()), None);
    let devices = vec![dev((1, 1, 0), false, true, DeviceKind::DiscreteGpu, &[true])];
    assert_eq!(choose_device(&devices), None);
}

#[test]
fn first_usable_family_index() {
    assert_eq!(first_usable_family(&vec![]), None);
    assert_eq!(first_usable_family(&vec![false, false]), None);
    assert_eq!(first_usable_family(&vec![false, true, true]), Some(1));
}

#[test]
fn dynamic_rendering_extension_below_1_3() {
    assert!(needs_dynamic_rendering_extension((1, 2, 999)));
    assert!(needs_dynamic_rendering_extension((0, 9, 0)));
    assert!(!needs_dynamic_rendering_extension((1, 3, 0)));
    assert!(!needs_dynamic_rendering_extension((1, 4, 0)));
    assert!(!needs_dynamic_rendering_extension((2, 0, 0)));
}

#[test]
fn flatten_twice_agrees() {
    let mut t: Trails<u32> = Trails::new();
    t.reset(&[3, 4]);
    t.sample(&[true, true], &[8, 9]);
    let fade = |v: u32, r: usize, n: usize| v * 10_000 + (r * 10 + n) as u32;
    assert_eq!(t.flatten(fade), t.flatten(fade));
    assert_eq!(t.len(), 2);
}
