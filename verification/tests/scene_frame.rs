use wreckage::constants::{RendererConstants, RAW_CAMERA_BYTES};
use wreckage::device::{pick_device, pick_queue_family, rank, DeviceClass, QueueFlags};
use wreckage::frame::{FrameAction, FrameClock, FrameDriver, FrameEvent, FrameStage};
use wreckage::math::Vec3;
use wreckage::resources::{descriptor_bindings, dispatch_size, DescriptorKind};
use wreckage::sphere::{SceneBuffer, Sphere, SPHERE_STRIDE};

fn v(x: i64, y: i64, z: i64) -> Vec3 {
    Vec3 { x, y, z }
}

#[test]
fn empty_scenes_are_refused() {
    assert!(SceneBuffer::new(Vec::new()).is_none());
}

#[test]
fn scene_encoding_is_tightly_packed() {
    let spheres = vec![
        Sphere::new(v(1_000_000, 0, -1_000_000), 200_000),
        Sphere::new(v(0, 0, -1_000_000), 500_000),
    ];
    let scene = SceneBuffer::new(spheres).unwrap();
    assert_eq!(scene.len(), 2);
    let enc = scene.encode();
    assert_eq!(enc.len(), SPHERE_STRIDE * 2);
    assert_eq!(enc, vec![1_000_000, 0, -1_000_000, 200_000, 0, 0, -1_000_000, 500_000]);
}

#[test]
fn sphere_raw_matches_its_fields() {
    let s = Sphere::new(v(1, 2, 3), 4);
    let raw = s.raw();
    assert_eq!(raw.pos, [1, 2, 3]);
    assert_eq!(raw.radius, 4);
}

#[test]
fn sphere_bounds_enclose_it() {
    let s = Sphere::new(v(1_000_000, 2_000_000, -3_000_000), 500_000);
    let (hi, lo) = s.bounds();
    assert_eq!(hi, v(1_500_000, 2_500_000, -2_500_000));
    assert_eq!(lo, v(500_000, 1_500_000, -3_500_000));
}

#[test]
fn constants_reject_bad_viewports_and_depth_ranges() {
    assert!(RendererConstants::new(0, 600, 0, 12_000_000).is_none());
    assert!(RendererConstants::new(800, 0, 0, 12_000_000).is_none());
    assert!(RendererConstants::new(8192, 600, 0, 12_000_000).is_none());
    assert!(RendererConstants::new(800, 600, 5, 5).is_none());
    assert!(RendererConstants::new(800, 600, -1, 12_000_000).is_none());
    assert!(RendererConstants::new(100, 4096, 0, 12_000_000).is_none());
}

#[test]
fn constants_derive_the_aspect_ratio() {
    let c = RendererConstants::new(800, 600, 0, 12_000_000).unwrap();
    assert_eq!(c.aspect_ratio, 1_333_333);
    assert_eq!((c.width, c.height), (800, 600));
    assert_eq!((c.min_depth, c.max_depth), (0, 12_000_000));
}

#[test]
fn specialization_layout_is_contiguous() {
    let d = RendererConstants::descriptors();
    assert_eq!(d.len(), 5);
    for (i, e) in d.iter().enumerate() {
        assert_eq!(e.constant_id, i as u32);
        assert_eq!(e.offset, 4 * i as u32);
        assert_eq!(e.size, 4);
    }
    assert_eq!(RAW_CAMERA_BYTES, 80);
}

#[test]
fn one_frame_walks_the_whole_protocol() {
    let mut d = FrameDriver::new(3);
    assert_eq!(d.step(FrameEvent::Tick), FrameAction::Acquire);
    assert_eq!(
        d.step(FrameEvent::AcquireOk { image_index: 1, suboptimal: false }),
        FrameAction::SubmitAndPresent { image_index: 1 }
    );
    assert_eq!(d.step(FrameEvent::SubmitFlushed { ok: true }), FrameAction::WaitFence);
    assert_eq!(d.step(FrameEvent::FenceDone { ok: true }), FrameAction::Stand);
    assert_eq!(d.stage, FrameStage::Idle);
}

#[test]
fn suboptimal_images_are_accepted() {
    let mut d = FrameDriver::new(2);
    d.step(FrameEvent::Tick);
    assert_eq!(
        d.step(FrameEvent::AcquireOk { image_index: 0, suboptimal: true }),
        FrameAction::SubmitAndPresent { image_index: 0 }
    );
}

#[test]
fn failed_flush_drops_the_frame_and_continues() {
    let mut d = FrameDriver::new(2);
    d.step(FrameEvent::Tick);
    d.step(FrameEvent::AcquireOk { image_index: 0, suboptimal: false });
    assert_eq!(d.step(FrameEvent::SubmitFlushed { ok: false }), FrameAction::DropFrame);
    assert_eq!(d.stage, FrameStage::Idle);
    assert_eq!(d.step(FrameEvent::Tick), FrameAction::Acquire);
}

#[test]
fn failed_fence_still_completes_the_frame() {
    let mut d = FrameDriver::new(2);
    d.step(FrameEvent::Tick);
    d.step(FrameEvent::AcquireOk { image_index: 1, suboptimal: false });
    d.step(FrameEvent::SubmitFlushed { ok: true });
    assert_eq!(d.step(FrameEvent::FenceDone { ok: false }), FrameAction::Stand);
    assert_eq!(d.stage, FrameStage::Idle);
}

#[test]
fn lost_swapchain_is_fatal() {
    let mut d = FrameDriver::new(2);
    d.step(FrameEvent::Tick);
    assert_eq!(d.step(FrameEvent::AcquireFailed), FrameAction::Exit);
    assert_eq!(d.stage, FrameStage::Exited);
}

#[test]
fn close_waits_for_the_frame_in_flight() {
    let mut d = FrameDriver::new(2);
    d.step(FrameEvent::Tick);
    d.step(FrameEvent::AcquireOk { image_index: 0, suboptimal: false });
    d.step(FrameEvent::SubmitFlushed { ok: true });
    assert_eq!(d.step(FrameEvent::CloseRequested), FrameAction::Stand);
    assert_eq!(d.stage, FrameStage::InFlight { image_index: 0 });
    assert_eq!(d.step(FrameEvent::FenceDone { ok: true }), FrameAction::Exit);
    assert_eq!(d.stage, FrameStage::Exited);
}

#[test]
fn close_when_idle_exits_at_once() {
    let mut d = FrameDriver::new(2);
    assert_eq!(d.step(FrameEvent::CloseRequested), FrameAction::Exit);
    assert_eq!(d.stage, FrameStage::Exited);
}

#[test]
fn clock_reports_deltas_and_frame_counts() {
    let mut clock = FrameClock::new(1_000_000);
    let (dt, fps) = clock.tick(1_250_000);
    assert_eq!(dt, 250_000);
    assert_eq!(fps, None);
    let (dt, fps) = clock.tick(1_500_000);
    assert_eq!(dt, 250_000);
    assert_eq!(fps, None);
    // More than a second since the count began: the count is reported and
    // restarts.
    let (dt, fps) = clock.tick(2_100_000);
    assert_eq!(dt, 600_000);
    assert_eq!(fps, Some(3));
    let (_, fps) = clock.tick(2_200_000);
    assert_eq!(fps, None);
}

#[test]
fn discrete_devices_are_preferred() {
    assert_eq!(rank(DeviceClass::Discrete), 0);
    assert_eq!(rank(DeviceClass::Unknown), 5);
    let classes = vec![DeviceClass::Integrated, DeviceClass::Discrete, DeviceClass::Cpu];
    assert_eq!(pick_device(&classes), Some(1));
    assert_eq!(pick_device(&Vec::new()), None);
    // The first of an equally ranked pair wins.
    let twins = vec![DeviceClass::Integrated, DeviceClass::Integrated];
    assert_eq!(pick_device(&twins), Some(0));
}

#[test]
fn queue_family_needs_all_three_capabilities() {
    let families = vec![
        QueueFlags { graphics: true, compute: false, transfer: true },
        QueueFlags { graphics: true, compute: true, transfer: true },
    ];
    assert_eq!(pick_queue_family(&families), Some(1));
    let none = vec![QueueFlags { graphics: false, compute: true, transfer: true }];
    assert_eq!(pick_queue_family(&none), None);
}

#[test]
fn descriptor_set_wires_image_constants_and_scene() {
    let b = descriptor_bindings();
    assert_eq!(b.len(), 3);
    assert_eq!(b[0].binding, 0);
    assert!(matches!(b[0].kind, DescriptorKind::StorageImage));
    assert_eq!(b[1].binding, 1);
    assert!(matches!(b[1].kind, DescriptorKind::UniformBuffer));
    assert_eq!(b[2].binding, 2);
    assert!(matches!(b[2].kind, DescriptorKind::UniformBuffer));
    assert!(b.iter().all(|e| e.compute_only));
    let c = RendererConstants::new(800, 600, 0, 12_000_000).unwrap();
    assert_eq!(dispatch_size(&c), [800, 600, 1]);
}
