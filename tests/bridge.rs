use mojo_dsp::bridge::{AudioBridge, CaptureReport, RenderReport};

#[test]
fn new_bridge_sizes_ring_from_latency_and_block() {
    let bridge = AudioBridge::new(2000, 512).unwrap();
    assert_eq!(bridge.capacity(), 2512);
    assert!(!bridge.overflow_latched());
    assert!(!bridge.underrun_latched());
}

#[test]
fn new_bridge_rejects_zero_and_overflowing_capacity() {
    assert!(AudioBridge::new(0, 0).is_none());
    assert!(AudioBridge::new(usize::MAX, 1).is_none());
}

#[test]
fn overflow_drops_only_the_excess_and_latches_once() {
    let mut bridge = AudioBridge::new(3, 1).unwrap();
    let report = bridge.capture(&[1, 2, 3, 4, 5]);
    assert_eq!(report, CaptureReport { dropped: 1, overflow_raised: true });
    assert!(bridge.overflow_latched());
    let again = bridge.capture(&[6]);
    assert_eq!(again, CaptureReport { dropped: 1, overflow_raised: false });
    let mut out = vec![9; 4];
    let report = bridge.render_into(&mut out);
    assert_eq!(report, RenderReport { missing: 0, underrun_raised: false });
    assert_eq!(out, vec![1, 2, 3, 4]);
}

#[test]
fn underrun_renders_silence_and_latches_once() {
    let mut bridge = AudioBridge::new(8, 0).unwrap();
    let mut out = vec![7u32; 3];
    assert_eq!(bridge.render_into(&mut out), RenderReport { missing: 3, underrun_raised: true });
    assert_eq!(out, vec![0, 0, 0]);
    assert!(bridge.underrun_latched());
    let mut out = vec![7u32; 2];
    assert_eq!(bridge.render_into(&mut out), RenderReport { missing: 2, underrun_raised: false });
    assert_eq!(out, vec![0, 0]);
}

#[test]
fn partial_render_pads_the_shortfall() {
    let mut bridge = AudioBridge::new(8, 0).unwrap();
    let report = bridge.capture(&[0x3f80_0000, 0x4000_0000]);
    assert_eq!(report, CaptureReport { dropped: 0, overflow_raised: false });
    let mut out = vec![5u32; 4];
    assert_eq!(bridge.render_into(&mut out), RenderReport { missing: 2, underrun_raised: true });
    assert_eq!(out, vec![0x3f80_0000, 0x4000_0000, 0, 0]);
}

#[test]
fn fifo_order_is_kept_across_blocks() {
    let mut bridge = AudioBridge::new(4, 2).unwrap();
    bridge.capture(&[1, 2, 3]);
    let mut out = vec![0u32; 2];
    bridge.render_into(&mut out);
    assert_eq!(out, vec![1, 2]);
    bridge.capture(&[4, 5]);
    let mut out = vec![0u32; 3];
    assert_eq!(bridge.render_into(&mut out), RenderReport { missing: 0, underrun_raised: false });
    assert_eq!(out, vec![3, 4, 5]);
    assert!(!bridge.overflow_latched());
}

#[test]
fn split_ends_share_the_ring() {
    let bridge = AudioBridge::new(2, 1).unwrap();
    let (mut capture, mut render) = bridge.split();
    let report = capture.capture(&[7, 8, 9, 10]);
    assert_eq!(report, CaptureReport { dropped: 1, overflow_raised: true });
    assert!(capture.overflow_latched());
    let mut out = vec![1u32; 4];
    let report = render.render_into(&mut out);
    assert_eq!(report, RenderReport { missing: 1, underrun_raised: true });
    assert_eq!(out, vec![7, 8, 9, 0]);
    assert!(render.underrun_latched());
    assert_eq!(capture.capture(&[11]), CaptureReport { dropped: 0, overflow_raised: false });
    let mut out = vec![0u32; 2];
    assert_eq!(render.render_into(&mut out), RenderReport { missing: 1, underrun_raised: false });
    assert_eq!(out, vec![11, 0]);
}

#[test]
fn split_keeps_latches() {
    let mut bridge = AudioBridge::new(1, 0).unwrap();
    bridge.capture(&[1, 2]);
    let (capture, render) = bridge.split();
    assert!(capture.overflow_latched());
    assert!(!render.underrun_latched());
}
