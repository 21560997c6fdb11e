use atomic_present::buffers::BufferRegistry;
use atomic_present::commit::{
    build_frame_request, frame_target, CommitEngine, DisplayEvent, FrameProperties,
    PipelineHandles,
};
use atomic_present::fixed::{encode_matrix, identity_matrix};
use atomic_present::pattern::{color_bar_bytes, solid_bytes};

// A full double-buffered session against a simulated event channel:
// two 1920x1080 32bpp buffers, bars in one and solid white in the other,
// 100 frames alternating between them under an identity color transform.
#[test]
fn hundred_frame_double_buffered_run() {
    let (width, height) = (1920usize, 1080usize);
    let size = width * height * 4;

    let bars = color_bar_bytes(size, width);
    let white = solid_bytes(size, 255);
    assert_eq!(bars.len(), size);
    assert_eq!(white.len(), size);
    assert_eq!(&bars[0..4], &[255, 0, 0, 0]);
    assert!(white.iter().all(|&v| v == 255));

    let mut registry = BufferRegistry::new();
    registry.record_buffer(1).unwrap();
    registry.record_framebuffer(100, 1).unwrap();
    registry.record_buffer(2).unwrap();
    registry.record_framebuffer(200, 2).unwrap();

    let handles = PipelineHandles { connector: 30, crtc: 40, plane: 60 };
    let props = FrameProperties { crtc_id: 11, active: 12, ctm: 13, fb_id: 14 };

    let mut engine = CommitEngine::new();
    let mut completions: u64 = 0;
    for i in 0..100u64 {
        let payload = encode_matrix(&identity_matrix());
        assert_eq!(payload.len(), 72);
        let blob = 1000 + i as u32;
        engine.record_blob(blob).unwrap();

        let fb = frame_target(i, 100, 200);
        assert_eq!(fb, if i % 2 == 1 { 200 } else { 100 });

        let req = build_frame_request(handles, props, blob, fb);
        assert_eq!(req.bindings.len(), 4);

        // Submission is accepted on every frame: the prior completion was
        // always consumed first, so no frame sees CommitBusy.
        assert_eq!(engine.begin_commit(blob), Ok(()));

        // The kernel's blocking read delivers the flip completion.
        assert!(engine.consume_events(&vec![DisplayEvent::PageFlip]));
        completions += 1;

        engine.destroy_blob(blob).unwrap();
    }
    assert_eq!(completions, 100);
    assert_eq!(engine.completed_count(), 100);
    assert_eq!(engine.submitted_count(), 100);
    assert!(engine.is_idle());

    // Teardown in reverse creation order.
    registry.destroy_framebuffer(200).unwrap();
    registry.destroy_buffer(2).unwrap();
    registry.destroy_framebuffer(100).unwrap();
    registry.destroy_buffer(1).unwrap();
}
