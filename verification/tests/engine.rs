use atomic_present::commit::{
    build_frame_request, frame_target, select_variant, CommitEngine, CommitVariant, DisplayEvent,
    FrameProperties, PipelineHandles, PropertyBinding,
};
use atomic_present::errors::DisplayError;

#[test]
fn commits_never_overlap() {
    // N commits require exactly N completion events, each consumed before
    // the next submission is accepted.
    let n: u32 = 250;
    let mut engine = CommitEngine::new();
    let mut completions: u64 = 0;
    for i in 0..n {
        assert!(engine.is_idle());
        engine.record_blob(i).unwrap();
        assert_eq!(engine.begin_commit(i), Ok(()));
        // A second submission before the completion event is back-pressured.
        assert_eq!(engine.begin_commit(i), Err(DisplayError::CommitBusy));
        assert!(!engine.is_idle());
        let consumed = engine.consume_events(&vec![DisplayEvent::PageFlip]);
        assert!(consumed);
        completions += 1;
        assert_eq!(engine.completed_count(), completions);
        assert_eq!(engine.submitted_count(), completions);
        engine.destroy_blob(i).unwrap();
    }
    assert_eq!(completions, n as u64);
}

#[test]
fn pending_blob_cannot_be_destroyed() {
    // Destroying a blob right after submitting the commit that references
    // it, without waiting for completion, is a lifetime violation the
    // engine rejects; after the completion event it succeeds.
    let mut engine = CommitEngine::new();
    engine.record_blob(5).unwrap();
    engine.begin_commit(5).unwrap();
    assert_eq!(engine.destroy_blob(5), Err(DisplayError::HandleInUse));
    assert!(engine.blob_is_live(5));
    assert!(engine.consume_events(&vec![DisplayEvent::PageFlip]));
    assert_eq!(engine.destroy_blob(5), Ok(()));
    assert!(!engine.blob_is_live(5));
}

#[test]
fn unreferenced_blobs_can_be_destroyed_any_time() {
    let mut engine = CommitEngine::new();
    engine.record_blob(5).unwrap();
    engine.record_blob(6).unwrap();
    engine.begin_commit(5).unwrap();
    // Blob 6 is not referenced by the commit in flight.
    assert_eq!(engine.destroy_blob(6), Ok(()));
    assert_eq!(engine.destroy_blob(9), Err(DisplayError::UnknownHandle));
}

#[test]
fn committing_a_dead_blob_is_rejected() {
    let mut engine = CommitEngine::new();
    assert_eq!(engine.begin_commit(5), Err(DisplayError::CommitRejected));
    engine.record_blob(5).unwrap();
    engine.begin_commit(5).unwrap();
}

#[test]
fn unknown_events_are_ignored() {
    let mut engine = CommitEngine::new();
    engine.record_blob(5).unwrap();
    engine.begin_commit(5).unwrap();
    assert!(!engine.handle_event(DisplayEvent::Unknown));
    assert!(!engine.is_idle());
    // A completion while idle also changes nothing.
    assert!(engine.handle_event(DisplayEvent::Vblank));
    assert!(engine.is_idle());
    assert!(!engine.handle_event(DisplayEvent::Vblank));
    assert_eq!(engine.completed_count(), 1);
}

#[test]
fn event_batches_consume_at_most_one_completion() {
    let mut engine = CommitEngine::new();
    engine.record_blob(5).unwrap();
    engine.begin_commit(5).unwrap();
    let batch = vec![
        DisplayEvent::Unknown,
        DisplayEvent::Vblank,
        DisplayEvent::PageFlip,
    ];
    assert!(engine.consume_events(&batch));
    assert_eq!(engine.completed_count(), 1);
    // The spare completion in the batch was not double-counted, and a
    // batch without a commit in flight consumes nothing.
    assert!(!engine.consume_events(&batch));
    assert_eq!(engine.completed_count(), 1);
}

#[test]
fn page_flips_are_gated_like_commits() {
    let mut engine = CommitEngine::new();
    assert_eq!(engine.begin_page_flip(), Ok(()));
    assert_eq!(engine.begin_page_flip(), Err(DisplayError::CommitBusy));
    assert!(engine.consume_events(&vec![DisplayEvent::PageFlip]));
    assert_eq!(engine.begin_page_flip(), Ok(()));
}

#[test]
fn variant_follows_the_atomic_capability() {
    assert_eq!(select_variant(true), CommitVariant::Atomic);
    assert_eq!(select_variant(false), CommitVariant::Legacy);
}

#[test]
fn frames_alternate_between_the_two_framebuffers() {
    for i in 0..10u64 {
        let fb = frame_target(i, 100, 200);
        assert_eq!(fb, if i % 2 == 1 { 200 } else { 100 });
    }
}

#[test]
fn frame_request_binds_all_four_properties() {
    let handles = PipelineHandles { connector: 30, crtc: 40, plane: 60 };
    let props = FrameProperties { crtc_id: 11, active: 12, ctm: 13, fb_id: 14 };
    let req = build_frame_request(handles, props, 77, 100);
    assert_eq!(
        req.bindings,
        vec![
            PropertyBinding { object: 40, property: 13, value: 77 },
            PropertyBinding { object: 30, property: 11, value: 40 },
            PropertyBinding { object: 40, property: 12, value: 1 },
            PropertyBinding { object: 60, property: 14, value: 100 },
        ]
    );
}
