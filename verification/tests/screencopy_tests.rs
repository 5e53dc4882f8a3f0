use cosmic_client_toolkit::codec::Tagged;
use cosmic_client_toolkit::identity::RemoteIdentity;
use cosmic_client_toolkit::screencopy::{
    resolve_capture_family, CaptureBindings, CaptureFamily, CaptureNotice, CaptureSource,
    CaptureSourceError, CaptureSourceKind, FrameEvent, PresentTime, Rect, ScreencopyState,
    SessionEvent,
};

fn id(n: u64) -> RemoteIdentity {
    RemoteIdentity::new(n)
}

fn all_bound() -> CaptureBindings {
    CaptureBindings {
        native_capture_manager: true,
        native_output_sources: true,
        native_toplevel_sources: true,
        native_workspace_sources: true,
        portable_capture_manager: true,
        portable_output_sources: true,
        portable_toplevel_sources: true,
    }
}

fn portable_only() -> CaptureBindings {
    CaptureBindings {
        native_capture_manager: false,
        native_output_sources: false,
        native_toplevel_sources: false,
        native_workspace_sources: false,
        portable_capture_manager: true,
        portable_output_sources: true,
        portable_toplevel_sources: true,
    }
}

fn none_bound() -> CaptureBindings {
    CaptureBindings {
        native_capture_manager: false,
        native_output_sources: false,
        native_toplevel_sources: false,
        native_workspace_sources: false,
        portable_capture_manager: false,
        portable_output_sources: false,
        portable_toplevel_sources: false,
    }
}

#[test]
fn native_family_wins_when_both_support_the_kind() {
    let b = all_bound();
    for kind in [
        CaptureSourceKind::Output,
        CaptureSourceKind::Toplevel,
        CaptureSourceKind::CosmicWorkspace,
    ] {
        assert_eq!(resolve_capture_family(&b, kind), Ok(CaptureFamily::Native));
    }
}

#[test]
fn portable_family_is_the_fallback() {
    let b = portable_only();
    assert_eq!(
        resolve_capture_family(&b, CaptureSourceKind::Output),
        Ok(CaptureFamily::Portable)
    );
    assert_eq!(
        resolve_capture_family(&b, CaptureSourceKind::Toplevel),
        Ok(CaptureFamily::Portable)
    );
    // the portable family never offers workspace capture
    assert_eq!(
        resolve_capture_family(&b, CaptureSourceKind::CosmicWorkspace),
        Err(CaptureSourceError(CaptureSourceKind::CosmicWorkspace))
    );
}

#[test]
fn unbound_capability_fails_only_at_call_time() {
    let b = none_bound();
    let err = resolve_capture_family(&b, CaptureSourceKind::Output).unwrap_err();
    assert_eq!(err, CaptureSourceError(CaptureSourceKind::Output));
    assert_eq!(
        err.message(),
        "capture kind 'output' unsupported by compositor"
    );
}

#[test]
fn manager_without_source_manager_does_not_support_the_kind() {
    let mut b = none_bound();
    b.native_capture_manager = true;
    // no source managers: still unsupported
    assert!(resolve_capture_family(&b, CaptureSourceKind::Output).is_err());
    b.native_output_sources = true;
    assert_eq!(
        resolve_capture_family(&b, CaptureSourceKind::Output),
        Ok(CaptureFamily::Native)
    );
}

#[test]
fn scenario_session_negotiation_and_one_ready_frame() {
    let mut st = ScreencopyState::new(portable_only());
    let s = id(1);
    let f = id(2);
    let output = CaptureSource::Output(id(10));
    assert_eq!(st.create_session(s, &output), Ok(CaptureFamily::Portable));

    let no = st.handle_session_event(
        s,
        SessionEvent::BufferSize {
            width: 1920,
            height: 1080,
        },
    );
    assert!(no.is_empty());
    let notices = st.handle_session_event(s, SessionEvent::Done);
    assert_eq!(notices.len(), 1);
    match &notices[0] {
        CaptureNotice::InitDone { session, formats } => {
            assert_eq!(*session, s);
            assert_eq!(formats.buffer_size, (1920, 1080));
        }
        other => panic!("unexpected notice {:?}", other),
    }

    st.capture(f, s);
    let notices = st.handle_frame_event(f, FrameEvent::Ready);
    assert_eq!(notices.len(), 1);
    assert!(matches!(
        &notices[0],
        CaptureNotice::Ready { frame, .. } if *frame == f
    ));
    // the frame is no longer tracked: further events change nothing
    let again = st.handle_frame_event(f, FrameEvent::Ready);
    assert!(again.is_empty());
    assert!(st.session(f).is_none());
}

#[test]
fn scenario_dropped_session_resolves_to_absent() {
    let mut st = ScreencopyState::new(all_bound());
    let s = id(1);
    let f = id(2);
    st.create_session(s, &CaptureSource::Toplevel(id(20))).unwrap();
    st.capture(f, s);
    assert_eq!(st.session(f), Some(s));
    // the owner drops the session while the frame is still in flight
    st.release_session(s);
    assert_eq!(st.session(f), None);
    // the frame still completes normally
    let notices = st.handle_frame_event(f, FrameEvent::Ready);
    assert_eq!(notices.len(), 1);
}

#[test]
fn release_is_idempotent_and_session_events_become_misses() {
    let mut st = ScreencopyState::new(all_bound());
    let s = id(1);
    st.create_session(s, &CaptureSource::Output(id(10))).unwrap();
    st.release_session(s);
    st.release_session(s);
    // an in-flight event for the released session is a silent miss
    let no = st.handle_session_event(s, SessionEvent::Done);
    assert!(no.is_empty());
}

#[test]
fn stopped_session_fires_once_and_leaves_the_table() {
    let mut st = ScreencopyState::new(all_bound());
    let s = id(1);
    st.create_session(s, &CaptureSource::Output(id(10))).unwrap();
    let notices = st.handle_session_event(s, SessionEvent::Stopped);
    assert_eq!(notices.len(), 1);
    assert!(matches!(
        notices[0],
        CaptureNotice::Stopped { session } if session == s
    ));
    let again = st.handle_session_event(s, SessionEvent::Stopped);
    assert!(again.is_empty());
}

#[test]
fn formats_accumulate_all_fields() {
    let mut st = ScreencopyState::new(all_bound());
    let s = id(1);
    st.create_session(s, &CaptureSource::Output(id(10))).unwrap();
    st.handle_session_event(
        s,
        SessionEvent::BufferSize {
            width: 800,
            height: 600,
        },
    );
    st.handle_session_event(s, SessionEvent::ShmFormat { format: 0 });
    st.handle_session_event(s, SessionEvent::ShmFormat { format: 0x34325258 });
    st.handle_session_event(
        s,
        SessionEvent::DmabufDevice {
            device: vec![3, 1, 0, 0, 0, 0, 0, 0],
        },
    );
    st.handle_session_event(
        s,
        SessionEvent::DmabufFormat {
            format: 7,
            modifiers: vec![1, 0, 0, 0, 0, 0, 0, 0, 2, 0, 0, 0, 0, 0, 0, 0],
        },
    );
    let notices = st.handle_session_event(s, SessionEvent::Done);
    match &notices[0] {
        CaptureNotice::InitDone { formats, .. } => {
            assert_eq!(formats.buffer_size, (800, 600));
            assert_eq!(formats.shm_formats, vec![0, 0x34325258]);
            assert_eq!(formats.dmabuf_device, Some(259));
            assert_eq!(formats.dmabuf_formats.len(), 1);
            assert_eq!(formats.dmabuf_formats[0].0, 7);
            assert_eq!(formats.dmabuf_formats[0].1, vec![1, 2]);
        }
        other => panic!("unexpected notice {:?}", other),
    }
}

#[test]
fn frame_metadata_accumulates_and_failure_is_tagged() {
    let mut st = ScreencopyState::new(all_bound());
    let s = id(1);
    let f = id(2);
    st.create_session(s, &CaptureSource::Output(id(10))).unwrap();
    st.capture(f, s);
    st.handle_frame_event(f, FrameEvent::Transform { raw: 3 });
    st.handle_frame_event(
        f,
        FrameEvent::Damage {
            x: 0,
            y: 0,
            width: 4,
            height: 4,
        },
    );
    st.handle_frame_event(
        f,
        FrameEvent::PresentationTime {
            tv_sec_hi: 1,
            tv_sec_lo: 2,
            tv_nsec: 33,
        },
    );
    let notices = st.handle_frame_event(f, FrameEvent::Failed { reason: 2 });
    assert_eq!(notices.len(), 1);
    match &notices[0] {
        CaptureNotice::Failed { frame, reason } => {
            assert_eq!(*frame, f);
            assert_eq!(*reason, Tagged::Known(2));
        }
        other => panic!("unexpected notice {:?}", other),
    }

    // a second frame shows the accumulated metadata on the ready path
    let f2 = id(3);
    st.capture(f2, s);
    st.handle_frame_event(f2, FrameEvent::Transform { raw: 9 });
    st.handle_frame_event(
        f2,
        FrameEvent::Damage {
            x: 1,
            y: 2,
            width: 3,
            height: 4,
        },
    );
    st.handle_frame_event(
        f2,
        FrameEvent::PresentationTime {
            tv_sec_hi: 0,
            tv_sec_lo: 5,
            tv_nsec: 6,
        },
    );
    let notices = st.handle_frame_event(f2, FrameEvent::Ready);
    match &notices[0] {
        CaptureNotice::Ready { meta, .. } => {
            assert_eq!(meta.transform, Tagged::Unrecognized(9));
            assert_eq!(
                meta.damage,
                vec![Rect {
                    x: 1,
                    y: 2,
                    width: 3,
                    height: 4
                }]
            );
            assert_eq!(meta.present_time, Some(PresentTime { secs: 5, nanos: 6 }));
        }
        other => panic!("unexpected notice {:?}", other),
    }
}

#[test]
fn source_kinds_report_themselves() {
    assert_eq!(
        CaptureSource::Output(id(1)).kind(),
        CaptureSourceKind::Output
    );
    assert_eq!(
        CaptureSource::Toplevel(id(1)).kind(),
        CaptureSourceKind::Toplevel
    );
    assert_eq!(
        CaptureSource::CosmicWorkspace(id(1)).kind(),
        CaptureSourceKind::CosmicWorkspace
    );
}

#[test]
fn failed_create_session_keeps_state_unchanged() {
    let mut st = ScreencopyState::new(none_bound());
    let s = id(1);
    let r = st.create_session(s, &CaptureSource::Output(id(10)));
    assert_eq!(r, Err(CaptureSourceError(CaptureSourceKind::Output)));
    assert!(st.sessions.slots.is_empty());
}

#[test]
fn commit_with_no_format_events_publishes_the_empty_negotiation() {
    let mut st = ScreencopyState::new(all_bound());
    let s = id(1);
    st.create_session(s, &CaptureSource::Output(id(10))).unwrap();
    let notices = st.handle_session_event(s, SessionEvent::Done);
    match &notices[0] {
        CaptureNotice::InitDone { formats, .. } => {
            assert_eq!(formats.buffer_size, (0, 0));
            assert!(formats.shm_formats.is_empty());
            assert_eq!(formats.dmabuf_device, None);
            assert!(formats.dmabuf_formats.is_empty());
        }
        other => panic!("unexpected notice {:?}", other),
    }
}
