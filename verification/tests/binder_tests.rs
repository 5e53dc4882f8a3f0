use cosmic_client_toolkit::binder::{
    bind_candidate, bind_capture_globals, find_global, has_global, Candidate, GlobalEntry,
};
use cosmic_client_toolkit::codec::Tagged;
use cosmic_client_toolkit::egl::EGLImage;
use cosmic_client_toolkit::export_dmabuf::{
    DmabufEvent, DmabufNotice, Object, ExportDmabufState,
};
use cosmic_client_toolkit::identity::RemoteIdentity;
use cosmic_client_toolkit::toplevel_management::{
    decode_management_capabilities, ToplevelManagerState,
};

fn g(name: &str, version: u32) -> GlobalEntry {
    GlobalEntry {
        interface: name.to_string(),
        version,
    }
}

#[test]
fn absent_global_binds_nothing() {
    let globals = vec![g("wl_compositor", 6)];
    let c = Candidate {
        interface: "ext_workspace_manager_v1".to_string(),
        min_version: 1,
        max_version: 1,
    };
    assert_eq!(bind_candidate(&globals, &c), None);
    assert!(!has_global(&globals, &"ext_workspace_manager_v1".to_string(), 1));
}

#[test]
fn negotiated_version_is_capped_at_the_candidate_maximum() {
    let globals = vec![g("ext_workspace_manager_v1", 4)];
    let c = Candidate {
        interface: "ext_workspace_manager_v1".to_string(),
        min_version: 1,
        max_version: 2,
    };
    assert_eq!(bind_candidate(&globals, &c), Some(2));
}

#[test]
fn advertised_version_below_the_minimum_binds_nothing() {
    let globals = vec![g("ext_workspace_manager_v1", 1)];
    let c = Candidate {
        interface: "ext_workspace_manager_v1".to_string(),
        min_version: 2,
        max_version: 3,
    };
    assert_eq!(bind_candidate(&globals, &c), None);
}

#[test]
fn advertised_version_inside_the_range_is_taken() {
    let globals = vec![g("zcosmic_toplevel_info_v1", 2)];
    let c = Candidate {
        interface: "zcosmic_toplevel_info_v1".to_string(),
        min_version: 1,
        max_version: 3,
    };
    assert_eq!(bind_candidate(&globals, &c), Some(2));
}

#[test]
fn find_global_returns_the_first_match() {
    let globals = vec![g("a", 1), g("b", 2), g("b", 9)];
    let found = find_global(&globals, &"b".to_string()).unwrap();
    assert_eq!(found.version, 2);
    assert!(find_global(&globals, &"c".to_string()).is_none());
}

#[test]
fn capture_globals_map_to_their_families() {
    let globals = vec![
        g("zcosmic_screencopy_manager_v2", 1),
        g("zcosmic_workspace_image_source_manager_v2", 1),
        g("ext_image_copy_capture_manager_v1", 1),
        g("ext_output_image_capture_source_manager_v1", 1),
    ];
    let b = bind_capture_globals(&globals);
    assert!(b.native_capture_manager);
    assert!(!b.native_output_sources);
    assert!(!b.native_toplevel_sources);
    assert!(b.native_workspace_sources);
    assert!(b.portable_capture_manager);
    assert!(b.portable_output_sources);
    assert!(!b.portable_toplevel_sources);
}

#[test]
fn management_capabilities_decode_word_per_capability() {
    // close (1), activate (2), and an unknown future value 9
    let bytes = [1, 0, 0, 0, 2, 0, 0, 0, 9, 0, 0, 0];
    assert_eq!(
        decode_management_capabilities(&bytes),
        vec![Tagged::Known(1), Tagged::Known(2), Tagged::Unrecognized(9)]
    );
    let mut st = ToplevelManagerState::new();
    let r = st.handle_capabilities(&bytes);
    assert_eq!(r, st.capabilities);
    assert_eq!(st.capabilities.len(), 3);
}

#[test]
fn dmabuf_frame_assembles_and_delivers_once() {
    let mut st = ExportDmabufState::new();
    let f = RemoteIdentity::new(1);
    st.handle_frame_event(
        f,
        DmabufEvent::Device {
            node: vec![1, 1, 0, 0, 0, 0, 0, 0],
        },
    );
    st.handle_frame_event(
        f,
        DmabufEvent::Frame {
            width: 64,
            height: 32,
            mod_high: 0,
            mod_low: 5,
            format: 42,
            flags: 0,
        },
    );
    st.handle_frame_event(
        f,
        DmabufEvent::Object {
            fd: 9,
            index: 0,
            offset: 0,
            stride: 256,
            plane_index: 0,
        },
    );
    let notices = st.handle_frame_event(f, DmabufEvent::Ready);
    assert_eq!(notices.len(), 1);
    match &notices[0] {
        DmabufNotice::FrameReady { frame, dmabuf } => {
            assert_eq!(*frame, f);
            assert_eq!(dmabuf.node, 257);
            assert_eq!(dmabuf.width, 64);
            assert_eq!(dmabuf.height, 32);
            assert_eq!(dmabuf.modifier, 5);
            assert_eq!(dmabuf.format, 42);
            assert_eq!(
                dmabuf.objects,
                vec![Object {
                    fd: 9,
                    index: 0,
                    offset: 0,
                    stride: 256,
                    plane_index: 0
                }]
            );
        }
        other => panic!("unexpected notice {:?}", other),
    }
    assert!(st.frames.slots.is_empty());
}

#[test]
fn dmabuf_cancel_drops_the_frame() {
    let mut st = ExportDmabufState::new();
    let f = RemoteIdentity::new(2);
    st.handle_frame_event(
        f,
        DmabufEvent::Frame {
            width: 1,
            height: 1,
            mod_high: 0,
            mod_low: 0,
            format: 0,
            flags: 0,
        },
    );
    let notices = st.handle_frame_event(f, DmabufEvent::Cancel);
    assert_eq!(notices.len(), 1);
    assert!(matches!(
        notices[0],
        DmabufNotice::FrameCancelled { frame } if frame == f
    ));
    assert!(st.frames.slots.is_empty());
    // cancelling again still notifies but changes nothing
    let again = st.handle_frame_event(f, DmabufEvent::Cancel);
    assert_eq!(again.len(), 1);
}

#[test]
fn egl_image_carries_its_handles() {
    let img = EGLImage::new(0xd15, 0xbeef);
    assert_eq!(img.display(), 0xd15);
    assert_eq!(img.ptr(), 0xbeef);
}
