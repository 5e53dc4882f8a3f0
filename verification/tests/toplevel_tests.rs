use cosmic_client_toolkit::codec::Tagged;
use cosmic_client_toolkit::identity::RemoteIdentity;
use cosmic_client_toolkit::toplevel_info::{
    ToplevelEvent, ToplevelGeometry, ToplevelInfoEvent, ToplevelInfoState, ToplevelListEvent,
    ToplevelNativeEvent, ToplevelNotice,
};

fn id(n: u64) -> RemoteIdentity {
    RemoteIdentity::new(n)
}

fn announce(st: &mut ToplevelInfoState, t: RemoteIdentity, n: RemoteIdentity) {
    let no = st.handle_list_event(ToplevelListEvent::Toplevel {
        toplevel: t,
        native: n,
    });
    assert!(no.is_empty());
}

#[test]
fn scenario_closed_without_any_commit() {
    let mut st = ToplevelInfoState::new();
    let t = id(1);
    announce(&mut st, t, id(100));
    // some partial data arrives, but never a commit sentinel
    st.handle_toplevel_event(
        t,
        ToplevelEvent::Title {
            title: "half open".to_string(),
        },
    );
    let notices = st.handle_toplevel_event(t, ToplevelEvent::Closed);
    assert_eq!(notices.len(), 1);
    match &notices[0] {
        ToplevelNotice::ToplevelClosed { toplevel, snapshot } => {
            assert_eq!(*toplevel, t);
            assert_eq!(snapshot.title, "half open");
        }
        other => panic!("unexpected notice {:?}", other),
    }
    // no longer listed
    assert!(st.toplevels().is_empty());
    // a second close finds nothing and fires nothing
    let again = st.handle_toplevel_event(t, ToplevelEvent::Closed);
    assert!(again.is_empty());
}

#[test]
fn commit_publishes_exactly_once_even_without_native_state() {
    let mut st = ToplevelInfoState::new();
    let t = id(2);
    let n = id(200);
    announce(&mut st, t, n);
    st.handle_toplevel_event(
        t,
        ToplevelEvent::Title {
            title: "a window".to_string(),
        },
    );
    // a commit before any native state still publishes: the untouched
    // fields come out in their explicit empty state
    let no = st.handle_toplevel_event(t, ToplevelEvent::Done);
    assert_eq!(no.len(), 1);
    assert!(matches!(no[0], ToplevelNotice::NewToplevel { toplevel } if toplevel == t));
    let info = st.info(t).unwrap();
    assert_eq!(info.title, "a window");
    assert!(info.state.is_empty());
    // native state arrives; the next commit is an update carrying it
    st.handle_native_event(n, ToplevelNativeEvent::State { state: vec![2, 0, 0, 0] });
    let no = st.handle_toplevel_event(t, ToplevelEvent::Done);
    assert_eq!(no.len(), 1);
    assert!(matches!(no[0], ToplevelNotice::UpdatedToplevel { toplevel } if toplevel == t));
    let info = st.info(t).unwrap();
    assert_eq!(info.title, "a window");
    assert_eq!(info.state, vec![Tagged::Known(2)]);
}

#[test]
fn info_manager_sentinel_fires_one_notice() {
    let mut st = ToplevelInfoState::new();
    let no = st.handle_info_event(ToplevelInfoEvent::Done);
    assert_eq!(no.len(), 1);
    assert!(matches!(no[0], ToplevelNotice::InfoDone));
    let no = st.handle_info_event(ToplevelInfoEvent::Finished);
    assert!(no.is_empty());
}

#[test]
fn state_replaces_and_preserves_unrecognized_values() {
    let mut st = ToplevelInfoState::new();
    let t = id(3);
    let n = id(300);
    announce(&mut st, t, n);
    st.handle_native_event(n, ToplevelNativeEvent::State { state: vec![0, 0, 0, 0] });
    // full replacement: activated (2) then an unknown value 9
    st.handle_native_event(
        n,
        ToplevelNativeEvent::State {
            state: vec![2, 0, 0, 0, 9, 0, 0, 0],
        },
    );
    st.handle_toplevel_event(t, ToplevelEvent::Done);
    assert_eq!(
        st.info(t).unwrap().state,
        vec![Tagged::Known(2), Tagged::Unrecognized(9)]
    );
}

#[test]
fn identifier_and_app_id_accumulate() {
    let mut st = ToplevelInfoState::new();
    let t = id(4);
    let n = id(400);
    announce(&mut st, t, n);
    st.handle_toplevel_event(
        t,
        ToplevelEvent::AppId {
            app_id: "org.example.App".to_string(),
        },
    );
    st.handle_toplevel_event(
        t,
        ToplevelEvent::Identifier {
            identifier: "stable-1".to_string(),
        },
    );
    st.handle_native_event(n, ToplevelNativeEvent::State { state: vec![] });
    st.handle_toplevel_event(t, ToplevelEvent::Done);
    let info = st.info(t).unwrap();
    assert_eq!(info.app_id, "org.example.App");
    assert_eq!(info.identifier.as_deref(), Some("stable-1"));
}

#[test]
fn geometry_tracks_outputs() {
    let mut st = ToplevelInfoState::new();
    let t = id(5);
    let n = id(500);
    let o = id(50);
    announce(&mut st, t, n);
    st.handle_native_event(n, ToplevelNativeEvent::OutputEnter { output: o });
    st.handle_native_event(
        n,
        ToplevelNativeEvent::Geometry {
            output: o,
            x: 10,
            y: 20,
            width: 640,
            height: 480,
        },
    );
    // replacement for the same output, not a second entry
    st.handle_native_event(
        n,
        ToplevelNativeEvent::Geometry {
            output: o,
            x: 0,
            y: 0,
            width: 800,
            height: 600,
        },
    );
    st.handle_native_event(n, ToplevelNativeEvent::State { state: vec![] });
    st.handle_toplevel_event(t, ToplevelEvent::Done);
    let info = st.info(t).unwrap();
    assert_eq!(info.outputs, vec![o]);
    assert_eq!(
        info.geometry,
        vec![(
            o,
            ToplevelGeometry {
                x: 0,
                y: 0,
                width: 800,
                height: 600
            }
        )]
    );
    // leaving the output forgets its geometry
    st.handle_native_event(n, ToplevelNativeEvent::OutputLeave { output: o });
    st.handle_toplevel_event(t, ToplevelEvent::Done);
    let info = st.info(t).unwrap();
    assert!(info.outputs.is_empty());
    assert!(info.geometry.is_empty());
}

#[test]
fn workspaces_membership_is_set_like() {
    let mut st = ToplevelInfoState::new();
    let t = id(6);
    let n = id(600);
    let w = id(60);
    announce(&mut st, t, n);
    st.handle_native_event(n, ToplevelNativeEvent::WorkspaceEnter { workspace: w });
    st.handle_native_event(n, ToplevelNativeEvent::WorkspaceEnter { workspace: w });
    st.handle_native_event(n, ToplevelNativeEvent::State { state: vec![] });
    st.handle_toplevel_event(t, ToplevelEvent::Done);
    assert_eq!(st.info(t).unwrap().workspaces, vec![w]);
    st.handle_native_event(n, ToplevelNativeEvent::WorkspaceLeave { workspace: w });
    st.handle_toplevel_event(t, ToplevelEvent::Done);
    assert!(st.info(t).unwrap().workspaces.is_empty());
}

#[test]
fn list_finished_notice() {
    let mut st = ToplevelInfoState::new();
    let no = st.handle_list_event(ToplevelListEvent::Finished);
    assert_eq!(no.len(), 1);
    assert!(matches!(no[0], ToplevelNotice::Finished));
}
