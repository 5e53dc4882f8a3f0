use cosmic_client_toolkit::codec::Tagged;
use cosmic_client_toolkit::identity::RemoteIdentity;
use cosmic_client_toolkit::workspace::{
    WorkspaceEvent, WorkspaceGroupEvent, WorkspaceManagerEvent, WorkspaceNativeEvent,
    WorkspaceNotice, WorkspaceState,
};

fn id(n: u64) -> RemoteIdentity {
    RemoteIdentity::new(n)
}

#[test]
fn scenario_group_then_workspace_arrival() {
    let mut st = WorkspaceState::new();
    let g = id(1);
    let w1 = id(2);
    let no = st.handle_manager_event(WorkspaceManagerEvent::WorkspaceGroup { group: g });
    assert!(no.is_empty());
    let no = st.handle_manager_event(WorkspaceManagerEvent::Workspace {
        workspace: w1,
        native: None,
    });
    assert!(no.is_empty());
    let no = st.handle_group_event(g, WorkspaceGroupEvent::WorkspaceEnter { workspace: w1 });
    assert!(no.is_empty());
    let no = st.handle_workspace_event(
        w1,
        WorkspaceEvent::Name {
            name: "Desktop 1".to_string(),
        },
    );
    assert!(no.is_empty());
    // state bit 1 = active
    let no = st.handle_workspace_event(w1, WorkspaceEvent::State { raw: 1 });
    assert!(no.is_empty());
    // nothing is published before the commit sentinel
    assert!(st.current_workspace(w1).is_none());

    let notices = st.handle_manager_event(WorkspaceManagerEvent::Done);
    assert!(notices
        .iter()
        .any(|n| matches!(n, WorkspaceNotice::WorkspaceNew { workspace } if *workspace == w1)));
    assert!(notices
        .iter()
        .any(|n| matches!(n, WorkspaceNotice::GroupNew { group } if *group == g)));

    let ws = st.current_workspace(w1).expect("workspace published");
    assert_eq!(ws.name, "Desktop 1");
    assert_eq!(ws.state, Tagged::Known(1));
    let grp = st.current_group(g).expect("group published");
    assert_eq!(grp.workspaces, vec![w1]);
}

#[test]
fn scenario_last_write_wins_within_one_pending_cycle() {
    let mut st = WorkspaceState::new();
    let w1 = id(10);
    st.handle_manager_event(WorkspaceManagerEvent::Workspace {
        workspace: w1,
        native: None,
    });
    // coordinates [0], then [1], before any commit
    st.handle_workspace_event(
        w1,
        WorkspaceEvent::Coordinates {
            coordinates: vec![0, 0, 0, 0],
        },
    );
    st.handle_workspace_event(
        w1,
        WorkspaceEvent::Coordinates {
            coordinates: vec![1, 0, 0, 0],
        },
    );
    let notices = st.handle_manager_event(WorkspaceManagerEvent::Done);
    let for_w1: Vec<_> = notices
        .iter()
        .filter(|n| {
            matches!(n, WorkspaceNotice::WorkspaceNew { workspace } if *workspace == w1)
                || matches!(n, WorkspaceNotice::WorkspaceUpdated { workspace } if *workspace == w1)
        })
        .collect();
    assert_eq!(for_w1.len(), 1);
    assert!(matches!(
        for_w1[0],
        WorkspaceNotice::WorkspaceNew { .. }
    ));
    assert_eq!(st.current_workspace(w1).unwrap().coordinates, vec![1]);
}

#[test]
fn second_commit_is_an_update() {
    let mut st = WorkspaceState::new();
    let w1 = id(3);
    st.handle_manager_event(WorkspaceManagerEvent::Workspace {
        workspace: w1,
        native: None,
    });
    let first = st.handle_manager_event(WorkspaceManagerEvent::Done);
    assert!(matches!(
        first[0],
        WorkspaceNotice::WorkspaceNew { workspace } if workspace == w1
    ));
    let second = st.handle_manager_event(WorkspaceManagerEvent::Done);
    assert!(matches!(
        second[0],
        WorkspaceNotice::WorkspaceUpdated { workspace } if workspace == w1
    ));
}

#[test]
fn pending_accumulates_on_top_of_last_commit() {
    let mut st = WorkspaceState::new();
    let w1 = id(4);
    st.handle_manager_event(WorkspaceManagerEvent::Workspace {
        workspace: w1,
        native: None,
    });
    st.handle_workspace_event(
        w1,
        WorkspaceEvent::Name {
            name: "one".to_string(),
        },
    );
    st.handle_manager_event(WorkspaceManagerEvent::Done);
    // only the state changes in the second cycle; the name must survive
    st.handle_workspace_event(w1, WorkspaceEvent::State { raw: 2 });
    st.handle_manager_event(WorkspaceManagerEvent::Done);
    let ws = st.current_workspace(w1).unwrap();
    assert_eq!(ws.name, "one");
    assert_eq!(ws.state, Tagged::Known(2));
}

#[test]
fn workspace_removal_is_idempotent() {
    let mut st = WorkspaceState::new();
    let w1 = id(5);
    st.handle_manager_event(WorkspaceManagerEvent::Workspace {
        workspace: w1,
        native: None,
    });
    let first = st.handle_workspace_event(w1, WorkspaceEvent::Removed);
    assert_eq!(first.len(), 1);
    assert!(matches!(
        &first[0],
        WorkspaceNotice::WorkspaceRemoved { workspace, .. } if *workspace == w1
    ));
    let second = st.handle_workspace_event(w1, WorkspaceEvent::Removed);
    assert!(second.is_empty());
    assert!(st.workspaces().is_empty());
}

#[test]
fn group_removal_is_idempotent() {
    let mut st = WorkspaceState::new();
    let g = id(6);
    st.handle_manager_event(WorkspaceManagerEvent::WorkspaceGroup { group: g });
    let first = st.handle_group_event(g, WorkspaceGroupEvent::Removed);
    assert_eq!(first.len(), 1);
    let second = st.handle_group_event(g, WorkspaceGroupEvent::Removed);
    assert!(second.is_empty());
}

#[test]
fn workspace_removal_cascades_out_of_group_membership() {
    let mut st = WorkspaceState::new();
    let g = id(7);
    let w1 = id(8);
    let w2 = id(9);
    st.handle_manager_event(WorkspaceManagerEvent::WorkspaceGroup { group: g });
    st.handle_manager_event(WorkspaceManagerEvent::Workspace {
        workspace: w1,
        native: None,
    });
    st.handle_manager_event(WorkspaceManagerEvent::Workspace {
        workspace: w2,
        native: None,
    });
    st.handle_group_event(g, WorkspaceGroupEvent::WorkspaceEnter { workspace: w1 });
    st.handle_group_event(g, WorkspaceGroupEvent::WorkspaceEnter { workspace: w2 });
    st.handle_workspace_event(w1, WorkspaceEvent::Removed);
    assert_eq!(st.workspace_groups()[0].pending.workspaces, vec![w2]);
    assert_eq!(st.workspaces().len(), 1);
    assert_eq!(st.workspaces()[0].id, w2);
}

#[test]
fn membership_insert_is_set_like() {
    let mut st = WorkspaceState::new();
    let g = id(11);
    let w1 = id(12);
    st.handle_manager_event(WorkspaceManagerEvent::WorkspaceGroup { group: g });
    st.handle_manager_event(WorkspaceManagerEvent::Workspace {
        workspace: w1,
        native: None,
    });
    st.handle_group_event(g, WorkspaceGroupEvent::WorkspaceEnter { workspace: w1 });
    st.handle_group_event(g, WorkspaceGroupEvent::WorkspaceEnter { workspace: w1 });
    assert_eq!(st.workspace_groups()[0].pending.workspaces, vec![w1]);
    st.handle_group_event(g, WorkspaceGroupEvent::WorkspaceLeave { workspace: w1 });
    assert!(st.workspace_groups()[0].pending.workspaces.is_empty());
}

#[test]
fn outputs_enter_and_leave() {
    let mut st = WorkspaceState::new();
    let g = id(13);
    let o1 = id(14);
    let o2 = id(15);
    st.handle_manager_event(WorkspaceManagerEvent::WorkspaceGroup { group: g });
    st.handle_group_event(g, WorkspaceGroupEvent::OutputEnter { output: o1 });
    st.handle_group_event(g, WorkspaceGroupEvent::OutputEnter { output: o2 });
    st.handle_group_event(g, WorkspaceGroupEvent::OutputLeave { output: o1 });
    assert_eq!(st.workspace_groups()[0].pending.outputs, vec![o2]);
    // leaving an output that is not present changes nothing
    st.handle_group_event(g, WorkspaceGroupEvent::OutputLeave { output: o1 });
    assert_eq!(st.workspace_groups()[0].pending.outputs, vec![o2]);
}

#[test]
fn group_capabilities_decode_against_known_bits() {
    let mut st = WorkspaceState::new();
    let g = id(16);
    st.handle_manager_event(WorkspaceManagerEvent::WorkspaceGroup { group: g });
    st.handle_group_event(g, WorkspaceGroupEvent::Capabilities { raw: 1 });
    assert_eq!(st.workspace_groups()[0].pending.capabilities, Tagged::Known(1));
    st.handle_group_event(g, WorkspaceGroupEvent::Capabilities { raw: 6 });
    assert_eq!(
        st.workspace_groups()[0].pending.capabilities,
        Tagged::Unrecognized(6)
    );
}

#[test]
fn unrecognized_state_bits_are_preserved() {
    let mut st = WorkspaceState::new();
    let w1 = id(17);
    st.handle_manager_event(WorkspaceManagerEvent::Workspace {
        workspace: w1,
        native: None,
    });
    st.handle_workspace_event(w1, WorkspaceEvent::State { raw: 0x80 });
    st.handle_manager_event(WorkspaceManagerEvent::Done);
    assert_eq!(
        st.current_workspace(w1).unwrap().state,
        Tagged::Unrecognized(0x80)
    );
}

#[test]
fn native_events_reach_the_workspace_by_native_identity() {
    let mut st = WorkspaceState::new();
    let w1 = id(18);
    let n1 = id(19);
    st.handle_manager_event(WorkspaceManagerEvent::Workspace {
        workspace: w1,
        native: Some(n1),
    });
    st.handle_workspace_native_event(n1, WorkspaceNativeEvent::TilingState { raw: 1 });
    st.handle_workspace_native_event(n1, WorkspaceNativeEvent::Capabilities { raw: 3 });
    st.handle_manager_event(WorkspaceManagerEvent::Done);
    let ws = st.current_workspace(w1).unwrap();
    assert_eq!(ws.tiling, Some(Tagged::Known(1)));
    assert_eq!(ws.native_capabilities, Tagged::Known(3));
}

#[test]
fn fanout_commit_notifies_groups_before_workspaces() {
    let mut st = WorkspaceState::new();
    let g = id(20);
    let w = id(21);
    st.handle_manager_event(WorkspaceManagerEvent::Workspace {
        workspace: w,
        native: None,
    });
    st.handle_manager_event(WorkspaceManagerEvent::WorkspaceGroup { group: g });
    let notices = st.handle_manager_event(WorkspaceManagerEvent::Done);
    assert_eq!(notices.len(), 2);
    assert!(matches!(notices[0], WorkspaceNotice::GroupNew { group } if group == g));
    assert!(matches!(notices[1], WorkspaceNotice::WorkspaceNew { workspace } if workspace == w));
}

#[test]
fn nothing_is_published_before_the_first_commit() {
    let mut st = WorkspaceState::new();
    let g = id(22);
    st.handle_manager_event(WorkspaceManagerEvent::WorkspaceGroup { group: g });
    assert!(st.current_group(g).is_none());
    st.handle_manager_event(WorkspaceManagerEvent::Done);
    assert!(st.current_group(g).is_some());
}
