//! Workspace management: tracks workspace groups and workspaces announced by
//! the compositor, reconciling their event streams into committed snapshots.
//!
//! Field-mutation events (name, coordinates, state, capabilities, output and
//! membership changes) accumulate in each entity's pending snapshot and fire
//! no notice. The manager-level commit sentinel publishes every entity
//! announced so far: the first publication of an entity is an arrival, later
//! ones are updates. Removal is idempotent and fires at most one notice,
//! carrying the published snapshot if one exists, else the pending one.

use vstd::prelude::*;

use crate::codec;
use crate::codec::Tagged;
use crate::identity;
use crate::identity::RemoteIdentity;
use crate::table::{copy_vec, slot_view, spec_removal_snapshot, Duplicable, EntityTable, Slot, SlotView};

verus! {

/// Known state bits of a workspace: active, urgent, hidden.
pub const WORKSPACE_STATE_MASK: u32 = 0x7;

/// Known capability bits of a workspace: activate, deactivate, remove, assign.
pub const WORKSPACE_CAPS_MASK: u32 = 0xf;

/// Known capability bits of a workspace group: create_workspace.
pub const GROUP_CAPS_MASK: u32 = 0x1;

/// Known capability bits the native workspace extension adds: rename,
/// set_tiling_state, pin, move.
pub const NATIVE_WORKSPACE_CAPS_MASK: u32 = 0xf;

/// A workspace group's snapshot: its capability set, the outputs it spans,
/// and the identities of its member workspaces.
#[derive(Debug)]
pub struct WorkspaceGroup {
    /// The group's capability set.
    pub capabilities: Tagged,
    /// The outputs the group is displayed on, in announcement order.
    pub outputs: Vec<RemoteIdentity>,
    /// The member workspaces, without duplicates, in announcement order.
    pub workspaces: Vec<RemoteIdentity>,
}

/// The abstract value of a workspace group snapshot.
pub ghost struct GroupView {
    /// The group's capability set.
    pub capabilities: Tagged,
    /// The outputs the group is displayed on.
    pub outputs: Seq<RemoteIdentity>,
    /// The member workspaces.
    pub workspaces: Seq<RemoteIdentity>,
}

impl View for WorkspaceGroup {
    type V = GroupView;

    open spec fn view(&self) -> GroupView {
        GroupView {
            capabilities: self.capabilities,
            outputs: self.outputs@,
            workspaces: self.workspaces@,
        }
    }
}

impl Duplicable for WorkspaceGroup {
    fn dup(&self) -> (r: Self) {
        WorkspaceGroup {
            capabilities: self.capabilities,
            outputs: copy_vec(&self.outputs),
            workspaces: copy_vec(&self.workspaces),
        }
    }
}

/// A workspace's snapshot: its name, coordinates, state and capability sets,
/// and the fields added by the native extension where it is bound.
#[derive(Debug)]
pub struct Workspace {
    /// The identity of the native extension's handle for this workspace,
    /// where the native extension is bound.
    pub native_id: Option<RemoteIdentity>,
    /// The workspace's human-readable name.
    pub name: String,
    /// The workspace's coordinates, one word per axis.
    pub coordinates: Vec<u32>,
    /// The workspace's state set (active, urgent, hidden).
    pub state: Tagged,
    /// The workspace's capability set.
    pub capabilities: Tagged,
    /// The capability set added by the native extension.
    pub native_capabilities: Tagged,
    /// The tiling state, unknown until the native extension reports it.
    pub tiling: Option<Tagged>,
}

/// The abstract value of a workspace snapshot.
pub ghost struct WorkspaceView {
    /// The identity of the native extension's handle for this workspace.
    pub native_id: Option<RemoteIdentity>,
    /// The workspace's human-readable name.
    pub name: Seq<char>,
    /// The workspace's coordinates.
    pub coordinates: Seq<u32>,
    /// The workspace's state set.
    pub state: Tagged,
    /// The workspace's capability set.
    pub capabilities: Tagged,
    /// The capability set added by the native extension.
    pub native_capabilities: Tagged,
    /// The tiling state, unknown until the native extension reports it.
    pub tiling: Option<Tagged>,
}

impl View for Workspace {
    type V = WorkspaceView;

    open spec fn view(&self) -> WorkspaceView {
        WorkspaceView {
            native_id: self.native_id,
            name: self.name@,
            coordinates: self.coordinates@,
            state: self.state,
            capabilities: self.capabilities,
            native_capabilities: self.native_capabilities,
            tiling: self.tiling,
        }
    }
}

impl Duplicable for Workspace {
    fn dup(&self) -> (r: Self) {
        Workspace {
            native_id: self.native_id,
            name: self.name.clone(),
            coordinates: copy_vec(&self.coordinates),
            state: self.state,
            capabilities: self.capabilities,
            native_capabilities: self.native_capabilities,
            tiling: self.tiling,
        }
    }
}

/// An event of the workspace manager object itself.
#[derive(Debug)]
pub enum WorkspaceManagerEvent {
    /// A new workspace group was announced.
    WorkspaceGroup {
        /// The new group's identity.
        group: RemoteIdentity,
    },
    /// A new workspace was announced.
    Workspace {
        /// The new workspace's identity.
        workspace: RemoteIdentity,
        /// The identity of the native extension's handle for the workspace,
        /// where the native extension is bound.
        native: Option<RemoteIdentity>,
    },
    /// The commit sentinel: the preceding batch of events is complete, and
    /// every entity announced so far is published.
    Done,
    /// The compositor will send no further workspace events.
    Finished,
}

/// An event of one workspace group.
#[derive(Debug)]
pub enum WorkspaceGroupEvent {
    /// The group's capability set changed.
    Capabilities {
        /// The raw capability word.
        raw: u32,
    },
    /// The group is now displayed on one more output.
    OutputEnter {
        /// The output's identity.
        output: RemoteIdentity,
    },
    /// The group left an output.
    OutputLeave {
        /// The output's identity.
        output: RemoteIdentity,
    },
    /// A workspace became a member of the group.
    WorkspaceEnter {
        /// The workspace's identity.
        workspace: RemoteIdentity,
    },
    /// A workspace left the group.
    WorkspaceLeave {
        /// The workspace's identity.
        workspace: RemoteIdentity,
    },
    /// The group was removed.
    Removed,
}

/// An event of one workspace.
#[derive(Debug)]
pub enum WorkspaceEvent {
    /// The workspace's name changed.
    Name {
        /// The new name.
        name: String,
    },
    /// The workspace's coordinates changed; a full replacement, one 4-byte
    /// little-endian word per axis.
    Coordinates {
        /// The raw coordinate bytes.
        coordinates: Vec<u8>,
    },
    /// The workspace's state set changed.
    State {
        /// The raw state word.
        raw: u32,
    },
    /// The workspace's capability set changed.
    Capabilities {
        /// The raw capability word.
        raw: u32,
    },
    /// The workspace was removed.
    Removed,
}

/// An event of the native extension's handle for one workspace.
#[derive(Debug)]
pub enum WorkspaceNativeEvent {
    /// The native capability set changed.
    Capabilities {
        /// The raw capability word.
        raw: u32,
    },
    /// The tiling state changed.
    TilingState {
        /// The raw tiling state value.
        raw: u32,
    },
}

/// A lifecycle notice handed to the consumer.
#[derive(Debug)]
pub enum WorkspaceNotice {
    /// A group's first snapshot was published.
    GroupNew {
        /// The group's identity.
        group: RemoteIdentity,
    },
    /// A group's snapshot was published again.
    GroupUpdated {
        /// The group's identity.
        group: RemoteIdentity,
    },
    /// A group was removed; carries the last published snapshot, or the
    /// pending one if none was ever published.
    GroupRemoved {
        /// The group's identity.
        group: RemoteIdentity,
        /// The group's last available snapshot.
        snapshot: WorkspaceGroup,
    },
    /// A workspace's first snapshot was published.
    WorkspaceNew {
        /// The workspace's identity.
        workspace: RemoteIdentity,
    },
    /// A workspace's snapshot was published again.
    WorkspaceUpdated {
        /// The workspace's identity.
        workspace: RemoteIdentity,
    },
    /// A workspace was removed; carries the last published snapshot, or the
    /// pending one if none was ever published.
    WorkspaceRemoved {
        /// The workspace's identity.
        workspace: RemoteIdentity,
        /// The workspace's last available snapshot.
        snapshot: Workspace,
    },
}

/// The pending snapshot a newly announced group starts from: empty
/// capability set, no outputs, no members.
pub open spec fn spec_initial_group() -> GroupView {
    GroupView {
        capabilities: Tagged::Known(0),
        outputs: Seq::empty(),
        workspaces: Seq::empty(),
    }
}

/// The pending snapshot a newly announced workspace starts from: empty name
/// and coordinates, empty state and capability sets, unknown tiling state.
pub open spec fn spec_initial_workspace(native: Option<RemoteIdentity>) -> WorkspaceView {
    WorkspaceView {
        native_id: native,
        name: Seq::empty(),
        coordinates: Seq::empty(),
        state: Tagged::Known(0),
        capabilities: Tagged::Known(0),
        native_capabilities: Tagged::Known(0),
        tiling: None,
    }
}

/// How one field-mutation event changes a group's pending snapshot.
/// Output enter and leave are incremental; membership has set semantics.
pub open spec fn spec_group_apply(g: GroupView, e: WorkspaceGroupEvent) -> GroupView {
    match e {
        WorkspaceGroupEvent::Capabilities { raw } => GroupView {
            capabilities: codec::spec_decode_flags(raw, GROUP_CAPS_MASK),
            ..g
        },
        WorkspaceGroupEvent::OutputEnter { output } => GroupView {
            outputs: g.outputs.push(output),
            ..g
        },
        WorkspaceGroupEvent::OutputLeave { output } => GroupView {
            outputs: identity::spec_remove_first(g.outputs, output),
            ..g
        },
        WorkspaceGroupEvent::WorkspaceEnter { workspace } => {
            if g.workspaces.contains(workspace) {
                g
            } else {
                GroupView { workspaces: g.workspaces.push(workspace), ..g }
            }
        },
        WorkspaceGroupEvent::WorkspaceLeave { workspace } => GroupView {
            workspaces: identity::spec_remove_first(g.workspaces, workspace),
            ..g
        },
        WorkspaceGroupEvent::Removed => g,
    }
}

/// How one field-mutation event changes a workspace's pending snapshot.
/// Name, state and capabilities replace the field; coordinates are a full
/// replacement decoded from 4-byte little-endian words.
pub open spec fn spec_workspace_apply(w: WorkspaceView, e: WorkspaceEvent) -> WorkspaceView {
    match e {
        WorkspaceEvent::Name { name } => WorkspaceView { name: name@, ..w },
        WorkspaceEvent::Coordinates { coordinates } => WorkspaceView {
            coordinates: codec::spec_words(coordinates@),
            ..w
        },
        WorkspaceEvent::State { raw } => WorkspaceView {
            state: codec::spec_decode_flags(raw, WORKSPACE_STATE_MASK),
            ..w
        },
        WorkspaceEvent::Capabilities { raw } => WorkspaceView {
            capabilities: codec::spec_decode_flags(raw, WORKSPACE_CAPS_MASK),
            ..w
        },
        WorkspaceEvent::Removed => w,
    }
}

/// How one event of the native extension changes a workspace's pending
/// snapshot.
pub open spec fn spec_workspace_native_apply(w: WorkspaceView, e: WorkspaceNativeEvent) -> WorkspaceView {
    match e {
        WorkspaceNativeEvent::Capabilities { raw } => WorkspaceView {
            native_capabilities: codec::spec_decode_flags(raw, NATIVE_WORKSPACE_CAPS_MASK),
            ..w
        },
        WorkspaceNativeEvent::TilingState { raw } => WorkspaceView {
            tiling: Some(codec::spec_decode_enum(raw, seq![0u32, 1u32])),
            ..w
        },
    }
}

/// A group snapshot's membership list holds no duplicates: each member
/// workspace appears at most once.
pub open spec fn spec_group_members_wf(g: WorkspaceGroup) -> bool {
    identity::spec_no_dups(g.workspaces@)
}

/// A field-mutation event's effect on one entity's publication state: the
/// pending accumulator moves, the published snapshot stays.
pub open spec fn spec_ws_field_step(s: SlotView<WorkspaceView>, e: WorkspaceEvent) -> SlotView<
    WorkspaceView,
> {
    SlotView { pending: spec_workspace_apply(s.pending, e), current: s.current }
}

/// The cumulative application of a sequence of field-mutation events to a
/// workspace's pending snapshot.
pub open spec fn spec_workspace_fold(w: WorkspaceView, events: Seq<WorkspaceEvent>) -> WorkspaceView
    decreases events.len(),
{
    if events.len() == 0 {
        w
    } else {
        spec_workspace_fold(spec_workspace_apply(w, events[0]), events.drop_first())
    }
}

/// A sequence of field-mutation events run over one entity's publication
/// state.
pub open spec fn spec_ws_field_run(s: SlotView<WorkspaceView>, events: Seq<WorkspaceEvent>) -> SlotView<
    WorkspaceView,
>
    decreases events.len(),
{
    if events.len() == 0 {
        s
    } else {
        spec_ws_field_run(spec_ws_field_step(s, events[0]), events.drop_first())
    }
}

/// The commit sentinel's effect on one entity's publication state: the
/// pending accumulator is published and retained.
pub open spec fn spec_ws_commit(s: SlotView<WorkspaceView>) -> SlotView<WorkspaceView> {
    SlotView { pending: s.pending, current: Some(s.pending) }
}

/// Whether a commit of this publication state is an arrival (the entity's
/// first publication) rather than an update.
pub open spec fn spec_ws_commit_is_arrival(s: SlotView<WorkspaceView>) -> bool {
    s.current is None
}

/// Commit atomicity: for every sequence of field-mutation events followed by
/// one commit sentinel, the published snapshot equals the cumulative
/// application of all the events to the pending snapshot as it stood after
/// the last commit, and the publication is an arrival exactly when no commit
/// had happened before the events — so the single notice the commit fires is
/// an arrival or an update regardless of the field events in between.
pub proof fn lemma_commit_atomicity(s: SlotView<WorkspaceView>, events: Seq<WorkspaceEvent>)
    ensures
        spec_ws_field_run(s, events).current == s.current,
        spec_ws_field_run(s, events).pending == spec_workspace_fold(s.pending, events),
        spec_ws_commit(spec_ws_field_run(s, events)).current == Some(
            spec_workspace_fold(s.pending, events),
        ),
        spec_ws_commit_is_arrival(spec_ws_field_run(s, events)) == (s.current is None),
    decreases events.len(),
{
    if events.len() == 0 {
    } else {
        lemma_commit_atomicity(spec_ws_field_step(s, events[0]), events.drop_first());
    }
}

/// The state synchronizer for the workspace extension family: the live
/// tables of workspace groups and workspaces.
#[derive(Debug)]
pub struct WorkspaceState {
    /// The tracked workspace groups, in announcement order.
    pub groups: EntityTable<WorkspaceGroup>,
    /// The tracked workspaces, in announcement order.
    pub workspaces: EntityTable<Workspace>,
}

impl WorkspaceState {
    /// Well-formed: each table keys its entities uniquely, and every group
    /// snapshot — pending or published — lists each member workspace at
    /// most once.
    pub open spec fn wf(&self) -> bool {
        &&& self.groups.wf()
        &&& self.workspaces.wf()
        &&& forall|k: int|
            0 <= k < self.groups.s().len() ==> {
                let sl = #[trigger] self.groups.s()[k];
                &&& spec_group_members_wf(sl.pending)
                &&& (sl.current matches Some(c) ==> spec_group_members_wf(c))
            }
    }

    /// Whether a workspace with this native-extension handle identity is
    /// tracked.
    pub open spec fn spec_contains_native(&self, native: RemoteIdentity) -> bool {
        exists|i: int|
            0 <= i < self.workspaces.s().len() && (#[trigger] self.workspaces.s()[i]).pending.native_id
                == Some(native)
    }

    /// Creates an empty synchronizer with no tracked entities.
    pub fn new() -> (r: Self)
        ensures
            r.wf(),
            r.groups.s().len() == 0,
            r.workspaces.s().len() == 0,
    {
        WorkspaceState { groups: EntityTable::new(), workspaces: EntityTable::new() }
    }

    /// The tracked workspace groups, in announcement order.
    pub fn workspace_groups(&self) -> (r: &Vec<Slot<WorkspaceGroup>>)
        ensures
            r@ == self.groups.s(),
    {
        &self.groups.slots
    }

    /// The tracked workspaces, in announcement order.
    pub fn workspaces(&self) -> (r: &Vec<Slot<Workspace>>)
        ensures
            r@ == self.workspaces.s(),
    {
        &self.workspaces.slots
    }

    /// The published snapshot of one workspace, if any.
    pub fn current_workspace(&self, workspace: RemoteIdentity) -> (r: Option<&Workspace>)
        requires
            self.wf(),
        ensures
            match r {
                Some(c) => exists|i: int|
                    0 <= i < self.workspaces.s().len() && (#[trigger] self.workspaces.s()[i]).id
                        == workspace && self.workspaces.s()[i].current == Some(*c),
                None => forall|i: int|
                    0 <= i < self.workspaces.s().len() && (#[trigger] self.workspaces.s()[i]).id
                        == workspace ==> self.workspaces.s()[i].current is None,
            },
    {
        self.workspaces.current_of(workspace)
    }

    /// The published snapshot of one workspace group, if any.
    pub fn current_group(&self, group: RemoteIdentity) -> (r: Option<&WorkspaceGroup>)
        requires
            self.wf(),
        ensures
            match r {
                Some(c) => exists|i: int|
                    0 <= i < self.groups.s().len() && (#[trigger] self.groups.s()[i]).id == group
                        && self.groups.s()[i].current == Some(*c),
                None => forall|i: int|
                    0 <= i < self.groups.s().len() && (#[trigger] self.groups.s()[i]).id == group
                        ==> self.groups.s()[i].current is None,
            },
    {
        self.groups.current_of(group)
    }

    /// Handles an event of the manager object: announcements insert a new
    /// entity with an empty pending snapshot and fire no notice; the commit
    /// sentinel publishes every entity announced so far, in table order,
    /// groups first, firing exactly one arrival-or-update notice per entity.
    pub fn handle_manager_event(&mut self, e: WorkspaceManagerEvent) -> (r: Vec<WorkspaceNotice>)
        requires
            old(self).wf(),
            match e {
                WorkspaceManagerEvent::WorkspaceGroup { group } => !old(self).groups.spec_contains(
                    group,
                ),
                WorkspaceManagerEvent::Workspace { workspace, native } => {
                    &&& !old(self).workspaces.spec_contains(workspace)
                    &&& (native matches Some(n) ==> !old(self).spec_contains_native(n))
                },
                _ => true,
            },
        ensures
            final(self).wf(),
            match e {
                WorkspaceManagerEvent::WorkspaceGroup { group } => {
                    &&& r@.len() == 0
                    &&& final(self).workspaces == old(self).workspaces
                    &&& final(self).groups.s().len() == old(self).groups.s().len() + 1
                    &&& forall|j: int|
                        0 <= j < old(self).groups.s().len() ==> final(self).groups.s()[j] == old(
                            self,
                        ).groups.s()[j]
                    &&& final(self).groups.s().last().id == group
                    &&& final(self).groups.s().last().pending@ == spec_initial_group()
                    &&& final(self).groups.s().last().current is None
                },
                WorkspaceManagerEvent::Workspace { workspace, native } => {
                    &&& r@.len() == 0
                    &&& final(self).groups == old(self).groups
                    &&& final(self).workspaces.s().len() == old(self).workspaces.s().len() + 1
                    &&& forall|j: int|
                        0 <= j < old(self).workspaces.s().len() ==> final(self).workspaces.s()[j]
                            == old(self).workspaces.s()[j]
                    &&& final(self).workspaces.s().last().id == workspace
                    &&& final(self).workspaces.s().last().pending@ == spec_initial_workspace(native)
                    &&& final(self).workspaces.s().last().current is None
                },
                WorkspaceManagerEvent::Done => {
                    let glen = old(self).groups.s().len() as int;
                    let wlen = old(self).workspaces.s().len() as int;
                    &&& final(self).groups.s().len() == glen
                    &&& final(self).workspaces.s().len() == wlen
                    &&& forall|j: int|
                        0 <= j < glen ==> {
                            &&& (#[trigger] final(self).groups.s()[j]).id == old(
                                self,
                            ).groups.s()[j].id
                            &&& final(self).groups.s()[j].pending == old(self).groups.s()[j].pending
                            &&& slot_view(final(self).groups.s()[j]) == spec_group_commit(
                                slot_view(old(self).groups.s()[j]),
                            )
                        }
                    &&& forall|j: int|
                        0 <= j < wlen ==> {
                            &&& (#[trigger] final(self).workspaces.s()[j]).id == old(
                                self,
                            ).workspaces.s()[j].id
                            &&& final(self).workspaces.s()[j].pending == old(
                                self,
                            ).workspaces.s()[j].pending
                            &&& slot_view(final(self).workspaces.s()[j]) == spec_ws_commit(
                                slot_view(old(self).workspaces.s()[j]),
                            )
                        }
                    &&& r@.len() == glen + wlen
                    &&& forall|j: int|
                        0 <= j < glen ==> #[trigger] r@[j] == (if old(
                            self,
                        ).groups.s()[j].current is None {
                            WorkspaceNotice::GroupNew { group: old(self).groups.s()[j].id }
                        } else {
                            WorkspaceNotice::GroupUpdated { group: old(self).groups.s()[j].id }
                        })
                    &&& forall|j: int|
                        0 <= j < wlen ==> #[trigger] r@[glen + j] == (if old(
                            self,
                        ).workspaces.s()[j].current is None {
                            WorkspaceNotice::WorkspaceNew {
                                workspace: old(self).workspaces.s()[j].id,
                            }
                        } else {
                            WorkspaceNotice::WorkspaceUpdated {
                                workspace: old(self).workspaces.s()[j].id,
                            }
                        })
                },
                WorkspaceManagerEvent::Finished => {
                    &&& r@.len() == 0
                    &&& final(self).groups == old(self).groups
                    &&& final(self).workspaces == old(self).workspaces
                },
            },
    {
        match e {
            WorkspaceManagerEvent::WorkspaceGroup { group } => {
                let pending = WorkspaceGroup {
                    capabilities: Tagged::Known(0),
                    outputs: Vec::new(),
                    workspaces: Vec::new(),
                };
                proof {
                    assert(pending@.outputs =~= spec_initial_group().outputs);
                    assert(pending@.workspaces =~= spec_initial_group().workspaces);
                }
                self.groups.insert_new(group, pending);
                proof {
                    assert forall|k: int|
                        0 <= k < self.groups.s().len() implies {
                            let sl = #[trigger] self.groups.s()[k];
                            &&& spec_group_members_wf(sl.pending)
                            &&& (sl.current matches Some(c) ==> spec_group_members_wf(c))
                        } by {
                        if k < old(self).groups.s().len() {
                            assert(self.groups.s()[k] == old(self).groups.s()[k]);
                        } else {
                            assert(self.groups.s()[k] == self.groups.s().last());
                            assert(self.groups.s().last().pending.workspaces@.len() == 0);
                        }
                    }
                }
                Vec::new()
            },
            WorkspaceManagerEvent::Workspace { workspace, native } => {
                let pending = Workspace {
                    native_id: native,
                    name: String::new(),
                    coordinates: Vec::new(),
                    state: Tagged::Known(0),
                    capabilities: Tagged::Known(0),
                    native_capabilities: Tagged::Known(0),
                    tiling: None,
                };
                proof {
                    assert(pending@.name =~= spec_initial_workspace(native).name);
                    assert(pending@.coordinates =~= spec_initial_workspace(native).coordinates);
                }
                self.workspaces.insert_new(workspace, pending);
                Vec::new()
            },
            WorkspaceManagerEvent::Done => {
                let gr = self.groups.commit_all();
                let wr = self.workspaces.commit_all();
                proof {
                    assert forall|k: int|
                        0 <= k < self.groups.s().len() implies {
                            let sl = #[trigger] self.groups.s()[k];
                            &&& spec_group_members_wf(sl.pending)
                            &&& (sl.current matches Some(c) ==> spec_group_members_wf(c))
                        } by {
                        let o = old(self).groups.s()[k];
                        assert(self.groups.s()[k].pending == o.pending);
                        if let Some(c) = self.groups.s()[k].current {
                            assert(c@ == o.pending@);
                            assert(c.workspaces@ == o.pending.workspaces@);
                        }
                    }
                }
                let mut r: Vec<WorkspaceNotice> = Vec::new();
                let mut i: usize = 0;
                while i < gr.len()
                    invariant
                        gr@.len() == old(self).groups.s().len(),
                        forall|j: int|
                            0 <= j < gr@.len() ==> #[trigger] gr@[j] == (
                            old(self).groups.s()[j].id,
                            old(self).groups.s()[j].current is None,
                            ),
                        i <= gr@.len(),
                        r@.len() == i,
                        forall|j: int|
                            0 <= j < i ==> #[trigger] r@[j] == (if old(
                                self,
                            ).groups.s()[j].current is None {
                                WorkspaceNotice::GroupNew { group: old(self).groups.s()[j].id }
                            } else {
                                WorkspaceNotice::GroupUpdated { group: old(self).groups.s()[j].id }
                            }),
                    decreases gr@.len() - i,
                {
                    let (id, was_new) = gr[i];
                    if was_new {
                        r.push(WorkspaceNotice::GroupNew { group: id });
                    } else {
                        r.push(WorkspaceNotice::GroupUpdated { group: id });
                    }
                    i = i + 1;
                }
                let ghost glen = gr@.len() as int;
                let mut k: usize = 0;
                while k < wr.len()
                    invariant
                        glen == old(self).groups.s().len(),
                        wr@.len() == old(self).workspaces.s().len(),
                        forall|j: int|
                            0 <= j < wr@.len() ==> #[trigger] wr@[j] == (
                            old(self).workspaces.s()[j].id,
                            old(self).workspaces.s()[j].current is None,
                            ),
                        k <= wr@.len(),
                        r@.len() == glen + k,
                        forall|j: int|
                            0 <= j < glen ==> #[trigger] r@[j] == (if old(
                                self,
                            ).groups.s()[j].current is None {
                                WorkspaceNotice::GroupNew { group: old(self).groups.s()[j].id }
                            } else {
                                WorkspaceNotice::GroupUpdated { group: old(self).groups.s()[j].id }
                            }),
                        forall|j: int|
                            0 <= j < k ==> #[trigger] r@[glen + j] == (if old(
                                self,
                            ).workspaces.s()[j].current is None {
                                WorkspaceNotice::WorkspaceNew {
                                    workspace: old(self).workspaces.s()[j].id,
                                }
                            } else {
                                WorkspaceNotice::WorkspaceUpdated {
                                    workspace: old(self).workspaces.s()[j].id,
                                }
                            }),
                    decreases wr@.len() - k,
                {
                    let (id, was_new) = wr[k];
                    if was_new {
                        r.push(WorkspaceNotice::WorkspaceNew { workspace: id });
                    } else {
                        r.push(WorkspaceNotice::WorkspaceUpdated { workspace: id });
                    }
                    k = k + 1;
                }
                r
            },
            WorkspaceManagerEvent::Finished => Vec::new(),
        }
    }
}

/// The commit sentinel's effect on one group's publication state: the
/// pending accumulator is published and retained.
pub open spec fn spec_group_commit(s: SlotView<GroupView>) -> SlotView<GroupView> {
    SlotView { pending: s.pending, current: Some(s.pending) }
}

/// What removing a workspace group does: if the identity is tracked, its
/// slot leaves the table and exactly one notice fires, carrying the last
/// available snapshot; if it is not tracked (already removed, perhaps by an
/// earlier removal), nothing changes and nothing fires. Member workspaces
/// are not touched.
pub open spec fn spec_group_removed(
    pre: WorkspaceState,
    post: WorkspaceState,
    group: RemoteIdentity,
    notices: Seq<WorkspaceNotice>,
) -> bool {
    &&& post.workspaces == pre.workspaces
    &&& (pre.groups.spec_contains(group) ==> exists|i: int|
        {
            &&& 0 <= i < pre.groups.s().len()
            &&& (#[trigger] pre.groups.s()[i]).id == group
            &&& post.groups.s() == pre.groups.s().remove(i)
            &&& notices.len() == 1
            &&& notices[0] == (WorkspaceNotice::GroupRemoved {
                group,
                snapshot: spec_removal_snapshot(pre.groups.s()[i]),
            })
        })
    &&& (!pre.groups.spec_contains(group) ==> post.groups == pre.groups && notices.len() == 0)
    &&& !post.groups.spec_contains(group)
}

/// What removing a workspace does: every group's pending membership drops
/// its first occurrence of the identity (the cascade), and if the identity
/// is tracked its slot leaves the table and exactly one notice fires,
/// carrying the last available snapshot; if it is not tracked, the workspace
/// table is unchanged and nothing fires.
pub open spec fn spec_workspace_removed(
    pre: WorkspaceState,
    post: WorkspaceState,
    workspace: RemoteIdentity,
    notices: Seq<WorkspaceNotice>,
) -> bool {
    &&& post.groups.s().len() == pre.groups.s().len()
    &&& forall|j: int|
        0 <= j < pre.groups.s().len() ==> {
            let o = #[trigger] pre.groups.s()[j];
            let n = post.groups.s()[j];
            &&& n.id == o.id
            &&& n.current == o.current
            &&& n.pending.capabilities == o.pending.capabilities
            &&& n.pending.outputs == o.pending.outputs
            &&& n.pending.workspaces@ == identity::spec_remove_first(
                o.pending.workspaces@,
                workspace,
            )
            &&& !n.pending.workspaces@.contains(workspace)
        }
    &&& (pre.workspaces.spec_contains(workspace) ==> exists|i: int|
        {
            &&& 0 <= i < pre.workspaces.s().len()
            &&& (#[trigger] pre.workspaces.s()[i]).id == workspace
            &&& post.workspaces.s() == pre.workspaces.s().remove(i)
            &&& notices.len() == 1
            &&& notices[0] == (WorkspaceNotice::WorkspaceRemoved {
                workspace,
                snapshot: spec_removal_snapshot(pre.workspaces.s()[i]),
            })
        })
    &&& (!pre.workspaces.spec_contains(workspace) ==> post.workspaces == pre.workspaces
        && notices.len() == 0)
    &&& !post.workspaces.spec_contains(workspace)
}

/// Idempotent removal: removing the same workspace identity twice fires a
/// notice at most once; the second removal finds nothing, leaves the
/// workspace table unchanged, and fires nothing.
pub proof fn lemma_workspace_removal_idempotent(
    s0: WorkspaceState,
    s1: WorkspaceState,
    s2: WorkspaceState,
    workspace: RemoteIdentity,
    n1: Seq<WorkspaceNotice>,
    n2: Seq<WorkspaceNotice>,
)
    requires
        spec_workspace_removed(s0, s1, workspace, n1),
        spec_workspace_removed(s1, s2, workspace, n2),
    ensures
        n1.len() <= 1,
        n2.len() == 0,
        s2.workspaces == s1.workspaces,
{
}

/// Idempotent removal: removing the same group identity twice fires a
/// notice at most once; the second removal finds nothing and changes
/// nothing.
pub proof fn lemma_group_removal_idempotent(
    s0: WorkspaceState,
    s1: WorkspaceState,
    s2: WorkspaceState,
    group: RemoteIdentity,
    n1: Seq<WorkspaceNotice>,
    n2: Seq<WorkspaceNotice>,
)
    requires
        spec_group_removed(s0, s1, group, n1),
        spec_group_removed(s1, s2, group, n2),
    ensures
        n1.len() <= 1,
        n2.len() == 0,
        s2 == s1,
{
    assert(s2.groups == s1.groups);
}

impl WorkspaceState {
    /// Handles an event of one workspace group. Field mutations accumulate
    /// in the group's pending snapshot and fire no notice; removal is
    /// idempotent and fires at most one notice.
    pub fn handle_group_event(&mut self, group: RemoteIdentity, e: WorkspaceGroupEvent) -> (r: Vec<
        WorkspaceNotice,
    >)
        requires
            old(self).wf(),
            !(e matches WorkspaceGroupEvent::Removed) ==> old(self).groups.spec_contains(group),
        ensures
            final(self).wf(),
            match e {
                WorkspaceGroupEvent::Removed => spec_group_removed(
                    *old(self),
                    *final(self),
                    group,
                    r@,
                ),
                _ => {
                    &&& r@.len() == 0
                    &&& final(self).workspaces == old(self).workspaces
                    &&& final(self).groups.s().len() == old(self).groups.s().len()
                    &&& forall|j: int|
                        0 <= j < old(self).groups.s().len() && (#[trigger] old(
                            self,
                        ).groups.s()[j]).id != group ==> final(self).groups.s()[j] == old(
                            self,
                        ).groups.s()[j]
                    &&& forall|j: int|
                        0 <= j < old(self).groups.s().len() && (#[trigger] old(
                            self,
                        ).groups.s()[j]).id == group ==> {
                            let o = old(self).groups.s()[j];
                            let n = final(self).groups.s()[j];
                            &&& n.id == o.id
                            &&& n.current == o.current
                            &&& n.pending@ == spec_group_apply(o.pending@, e)
                        }
                },
            },
    {
        match e {
            WorkspaceGroupEvent::Removed => {
                match self.groups.position(group) {
                    Some(i) => {
                        let ghost ii = i as int;
                        let slot = self.groups.remove_at(i);
                        let snapshot = match slot.current {
                            Some(c) => c,
                            None => slot.pending,
                        };
                        let mut r: Vec<WorkspaceNotice> = Vec::new();
                        r.push(WorkspaceNotice::GroupRemoved { group, snapshot });
                        proof {
                            assert forall|k: int|
                                0 <= k < self.groups.s().len() implies {
                                    let sl = #[trigger] self.groups.s()[k];
                                    &&& spec_group_members_wf(sl.pending)
                                    &&& (sl.current matches Some(c) ==> spec_group_members_wf(c))
                                } by {
                                let k0 = if k < ii {
                                    k
                                } else {
                                    k + 1
                                };
                                assert(self.groups.s()[k] == old(self).groups.s()[k0]);
                            }
                            assert(0 <= ii < old(self).groups.s().len() && old(
                                self,
                            ).groups.s()[ii].id == group && self.groups.s() == old(
                                self,
                            ).groups.s().remove(ii) && r@.len() == 1 && r@[0] == (
                            WorkspaceNotice::GroupRemoved {
                                group,
                                snapshot: spec_removal_snapshot(old(self).groups.s()[ii]),
                            }));
                        }
                        r
                    },
                    None => Vec::new(),
                }
            },
            _ => {
                let i = self.groups.position(group).unwrap();
                let ghost ii = i as int;
                let mut slot = self.groups.remove_at(i);
                proof {
                    assert(slot == old(self).groups.s()[ii]);
                    assert(spec_group_members_wf(slot.pending));
                }
                match e {
                    WorkspaceGroupEvent::Capabilities { raw } => {
                        slot.pending.capabilities = codec::decode_flags(raw, GROUP_CAPS_MASK);
                    },
                    WorkspaceGroupEvent::OutputEnter { output } => {
                        slot.pending.outputs.push(output);
                    },
                    WorkspaceGroupEvent::OutputLeave { output } => {
                        identity::remove_first(&mut slot.pending.outputs, output);
                    },
                    WorkspaceGroupEvent::WorkspaceEnter { workspace } => {
                        let ghost before = slot.pending.workspaces@;
                        if identity::find_first(&slot.pending.workspaces, workspace).is_none() {
                            slot.pending.workspaces.push(workspace);
                            proof {
                                assert forall|a: int, b: int|
                                    0 <= a < b < slot.pending.workspaces@.len() implies slot.pending.workspaces@[a]
                                    != slot.pending.workspaces@[b] by {
                                    if b == slot.pending.workspaces@.len() - 1 {
                                        if before[a] == workspace {
                                            assert(before.contains(workspace));
                                        }
                                    }
                                }
                            }
                        }
                    },
                    WorkspaceGroupEvent::WorkspaceLeave { workspace } => {
                        let ghost before = slot.pending.workspaces@;
                        identity::remove_first(&mut slot.pending.workspaces, workspace);
                        proof {
                            identity::lemma_remove_first_no_dups(before, workspace);
                        }
                    },
                    WorkspaceGroupEvent::Removed => {},
                }
                let ghost snap = slot;
                self.groups.insert_at(i, slot);
                proof {
                    assert forall|k: int|
                        0 <= k < self.groups.s().len() implies {
                            let sl = #[trigger] self.groups.s()[k];
                            &&& spec_group_members_wf(sl.pending)
                            &&& (sl.current matches Some(c) ==> spec_group_members_wf(c))
                        } by {
                        if k == ii {
                            assert(self.groups.s()[k] == snap);
                            assert(snap.current == old(self).groups.s()[k].current);
                        } else {
                            if k > ii {
                                assert(self.groups.s()[k] == old(self).groups.s().remove(
                                    ii,
                                )[k - 1]);
                            }
                            assert(self.groups.s()[k] == old(self).groups.s()[k]);
                        }
                    }
                    assert forall|j: int|
                        0 <= j < old(self).groups.s().len() && (#[trigger] old(
                            self,
                        ).groups.s()[j]).id != group implies self.groups.s()[j] == old(
                        self,
                    ).groups.s()[j] by {
                        if j < ii {
                        } else {
                            assert(j != ii);
                            assert(self.groups.s()[j] == old(self).groups.s().remove(ii)[j - 1]);
                        }
                    }
                    assert forall|j: int|
                        0 <= j < old(self).groups.s().len() && (#[trigger] old(
                            self,
                        ).groups.s()[j]).id == group implies j == ii by {
                        if j != ii {
                            assert(old(self).groups.s()[j].id != old(self).groups.s()[ii].id);
                        }
                    }
                }
                Vec::new()
            },
        }
    }

    /// Finds the slot index of the workspace whose native-extension handle
    /// has this identity: the first match in announcement order.
    pub fn find_native(&self, native: RemoteIdentity) -> (r: Option<usize>)
        ensures
            match r {
                Some(i) => {
                    &&& i < self.workspaces.s().len()
                    &&& self.workspaces.s()[i as int].pending.native_id == Some(native)
                    &&& forall|j: int|
                        0 <= j < i ==> (#[trigger] self.workspaces.s()[j]).pending.native_id
                            != Some(native)
                },
                None => !self.spec_contains_native(native),
            },
    {
        let mut i: usize = 0;
        while i < self.workspaces.slots.len()
            invariant
                i <= self.workspaces.s().len(),
                forall|j: int|
                    0 <= j < i ==> (#[trigger] self.workspaces.s()[j]).pending.native_id != Some(
                        native,
                    ),
            decreases self.workspaces.s().len() - i,
        {
            if let Some(n) = self.workspaces.slots[i].pending.native_id {
                if n.id == native.id {
                    return Some(i);
                }
            }
            i = i + 1;
        }
        None
    }

    /// Handles an event of the native extension's handle for a workspace,
    /// keyed by the handle's identity: the first workspace carrying that
    /// native identity accumulates the mutation in its pending snapshot.
    /// No notice fires.
    pub fn handle_workspace_native_event(
        &mut self,
        native: RemoteIdentity,
        e: WorkspaceNativeEvent,
    ) -> (r: Vec<WorkspaceNotice>)
        requires
            old(self).wf(),
            old(self).spec_contains_native(native),
        ensures
            final(self).wf(),
            r@.len() == 0,
            final(self).groups == old(self).groups,
            final(self).workspaces.s().len() == old(self).workspaces.s().len(),
            exists|i: int|
                {
                    &&& 0 <= i < old(self).workspaces.s().len()
                    &&& (#[trigger] old(self).workspaces.s()[i]).pending.native_id == Some(native)
                    &&& forall|j: int|
                        0 <= j < i ==> old(self).workspaces.s()[j].pending.native_id != Some(native)
                    &&& forall|j: int|
                        0 <= j < old(self).workspaces.s().len() && j != i ==> final(self).workspaces.s()[j] == old(self).workspaces.s()[j]
                    &&& final(self).workspaces.s()[i].id == old(self).workspaces.s()[i].id
                    &&& final(self).workspaces.s()[i].current == old(self).workspaces.s()[i].current
                    &&& final(self).workspaces.s()[i].pending@ == spec_workspace_native_apply(
                        old(self).workspaces.s()[i].pending@,
                        e,
                    )
                },
    {
        let i = self.find_native(native).unwrap();
        let ghost ii = i as int;
        let mut slot = self.workspaces.remove_at(i);
        match e {
            WorkspaceNativeEvent::Capabilities { raw } => {
                slot.pending.native_capabilities = codec::decode_flags(
                    raw,
                    NATIVE_WORKSPACE_CAPS_MASK,
                );
            },
            WorkspaceNativeEvent::TilingState { raw } => {
                let table: [u32; 2] = [0, 1];
                let t = codec::decode_enum(raw, table.as_slice());
                proof {
                    assert(table@ =~= seq![0u32, 1u32]);
                }
                slot.pending.tiling = Some(t);
            },
        }
        self.workspaces.insert_at(i, slot);
        proof {
            assert forall|j: int|
                0 <= j < old(self).workspaces.s().len() && j != ii implies self.workspaces.s()[j]
                == old(self).workspaces.s()[j] by {
                if j < ii {
                } else {
                    assert(self.workspaces.s()[j] == old(self).workspaces.s().remove(ii)[j - 1]);
                }
            }
        }
        Vec::new()
    }

    /// Handles an event of one workspace. Field mutations accumulate in the
    /// workspace's pending snapshot and fire no notice; removal cascades
    /// through every group's pending membership, is idempotent, and fires at
    /// most one notice.
    pub fn handle_workspace_event(&mut self, workspace: RemoteIdentity, e: WorkspaceEvent) -> (r:
        Vec<WorkspaceNotice>)
        requires
            old(self).wf(),
            !(e matches WorkspaceEvent::Removed) ==> old(self).workspaces.spec_contains(workspace),
        ensures
            final(self).wf(),
            match e {
                WorkspaceEvent::Removed => spec_workspace_removed(
                    *old(self),
                    *final(self),
                    workspace,
                    r@,
                ),
                _ => {
                    &&& r@.len() == 0
                    &&& final(self).groups == old(self).groups
                    &&& final(self).workspaces.s().len() == old(self).workspaces.s().len()
                    &&& forall|j: int|
                        0 <= j < old(self).workspaces.s().len() && (#[trigger] old(
                            self,
                        ).workspaces.s()[j]).id != workspace ==> final(self).workspaces.s()[j]
                            == old(self).workspaces.s()[j]
                    &&& forall|j: int|
                        0 <= j < old(self).workspaces.s().len() && (#[trigger] old(
                            self,
                        ).workspaces.s()[j]).id == workspace ==> {
                            let o = old(self).workspaces.s()[j];
                            let n = final(self).workspaces.s()[j];
                            &&& n.id == o.id
                            &&& n.current == o.current
                            &&& n.pending@ == spec_workspace_apply(o.pending@, e)
                            &&& slot_view(n) == spec_ws_field_step(slot_view(o), e)
                        }
                },
            },
    {
        match e {
            WorkspaceEvent::Removed => {
                let mut gi: usize = 0;
                while gi < self.groups.len()
                    invariant
                        self.groups.wf(),
                        self.workspaces == old(self).workspaces,
                        self.groups.s().len() == old(self).groups.s().len(),
                        gi <= self.groups.s().len(),
                        forall|j: int|
                            gi <= j < self.groups.s().len() ==> self.groups.s()[j] == old(
                                self,
                            ).groups.s()[j],
                        forall|j: int|
                            0 <= j < gi ==> {
                                let o = #[trigger] old(self).groups.s()[j];
                                let n = self.groups.s()[j];
                                &&& n.id == o.id
                                &&& n.current == o.current
                                &&& n.pending.capabilities == o.pending.capabilities
                                &&& n.pending.outputs == o.pending.outputs
                                &&& n.pending.workspaces@ == identity::spec_remove_first(
                                    o.pending.workspaces@,
                                    workspace,
                                )
                            },
                    decreases self.groups.s().len() - gi,
                {
                    let ghost gg = gi as int;
                    let ghost pre = *self;
                    let mut gslot = self.groups.remove_at(gi);
                    identity::remove_first(&mut gslot.pending.workspaces, workspace);
                    self.groups.insert_at(gi, gslot);
                    proof {
                        assert forall|j: int|
                            0 <= j < self.groups.s().len() && j != gg implies self.groups.s()[j]
                            == pre.groups.s()[j] by {
                            if j < gg {
                            } else {
                                assert(self.groups.s()[j] == pre.groups.s().remove(gg)[j - 1]);
                            }
                        }
                    }
                    gi = gi + 1;
                }
                proof {
                    assert forall|k: int|
                        0 <= k < self.groups.s().len() implies {
                            let sl = #[trigger] self.groups.s()[k];
                            &&& spec_group_members_wf(sl.pending)
                            &&& (sl.current matches Some(c) ==> spec_group_members_wf(c))
                            &&& !sl.pending.workspaces@.contains(workspace)
                        } by {
                        let o = old(self).groups.s()[k];
                        assert(self.groups.s()[k].pending.workspaces@
                            == identity::spec_remove_first(o.pending.workspaces@, workspace));
                        assert(self.groups.s()[k].current == o.current);
                        identity::lemma_remove_first_no_dups(o.pending.workspaces@, workspace);
                    }
                }
                match self.workspaces.position(workspace) {
                    Some(i) => {
                        let ghost ii = i as int;
                        let slot = self.workspaces.remove_at(i);
                        let snapshot = match slot.current {
                            Some(c) => c,
                            None => slot.pending,
                        };
                        let mut r: Vec<WorkspaceNotice> = Vec::new();
                        r.push(WorkspaceNotice::WorkspaceRemoved { workspace, snapshot });
                        proof {
                            assert(0 <= ii < old(self).workspaces.s().len() && old(
                                self,
                            ).workspaces.s()[ii].id == workspace && self.workspaces.s() == old(
                                self,
                            ).workspaces.s().remove(ii) && r@.len() == 1 && r@[0] == (
                            WorkspaceNotice::WorkspaceRemoved {
                                workspace,
                                snapshot: spec_removal_snapshot(old(self).workspaces.s()[ii]),
                            }));
                        }
                        r
                    },
                    None => Vec::new(),
                }
            },
            _ => {
                let i = self.workspaces.position(workspace).unwrap();
                let ghost ii = i as int;
                let mut slot = self.workspaces.remove_at(i);
                match e {
                    WorkspaceEvent::Name { name } => {
                        slot.pending.name = name;
                    },
                    WorkspaceEvent::Coordinates { coordinates } => {
                        slot.pending.coordinates = codec::decode_words(coordinates.as_slice());
                    },
                    WorkspaceEvent::State { raw } => {
                        slot.pending.state = codec::decode_flags(raw, WORKSPACE_STATE_MASK);
                    },
                    WorkspaceEvent::Capabilities { raw } => {
                        slot.pending.capabilities = codec::decode_flags(raw, WORKSPACE_CAPS_MASK);
                    },
                    WorkspaceEvent::Removed => {},
                }
                self.workspaces.insert_at(i, slot);
                proof {
                    assert forall|j: int|
                        0 <= j < old(self).workspaces.s().len() && (#[trigger] old(
                            self,
                        ).workspaces.s()[j]).id != workspace implies self.workspaces.s()[j] == old(
                        self,
                    ).workspaces.s()[j] by {
                        if j < ii {
                        } else {
                            assert(j != ii);
                            assert(self.workspaces.s()[j] == old(self).workspaces.s().remove(
                                ii,
                            )[j - 1]);
                        }
                    }
                    assert forall|j: int|
                        0 <= j < old(self).workspaces.s().len() && (#[trigger] old(
                            self,
                        ).workspaces.s()[j]).id == workspace implies j == ii by {
                        if j != ii {
                            assert(old(self).workspaces.s()[j].id != old(
                                self,
                            ).workspaces.s()[ii].id);
                        }
                    }
                }
                Vec::new()
            },
        }
    }
}

} // verus!
