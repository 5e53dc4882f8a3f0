//! Toplevel enumeration: tracks toplevel windows announced by the
//! compositor's foreign-toplevel listing, reconciling their event streams
//! into committed snapshots.
//!
//! Each toplevel is announced on the portable listing and simultaneously
//! given a native-extension handle that carries the richer fields (outputs,
//! workspaces, state, per-output geometry). Field mutations accumulate in
//! the pending snapshot; the per-toplevel commit sentinel publishes it and
//! fires exactly one arrival-or-update notice. Fields no event has touched
//! yet are published in their explicit empty/unknown state. A close event
//! is idempotent and fires exactly one notice, carrying whatever snapshot
//! is available, even if no commit ever happened.

use vstd::prelude::*;

use crate::codec;
use crate::codec::Tagged;
use crate::identity;
use crate::identity::RemoteIdentity;
use crate::table::{copy_vec, slot_view, spec_removal_snapshot, Duplicable, EntityTable, Slot, SlotView};

verus! {

/// The position and size of a toplevel on one output.
#[derive(Clone, Copy, Debug, PartialEq, Eq, Structural)]
pub struct ToplevelGeometry {
    /// Horizontal position on the output.
    pub x: i32,
    /// Vertical position on the output.
    pub y: i32,
    /// Width on the output.
    pub width: i32,
    /// Height on the output.
    pub height: i32,
}

/// A toplevel's snapshot.
#[derive(Debug)]
pub struct ToplevelInfo {
    /// The identity of the native extension's handle for this toplevel.
    pub native_id: RemoteIdentity,
    /// The window title.
    pub title: String,
    /// The application identifier.
    pub app_id: String,
    /// The stable string identifier, where the compositor provides one.
    pub identifier: Option<String>,
    /// The decoded state words (maximized, minimized, activated, ...), one
    /// tagged value per wire word, order preserved; a full replacement on
    /// each state event.
    pub state: Vec<Tagged>,
    /// The outputs the toplevel is visible on, without duplicates.
    pub outputs: Vec<RemoteIdentity>,
    /// The toplevel's geometry on each output it is visible on.
    pub geometry: Vec<(RemoteIdentity, ToplevelGeometry)>,
    /// The workspaces the toplevel is on, without duplicates.
    pub workspaces: Vec<RemoteIdentity>,
}

/// The abstract value of a toplevel snapshot.
pub ghost struct ToplevelView {
    /// The identity of the native extension's handle.
    pub native_id: RemoteIdentity,
    /// The window title.
    pub title: Seq<char>,
    /// The application identifier.
    pub app_id: Seq<char>,
    /// The stable string identifier, if any.
    pub identifier: Option<Seq<char>>,
    /// The decoded state words.
    pub state: Seq<Tagged>,
    /// The outputs the toplevel is visible on.
    pub outputs: Seq<RemoteIdentity>,
    /// The toplevel's geometry on each output.
    pub geometry: Seq<(RemoteIdentity, ToplevelGeometry)>,
    /// The workspaces the toplevel is on.
    pub workspaces: Seq<RemoteIdentity>,
}

impl View for ToplevelInfo {
    type V = ToplevelView;

    open spec fn view(&self) -> ToplevelView {
        ToplevelView {
            native_id: self.native_id,
            title: self.title@,
            app_id: self.app_id@,
            identifier: match self.identifier {
                Some(s) => Some(s@),
                None => None,
            },
            state: self.state@,
            outputs: self.outputs@,
            geometry: self.geometry@,
            workspaces: self.workspaces@,
        }
    }
}

impl Duplicable for ToplevelInfo {
    fn dup(&self) -> (r: Self) {
        ToplevelInfo {
            native_id: self.native_id,
            title: self.title.clone(),
            app_id: self.app_id.clone(),
            identifier: match &self.identifier {
                Some(s) => Some(s.clone()),
                None => None,
            },
            state: copy_vec(&self.state),
            outputs: copy_vec(&self.outputs),
            geometry: copy_vec(&self.geometry),
            workspaces: copy_vec(&self.workspaces),
        }
    }
}

/// The index of the first geometry entry for `output`, or `-1` if absent.
pub open spec fn spec_geo_index(
    s: Seq<(RemoteIdentity, ToplevelGeometry)>,
    output: RemoteIdentity,
) -> int
    decreases s.len(),
{
    if s.len() == 0 {
        -1
    } else if s[0].0 == output {
        0
    } else {
        let r = spec_geo_index(s.drop_first(), output);
        if r < 0 {
            -1
        } else {
            r + 1
        }
    }
}

/// The geometry list with the entry for `output` replaced, or appended if
/// absent.
pub open spec fn spec_geo_set(
    s: Seq<(RemoteIdentity, ToplevelGeometry)>,
    output: RemoteIdentity,
    g: ToplevelGeometry,
) -> Seq<(RemoteIdentity, ToplevelGeometry)> {
    let i = spec_geo_index(s, output);
    if i < 0 {
        s.push((output, g))
    } else {
        s.update(i, (output, g))
    }
}

/// The geometry list with the first entry for `output` removed; unchanged
/// if absent.
pub open spec fn spec_geo_remove(
    s: Seq<(RemoteIdentity, ToplevelGeometry)>,
    output: RemoteIdentity,
) -> Seq<(RemoteIdentity, ToplevelGeometry)> {
    let i = spec_geo_index(s, output);
    if i < 0 {
        s
    } else {
        s.remove(i)
    }
}

/// What `spec_geo_index` means: `-1` exactly when no entry carries the
/// output, and otherwise the smallest index of such an entry.
pub proof fn lemma_geo_index(s: Seq<(RemoteIdentity, ToplevelGeometry)>, output: RemoteIdentity)
    ensures
        spec_geo_index(s, output) == -1 ==> forall|j: int|
            0 <= j < s.len() ==> (#[trigger] s[j]).0 != output,
        spec_geo_index(s, output) != -1 ==> {
            let i = spec_geo_index(s, output);
            &&& 0 <= i < s.len()
            &&& s[i].0 == output
            &&& forall|j: int| 0 <= j < i ==> (#[trigger] s[j]).0 != output
        },
    decreases s.len(),
{
    if s.len() == 0 {
    } else if s[0].0 == output {
    } else {
        lemma_geo_index(s.drop_first(), output);
        let t = s.drop_first();
        let r = spec_geo_index(t, output);
        if r < 0 {
            assert forall|j: int| 0 <= j < s.len() implies (#[trigger] s[j]).0 != output by {
                if j > 0 {
                    assert(s[j] == t[j - 1]);
                }
            }
        } else {
            assert(s[r + 1] == t[r]);
            assert forall|j: int| 0 <= j < r + 1 implies (#[trigger] s[j]).0 != output by {
                if j > 0 {
                    assert(s[j] == t[j - 1]);
                }
            }
        }
    }
}

/// Finds the first geometry entry for `output`.
fn find_geo(v: &Vec<(RemoteIdentity, ToplevelGeometry)>, output: RemoteIdentity) -> (r: Option<
    usize,
>)
    ensures
        match r {
            Some(i) => i == spec_geo_index(v@, output) && i < v@.len() && v@[i as int].0 == output,
            None => spec_geo_index(v@, output) == -1,
        },
{
    proof {
        lemma_geo_index(v@, output);
    }
    let mut i: usize = 0;
    while i < v.len()
        invariant
            i <= v@.len(),
            forall|j: int| 0 <= j < i ==> (#[trigger] v@[j]).0 != output,
            spec_geo_index(v@, output) != -1 ==> {
                let fi = spec_geo_index(v@, output);
                &&& 0 <= fi < v@.len()
                &&& v@[fi].0 == output
                &&& forall|j: int| 0 <= j < fi ==> (#[trigger] v@[j]).0 != output
            },
            spec_geo_index(v@, output) == -1 ==> forall|j: int|
                0 <= j < v@.len() ==> (#[trigger] v@[j]).0 != output,
        decreases v@.len() - i,
    {
        if v[i].0.id == output.id {
            proof {
                let fi = spec_geo_index(v@, output);
                assert(fi != -1);
                assert(fi == i as int);
            }
            return Some(i);
        }
        i = i + 1;
    }
    None
}

/// The known state words of a toplevel: maximized, minimized, activated,
/// fullscreen, sticky.
pub open spec fn spec_toplevel_state_table() -> Seq<u32> {
    seq![0u32, 1u32, 2u32, 3u32, 4u32]
}

/// An event of the portable toplevel listing object.
#[derive(Debug)]
pub enum ToplevelListEvent {
    /// A new toplevel was announced, together with the identity of the
    /// native-extension handle created for it.
    Toplevel {
        /// The new toplevel's identity on the portable listing.
        toplevel: RemoteIdentity,
        /// The identity of the native extension's handle for it.
        native: RemoteIdentity,
    },
    /// The compositor will announce no further toplevels.
    Finished,
}

/// An event of one toplevel's portable handle.
#[derive(Debug)]
pub enum ToplevelEvent {
    /// The window title changed.
    Title {
        /// The new title.
        title: String,
    },
    /// The application identifier changed.
    AppId {
        /// The new application identifier.
        app_id: String,
    },
    /// The compositor assigned a stable string identifier.
    Identifier {
        /// The stable identifier.
        identifier: String,
    },
    /// The commit sentinel: the preceding batch of events for this toplevel
    /// is complete.
    Done,
    /// The toplevel was closed.
    Closed,
}

/// An event of one toplevel's native-extension handle.
#[derive(Debug)]
pub enum ToplevelNativeEvent {
    /// The toplevel is now visible on one more output.
    OutputEnter {
        /// The output's identity.
        output: RemoteIdentity,
    },
    /// The toplevel left an output; its geometry there is forgotten.
    OutputLeave {
        /// The output's identity.
        output: RemoteIdentity,
    },
    /// The toplevel entered a workspace.
    WorkspaceEnter {
        /// The workspace's identity.
        workspace: RemoteIdentity,
    },
    /// The toplevel left a workspace.
    WorkspaceLeave {
        /// The workspace's identity.
        workspace: RemoteIdentity,
    },
    /// The toplevel's state set changed; a full replacement, one 4-byte
    /// little-endian word per state value.
    State {
        /// The raw state bytes.
        state: Vec<u8>,
    },
    /// The toplevel's geometry on one output changed.
    Geometry {
        /// The output's identity.
        output: RemoteIdentity,
        /// Horizontal position on the output.
        x: i32,
        /// Vertical position on the output.
        y: i32,
        /// Width on the output.
        width: i32,
        /// Height on the output.
        height: i32,
    },
}

/// A lifecycle notice handed to the consumer.
#[derive(Debug)]
pub enum ToplevelNotice {
    /// A toplevel's first snapshot was published.
    NewToplevel {
        /// The toplevel's identity.
        toplevel: RemoteIdentity,
    },
    /// A toplevel's snapshot was published again.
    UpdatedToplevel {
        /// The toplevel's identity.
        toplevel: RemoteIdentity,
    },
    /// A toplevel was closed; carries the last published snapshot, or the
    /// pending one if none was ever published.
    ToplevelClosed {
        /// The toplevel's identity.
        toplevel: RemoteIdentity,
        /// The toplevel's last available snapshot.
        snapshot: ToplevelInfo,
    },
    /// The compositor will announce no further toplevels.
    Finished,
    /// The native information manager reported that everything sent so far
    /// is consistent.
    InfoDone,
}

/// An event of the native toplevel-information manager object itself.
#[derive(Debug)]
pub enum ToplevelInfoEvent {
    /// The manager-level sentinel: all toplevel information sent so far is
    /// consistent.
    Done,
    /// The compositor will send no further toplevel information.
    Finished,
}

/// The pending snapshot a newly announced toplevel starts from.
pub open spec fn spec_initial_toplevel(native: RemoteIdentity) -> ToplevelView {
    ToplevelView {
        native_id: native,
        title: Seq::empty(),
        app_id: Seq::empty(),
        identifier: None,
        state: Seq::empty(),
        outputs: Seq::empty(),
        geometry: Seq::empty(),
        workspaces: Seq::empty(),
    }
}

/// How one portable-handle field event changes a toplevel's pending
/// snapshot.
pub open spec fn spec_toplevel_apply(t: ToplevelView, e: ToplevelEvent) -> ToplevelView {
    match e {
        ToplevelEvent::Title { title } => ToplevelView { title: title@, ..t },
        ToplevelEvent::AppId { app_id } => ToplevelView { app_id: app_id@, ..t },
        ToplevelEvent::Identifier { identifier } => ToplevelView {
            identifier: Some(identifier@),
            ..t
        },
        ToplevelEvent::Done => t,
        ToplevelEvent::Closed => t,
    }
}

/// How one native-handle field event changes a toplevel's pending snapshot.
pub open spec fn spec_toplevel_native_apply(t: ToplevelView, e: ToplevelNativeEvent) -> ToplevelView {
    match e {
        ToplevelNativeEvent::OutputEnter { output } => {
            if t.outputs.contains(output) {
                t
            } else {
                ToplevelView { outputs: t.outputs.push(output), ..t }
            }
        },
        ToplevelNativeEvent::OutputLeave { output } => ToplevelView {
            outputs: identity::spec_remove_first(t.outputs, output),
            geometry: spec_geo_remove(t.geometry, output),
            ..t
        },
        ToplevelNativeEvent::WorkspaceEnter { workspace } => {
            if t.workspaces.contains(workspace) {
                t
            } else {
                ToplevelView { workspaces: t.workspaces.push(workspace), ..t }
            }
        },
        ToplevelNativeEvent::WorkspaceLeave { workspace } => ToplevelView {
            workspaces: identity::spec_remove_first(t.workspaces, workspace),
            ..t
        },
        ToplevelNativeEvent::State { state } => ToplevelView {
            state: codec::spec_words(state@).map(
                |i: int, w: u32| codec::spec_decode_enum(w, spec_toplevel_state_table()),
            ),
            ..t
        },
        ToplevelNativeEvent::Geometry { output, x, y, width, height } => ToplevelView {
            geometry: spec_geo_set(t.geometry, output, ToplevelGeometry { x, y, width, height }),
            ..t
        },
    }
}

/// The membership fields of a snapshot hold no duplicates: each output and
/// each workspace appears at most once.
pub open spec fn spec_toplevel_sets_wf(t: ToplevelInfo) -> bool {
    &&& identity::spec_no_dups(t.outputs@)
    &&& identity::spec_no_dups(t.workspaces@)
}

/// A portable-handle field event's effect on one toplevel's publication
/// state: the pending accumulator moves, the published snapshot stays.
pub open spec fn spec_tl_field_step(s: SlotView<ToplevelView>, e: ToplevelEvent) -> SlotView<
    ToplevelView,
> {
    SlotView { pending: spec_toplevel_apply(s.pending, e), current: s.current }
}

/// The cumulative application of a sequence of portable-handle field events
/// to a toplevel's pending snapshot.
pub open spec fn spec_toplevel_fold(t: ToplevelView, events: Seq<ToplevelEvent>) -> ToplevelView
    decreases events.len(),
{
    if events.len() == 0 {
        t
    } else {
        spec_toplevel_fold(spec_toplevel_apply(t, events[0]), events.drop_first())
    }
}

/// A sequence of portable-handle field events run over one toplevel's
/// publication state.
pub open spec fn spec_tl_field_run(s: SlotView<ToplevelView>, events: Seq<ToplevelEvent>) -> SlotView<
    ToplevelView,
>
    decreases events.len(),
{
    if events.len() == 0 {
        s
    } else {
        spec_tl_field_run(spec_tl_field_step(s, events[0]), events.drop_first())
    }
}

/// The commit sentinel's effect on one toplevel's publication state: the
/// pending accumulator is published and retained.
pub open spec fn spec_tl_commit(s: SlotView<ToplevelView>) -> SlotView<ToplevelView> {
    SlotView { pending: s.pending, current: Some(s.pending) }
}

/// Commit atomicity for toplevels: for every sequence of field-mutation
/// events followed by one commit sentinel, the published snapshot equals
/// the cumulative application of all the events to the pending snapshot as
/// it stood after the last commit, and the publication is an arrival
/// exactly when no commit had happened before the events.
pub proof fn lemma_toplevel_commit_atomicity(s: SlotView<ToplevelView>, events: Seq<ToplevelEvent>)
    ensures
        spec_tl_field_run(s, events).current == s.current,
        spec_tl_field_run(s, events).pending == spec_toplevel_fold(s.pending, events),
        spec_tl_commit(spec_tl_field_run(s, events)).current == Some(
            spec_toplevel_fold(s.pending, events),
        ),
    decreases events.len(),
{
    if events.len() == 0 {
    } else {
        lemma_toplevel_commit_atomicity(spec_tl_field_step(s, events[0]), events.drop_first());
    }
}

/// What closing a toplevel does: if the identity is tracked its slot leaves
/// the table and exactly one notice fires, carrying the last available
/// snapshot — even if no commit ever happened, in which case the pending
/// data is used; if it is not tracked, nothing changes and nothing fires.
pub open spec fn spec_toplevel_closed(
    pre: ToplevelInfoState,
    post: ToplevelInfoState,
    toplevel: RemoteIdentity,
    notices: Seq<ToplevelNotice>,
) -> bool {
    &&& (pre.toplevels.spec_contains(toplevel) ==> exists|i: int|
        {
            &&& 0 <= i < pre.toplevels.s().len()
            &&& (#[trigger] pre.toplevels.s()[i]).id == toplevel
            &&& post.toplevels.s() == pre.toplevels.s().remove(i)
            &&& notices.len() == 1
            &&& notices[0] == (ToplevelNotice::ToplevelClosed {
                toplevel,
                snapshot: spec_removal_snapshot(pre.toplevels.s()[i]),
            })
        })
    &&& (!pre.toplevels.spec_contains(toplevel) ==> post.toplevels == pre.toplevels
        && notices.len() == 0)
    &&& !post.toplevels.spec_contains(toplevel)
}

/// Idempotent removal: closing the same toplevel identity twice fires a
/// notice at most once; the second close finds nothing and changes nothing.
pub proof fn lemma_toplevel_close_idempotent(
    s0: ToplevelInfoState,
    s1: ToplevelInfoState,
    s2: ToplevelInfoState,
    toplevel: RemoteIdentity,
    n1: Seq<ToplevelNotice>,
    n2: Seq<ToplevelNotice>,
)
    requires
        spec_toplevel_closed(s0, s1, toplevel, n1),
        spec_toplevel_closed(s1, s2, toplevel, n2),
    ensures
        n1.len() <= 1,
        n2.len() == 0,
        s2 == s1,
{
    assert(s2.toplevels == s1.toplevels);
}

/// The state synchronizer for the toplevel enumeration extensions: the live
/// table of toplevels.
#[derive(Debug)]
pub struct ToplevelInfoState {
    /// The tracked toplevels, in announcement order, keyed by their
    /// portable-listing identity.
    pub toplevels: EntityTable<ToplevelInfo>,
}

impl ToplevelInfoState {
    /// Well-formed: the table keys its toplevels uniquely, and every
    /// snapshot — pending or published — lists each output and each
    /// workspace at most once.
    pub open spec fn wf(&self) -> bool {
        &&& self.toplevels.wf()
        &&& forall|k: int|
            0 <= k < self.toplevels.s().len() ==> {
                let sl = #[trigger] self.toplevels.s()[k];
                &&& spec_toplevel_sets_wf(sl.pending)
                &&& (sl.current matches Some(c) ==> spec_toplevel_sets_wf(c))
            }
    }

    /// Whether a toplevel with this native-extension handle identity is
    /// tracked.
    pub open spec fn spec_contains_native(&self, native: RemoteIdentity) -> bool {
        exists|i: int|
            0 <= i < self.toplevels.s().len() && (#[trigger] self.toplevels.s()[i]).pending.native_id
                == native
    }

    /// Creates an empty synchronizer with no tracked toplevels.
    pub fn new() -> (r: Self)
        ensures
            r.wf(),
            r.toplevels.s().len() == 0,
    {
        ToplevelInfoState { toplevels: EntityTable::new() }
    }

    /// The tracked toplevels, in announcement order.
    pub fn toplevels(&self) -> (r: &Vec<Slot<ToplevelInfo>>)
        ensures
            r@ == self.toplevels.s(),
    {
        &self.toplevels.slots
    }

    /// The published snapshot of one toplevel, if any.
    pub fn info(&self, toplevel: RemoteIdentity) -> (r: Option<&ToplevelInfo>)
        requires
            self.wf(),
        ensures
            match r {
                Some(c) => exists|i: int|
                    0 <= i < self.toplevels.s().len() && (#[trigger] self.toplevels.s()[i]).id
                        == toplevel && self.toplevels.s()[i].current == Some(*c),
                None => forall|i: int|
                    0 <= i < self.toplevels.s().len() && (#[trigger] self.toplevels.s()[i]).id
                        == toplevel ==> self.toplevels.s()[i].current is None,
            },
    {
        self.toplevels.current_of(toplevel)
    }

    /// Finds the slot index of the toplevel whose native-extension handle
    /// has this identity: the first match in announcement order.
    pub fn find_native(&self, native: RemoteIdentity) -> (r: Option<usize>)
        ensures
            match r {
                Some(i) => {
                    &&& i < self.toplevels.s().len()
                    &&& self.toplevels.s()[i as int].pending.native_id == native
                    &&& forall|j: int|
                        0 <= j < i ==> (#[trigger] self.toplevels.s()[j]).pending.native_id
                            != native
                },
                None => !self.spec_contains_native(native),
            },
    {
        let mut i: usize = 0;
        while i < self.toplevels.slots.len()
            invariant
                i <= self.toplevels.s().len(),
                forall|j: int|
                    0 <= j < i ==> (#[trigger] self.toplevels.s()[j]).pending.native_id != native,
            decreases self.toplevels.s().len() - i,
        {
            if self.toplevels.slots[i].pending.native_id.id == native.id {
                return Some(i);
            }
            i = i + 1;
        }
        None
    }

    /// Handles an event of the portable toplevel listing: an announcement
    /// inserts a new toplevel with an empty pending snapshot and fires no
    /// notice; the listing's finish fires one notice so the consumer learns
    /// no further toplevels will appear.
    pub fn handle_list_event(&mut self, e: ToplevelListEvent) -> (r: Vec<ToplevelNotice>)
        requires
            old(self).wf(),
            match e {
                ToplevelListEvent::Toplevel { toplevel, native } => {
                    &&& !old(self).toplevels.spec_contains(toplevel)
                    &&& !old(self).spec_contains_native(native)
                },
                ToplevelListEvent::Finished => true,
            },
        ensures
            final(self).wf(),
            match e {
                ToplevelListEvent::Toplevel { toplevel, native } => {
                    &&& r@.len() == 0
                    &&& final(self).toplevels.s().len() == old(self).toplevels.s().len() + 1
                    &&& forall|j: int|
                        0 <= j < old(self).toplevels.s().len() ==> final(self).toplevels.s()[j]
                            == old(self).toplevels.s()[j]
                    &&& final(self).toplevels.s().last().id == toplevel
                    &&& final(self).toplevels.s().last().pending@ == spec_initial_toplevel(native)
                    &&& final(self).toplevels.s().last().current is None
                },
                ToplevelListEvent::Finished => {
                    &&& final(self).toplevels == old(self).toplevels
                    &&& r@.len() == 1
                    &&& r@[0] == ToplevelNotice::Finished
                },
            },
    {
        match e {
            ToplevelListEvent::Toplevel { toplevel, native } => {
                let pending = ToplevelInfo {
                    native_id: native,
                    title: String::new(),
                    app_id: String::new(),
                    identifier: None,
                    state: Vec::new(),
                    outputs: Vec::new(),
                    geometry: Vec::new(),
                    workspaces: Vec::new(),
                };
                proof {
                    assert(pending@.title =~= spec_initial_toplevel(native).title);
                    assert(pending@.app_id =~= spec_initial_toplevel(native).app_id);
                    assert(pending@.state =~= spec_initial_toplevel(native).state);
                    assert(pending@.outputs =~= spec_initial_toplevel(native).outputs);
                    assert(pending@.geometry =~= spec_initial_toplevel(native).geometry);
                    assert(pending@.workspaces =~= spec_initial_toplevel(native).workspaces);
                }
                self.toplevels.insert_new(toplevel, pending);
                proof {
                    assert forall|k: int|
                        0 <= k < self.toplevels.s().len() implies {
                            let sl = #[trigger] self.toplevels.s()[k];
                            &&& spec_toplevel_sets_wf(sl.pending)
                            &&& (sl.current matches Some(c) ==> spec_toplevel_sets_wf(c))
                        } by {
                        if k < old(self).toplevels.s().len() {
                            assert(self.toplevels.s()[k] == old(self).toplevels.s()[k]);
                        } else {
                            assert(self.toplevels.s()[k] == self.toplevels.s().last());
                            assert(self.toplevels.s().last().pending.outputs@.len() == 0);
                            assert(self.toplevels.s().last().pending.workspaces@.len() == 0);
                        }
                    }
                }
                Vec::new()
            },
            ToplevelListEvent::Finished => {
                let mut r: Vec<ToplevelNotice> = Vec::new();
                r.push(ToplevelNotice::Finished);
                r
            },
        }
    }

    /// Handles an event of the native information manager object: its
    /// sentinel fires one notice so the consumer knows everything announced
    /// so far is consistent; the finish event carries nothing the engine
    /// tracks. The tables are untouched either way.
    pub fn handle_info_event(&mut self, e: ToplevelInfoEvent) -> (r: Vec<ToplevelNotice>)
        requires
            old(self).wf(),
        ensures
            final(self).wf(),
            *final(self) == *old(self),
            match e {
                ToplevelInfoEvent::Done => r@.len() == 1 && r@[0] == ToplevelNotice::InfoDone,
                ToplevelInfoEvent::Finished => r@.len() == 0,
            },
    {
        match e {
            ToplevelInfoEvent::Done => {
                let mut r: Vec<ToplevelNotice> = Vec::new();
                r.push(ToplevelNotice::InfoDone);
                r
            },
            ToplevelInfoEvent::Finished => Vec::new(),
        }
    }

    /// Handles an event of one toplevel's portable handle. Title, app id
    /// and identifier accumulate in the pending snapshot and fire no
    /// notice. The commit sentinel publishes the pending snapshot and
    /// fires exactly one arrival-or-update notice; fields no event has
    /// touched are published in their explicit empty/unknown state. A
    /// close is idempotent and fires at most one notice.
    pub fn handle_toplevel_event(&mut self, toplevel: RemoteIdentity, e: ToplevelEvent) -> (r: Vec<
        ToplevelNotice,
    >)
        requires
            old(self).wf(),
            match e {
                ToplevelEvent::Closed => true,
                _ => old(self).toplevels.spec_contains(toplevel),
            },
        ensures
            final(self).wf(),
            match e {
                ToplevelEvent::Closed => spec_toplevel_closed(
                    *old(self),
                    *final(self),
                    toplevel,
                    r@,
                ),
                ToplevelEvent::Done => {
                    &&& final(self).toplevels.s().len() == old(self).toplevels.s().len()
                    &&& forall|j: int|
                        0 <= j < old(self).toplevels.s().len() && (#[trigger] old(
                            self,
                        ).toplevels.s()[j]).id != toplevel ==> final(self).toplevels.s()[j] == old(
                            self,
                        ).toplevels.s()[j]
                    &&& forall|j: int|
                        0 <= j < old(self).toplevels.s().len() && (#[trigger] old(
                            self,
                        ).toplevels.s()[j]).id == toplevel ==> {
                            let o = old(self).toplevels.s()[j];
                            let n = final(self).toplevels.s()[j];
                            &&& n.id == o.id
                            &&& n.pending == o.pending
                            &&& n.current matches Some(c) && c@ == o.pending@
                            &&& slot_view(n) == spec_tl_commit(slot_view(o))
                            &&& r@.len() == 1
                            &&& r@[0] == (if o.current is None {
                                ToplevelNotice::NewToplevel { toplevel }
                            } else {
                                ToplevelNotice::UpdatedToplevel { toplevel }
                            })
                        }
                },
                _ => {
                    &&& r@.len() == 0
                    &&& final(self).toplevels.s().len() == old(self).toplevels.s().len()
                    &&& forall|j: int|
                        0 <= j < old(self).toplevels.s().len() && (#[trigger] old(
                            self,
                        ).toplevels.s()[j]).id != toplevel ==> final(self).toplevels.s()[j] == old(
                            self,
                        ).toplevels.s()[j]
                    &&& forall|j: int|
                        0 <= j < old(self).toplevels.s().len() && (#[trigger] old(
                            self,
                        ).toplevels.s()[j]).id == toplevel ==> {
                            let o = old(self).toplevels.s()[j];
                            let n = final(self).toplevels.s()[j];
                            &&& n.id == o.id
                            &&& n.current == o.current
                            &&& n.pending@ == spec_toplevel_apply(o.pending@, e)
                            &&& slot_view(n) == spec_tl_field_step(slot_view(o), e)
                        }
                },
            },
    {
        match e {
            ToplevelEvent::Closed => {
                match self.toplevels.position(toplevel) {
                    Some(i) => {
                        let ghost ii = i as int;
                        let slot = self.toplevels.remove_at(i);
                        let snapshot = match slot.current {
                            Some(c) => c,
                            None => slot.pending,
                        };
                        let mut r: Vec<ToplevelNotice> = Vec::new();
                        r.push(ToplevelNotice::ToplevelClosed { toplevel, snapshot });
                        proof {
                            assert forall|k: int|
                                0 <= k < self.toplevels.s().len() implies {
                                    let sl = #[trigger] self.toplevels.s()[k];
                                    &&& spec_toplevel_sets_wf(sl.pending)
                                    &&& (sl.current matches Some(c) ==> spec_toplevel_sets_wf(c))
                                } by {
                                let k0 = if k < ii {
                                    k
                                } else {
                                    k + 1
                                };
                                assert(self.toplevels.s()[k] == old(self).toplevels.s()[k0]);
                            }
                            assert(0 <= ii < old(self).toplevels.s().len() && old(
                                self,
                            ).toplevels.s()[ii].id == toplevel && self.toplevels.s() == old(
                                self,
                            ).toplevels.s().remove(ii) && r@.len() == 1 && r@[0] == (
                            ToplevelNotice::ToplevelClosed {
                                toplevel,
                                snapshot: spec_removal_snapshot(
                                    old(self).toplevels.s()[ii],
                                ),
                            }));
                        }
                        r
                    },
                    None => Vec::new(),
                }
            },
            ToplevelEvent::Done => {
                let i = self.toplevels.position(toplevel).unwrap();
                let ghost ii = i as int;
                let mut r: Vec<ToplevelNotice> = Vec::new();
                let was_new = self.toplevels.commit_at(i);
                if was_new {
                    r.push(ToplevelNotice::NewToplevel { toplevel });
                } else {
                    r.push(ToplevelNotice::UpdatedToplevel { toplevel });
                }
                proof {
                    assert forall|j: int|
                        0 <= j < old(self).toplevels.s().len() && (#[trigger] old(
                            self,
                        ).toplevels.s()[j]).id == toplevel implies j == ii by {
                        if j != ii {
                            assert(old(self).toplevels.s()[j].id != old(
                                self,
                            ).toplevels.s()[ii].id);
                        }
                    }
                    assert forall|k: int|
                        0 <= k < self.toplevels.s().len() implies {
                            let sl = #[trigger] self.toplevels.s()[k];
                            &&& spec_toplevel_sets_wf(sl.pending)
                            &&& (sl.current matches Some(c) ==> spec_toplevel_sets_wf(c))
                        } by {
                        if k == ii {
                            let sl = self.toplevels.s()[k];
                            let o = old(self).toplevels.s()[k];
                            assert(sl.pending == o.pending);
                            if let Some(c) = sl.current {
                                assert(c@ == o.pending@);
                                assert(c.outputs@ == o.pending.outputs@);
                                assert(c.workspaces@ == o.pending.workspaces@);
                            }
                        } else {
                            assert(self.toplevels.s()[k] == old(self).toplevels.s()[k]);
                        }
                    }
                }
                r
            },
            _ => {
                let i = self.toplevels.position(toplevel).unwrap();
                let ghost ii = i as int;
                let mut slot = self.toplevels.remove_at(i);
                match e {
                    ToplevelEvent::Title { title } => {
                        slot.pending.title = title;
                    },
                    ToplevelEvent::AppId { app_id } => {
                        slot.pending.app_id = app_id;
                    },
                    ToplevelEvent::Identifier { identifier } => {
                        slot.pending.identifier = Some(identifier);
                    },
                    ToplevelEvent::Done => {},
                    ToplevelEvent::Closed => {},
                }
                let ghost snap = slot;
                self.toplevels.insert_at(i, slot);
                proof {
                    assert forall|k: int|
                        0 <= k < self.toplevels.s().len() implies {
                            let sl = #[trigger] self.toplevels.s()[k];
                            &&& spec_toplevel_sets_wf(sl.pending)
                            &&& (sl.current matches Some(c) ==> spec_toplevel_sets_wf(c))
                        } by {
                        if k == ii {
                            assert(self.toplevels.s()[k] == snap);
                            assert(snap.pending.outputs@ == old(
                                self,
                            ).toplevels.s()[k].pending.outputs@);
                            assert(snap.pending.workspaces@ == old(
                                self,
                            ).toplevels.s()[k].pending.workspaces@);
                            assert(snap.current == old(self).toplevels.s()[k].current);
                        } else {
                            if k > ii {
                                assert(self.toplevels.s()[k] == old(self).toplevels.s().remove(
                                    ii,
                                )[k - 1]);
                            }
                            assert(self.toplevels.s()[k] == old(self).toplevels.s()[k]);
                        }
                    }
                    assert forall|j: int|
                        0 <= j < old(self).toplevels.s().len() && (#[trigger] old(
                            self,
                        ).toplevels.s()[j]).id != toplevel implies self.toplevels.s()[j] == old(
                        self,
                    ).toplevels.s()[j] by {
                        if j < ii {
                        } else {
                            assert(j != ii);
                            assert(self.toplevels.s()[j] == old(self).toplevels.s().remove(
                                ii,
                            )[j - 1]);
                        }
                    }
                    assert forall|j: int|
                        0 <= j < old(self).toplevels.s().len() && (#[trigger] old(
                            self,
                        ).toplevels.s()[j]).id == toplevel implies j == ii by {
                        if j != ii {
                            assert(old(self).toplevels.s()[j].id != old(
                                self,
                            ).toplevels.s()[ii].id);
                        }
                    }
                }
                Vec::new()
            },
        }
    }

    /// Handles an event of one toplevel's native-extension handle, keyed by
    /// the handle's identity: the first toplevel carrying that native
    /// identity accumulates the mutation in its pending snapshot. No notice
    /// fires.
    pub fn handle_native_event(&mut self, native: RemoteIdentity, e: ToplevelNativeEvent) -> (r:
        Vec<ToplevelNotice>)
        requires
            old(self).wf(),
            old(self).spec_contains_native(native),
        ensures
            final(self).wf(),
            r@.len() == 0,
            final(self).toplevels.s().len() == old(self).toplevels.s().len(),
            exists|i: int|
                {
                    &&& 0 <= i < old(self).toplevels.s().len()
                    &&& (#[trigger] old(self).toplevels.s()[i]).pending.native_id == native
                    &&& forall|j: int|
                        0 <= j < i ==> old(self).toplevels.s()[j].pending.native_id != native
                    &&& forall|j: int|
                        0 <= j < old(self).toplevels.s().len() && j != i ==> final(self).toplevels.s()[j] == old(self).toplevels.s()[j]
                    &&& final(self).toplevels.s()[i].id == old(self).toplevels.s()[i].id
                    &&& final(self).toplevels.s()[i].current == old(self).toplevels.s()[i].current
                    &&& final(self).toplevels.s()[i].pending@ == spec_toplevel_native_apply(
                        old(self).toplevels.s()[i].pending@,
                        e,
                    )
                },
    {
        let i = self.find_native(native).unwrap();
        let ghost ii = i as int;
        let mut slot = self.toplevels.remove_at(i);
        proof {
            assert(slot == old(self).toplevels.s()[ii]);
            assert(spec_toplevel_sets_wf(slot.pending));
        }
        match e {
            ToplevelNativeEvent::OutputEnter { output } => {
                let ghost before = slot.pending.outputs@;
                if identity::find_first(&slot.pending.outputs, output).is_none() {
                    slot.pending.outputs.push(output);
                    proof {
                        assert forall|a: int, b: int|
                            0 <= a < b < slot.pending.outputs@.len() implies slot.pending.outputs@[a]
                            != slot.pending.outputs@[b] by {
                            if b == slot.pending.outputs@.len() - 1 {
                                if before[a] == output {
                                    assert(before.contains(output));
                                }
                            }
                        }
                    }
                }
            },
            ToplevelNativeEvent::OutputLeave { output } => {
                let ghost before = slot.pending.outputs@;
                identity::remove_first(&mut slot.pending.outputs, output);
                proof {
                    identity::lemma_remove_first_no_dups(before, output);
                }
                let ghost geo0 = slot.pending.geometry@;
                proof {
                    lemma_geo_index(geo0, output);
                }
                match find_geo(&slot.pending.geometry, output) {
                    Some(k) => {
                        slot.pending.geometry.remove(k);
                    },
                    None => {},
                }
            },
            ToplevelNativeEvent::WorkspaceEnter { workspace } => {
                let ghost before = slot.pending.workspaces@;
                if identity::find_first(&slot.pending.workspaces, workspace).is_none() {
                    slot.pending.workspaces.push(workspace);
                    proof {
                        assert forall|a: int, b: int|
                            0 <= a < b < slot.pending.workspaces@.len() implies slot.pending.workspaces@[a]
                            != slot.pending.workspaces@[b] by {
                            if b == slot.pending.workspaces@.len() - 1 {
                                if before[a] == workspace {
                                    assert(before.contains(workspace));
                                }
                            }
                        }
                    }
                }
            },
            ToplevelNativeEvent::WorkspaceLeave { workspace } => {
                let ghost before = slot.pending.workspaces@;
                identity::remove_first(&mut slot.pending.workspaces, workspace);
                proof {
                    identity::lemma_remove_first_no_dups(before, workspace);
                }
            },
            ToplevelNativeEvent::State { state } => {
                let table: [u32; 5] = [0, 1, 2, 3, 4];
                proof {
                    assert(table@ =~= spec_toplevel_state_table());
                }
                slot.pending.state = codec::decode_enum_words(state.as_slice(), table.as_slice());
            },
            ToplevelNativeEvent::Geometry { output, x, y, width, height } => {
                let g = ToplevelGeometry { x, y, width, height };
                let ghost geo0 = slot.pending.geometry@;
                proof {
                    lemma_geo_index(geo0, output);
                }
                match find_geo(&slot.pending.geometry, output) {
                    Some(k) => {
                        slot.pending.geometry.set(k, (output, g));
                    },
                    None => {
                        slot.pending.geometry.push((output, g));
                    },
                }
            },
        }
        let ghost snap = slot;
        self.toplevels.insert_at(i, slot);
        proof {
            assert forall|j: int|
                0 <= j < old(self).toplevels.s().len() && j != ii implies self.toplevels.s()[j]
                == old(self).toplevels.s()[j] by {
                if j < ii {
                } else {
                    assert(self.toplevels.s()[j] == old(self).toplevels.s().remove(ii)[j - 1]);
                }
            }
            assert forall|k: int|
                0 <= k < self.toplevels.s().len() implies {
                    let sl = #[trigger] self.toplevels.s()[k];
                    &&& spec_toplevel_sets_wf(sl.pending)
                    &&& (sl.current matches Some(c) ==> spec_toplevel_sets_wf(c))
                } by {
                if k == ii {
                    assert(self.toplevels.s()[k] == snap);
                    assert(snap.current == old(self).toplevels.s()[k].current);
                } else {
                    assert(self.toplevels.s()[k] == old(self).toplevels.s()[k]);
                }
            }
        }
        Vec::new()
    }
}

} // verus!
