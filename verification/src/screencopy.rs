//! Screen and window capture: capability bindings for the two capture
//! protocol families, the source-kind fallback between them, and the state
//! synchronizer for capture sessions and capture frames.
//!
//! A capture session negotiates buffer formats: format events accumulate in
//! the session's pending snapshot and the commit sentinel publishes them,
//! firing one notice with the negotiated formats. A capture frame collects
//! its metadata (transform, damage, presentation time) and ends in exactly
//! one ready or failed notice, after which it is no longer tracked. Frames
//! are correlated to their owning session through a generation number, so a
//! frame whose session was already released resolves to absent instead of
//! failing.

use vstd::prelude::*;

use crate::codec;
use crate::codec::Tagged;
use crate::identity::RemoteIdentity;
use crate::table::{copy_vec, slot_view, Duplicable, EntityTable, SlotView};

verus! {

/// A rectangle of damaged pixels in buffer coordinates.
#[derive(Clone, Copy, Debug, PartialEq, Eq, Structural)]
pub struct Rect {
    /// Horizontal position.
    pub x: i32,
    /// Vertical position.
    pub y: i32,
    /// Width.
    pub width: i32,
    /// Height.
    pub height: i32,
}

/// The time a frame was presented, as seconds and nanoseconds.
#[derive(Clone, Copy, Debug, PartialEq, Eq, Structural)]
pub struct PresentTime {
    /// Whole seconds.
    pub secs: u64,
    /// Nanoseconds within the second.
    pub nanos: u32,
}

/// One capture frame's metadata, accumulated while the capture is in
/// flight.
#[derive(Debug)]
pub struct Frame {
    /// The transform of the captured contents.
    pub transform: Tagged,
    /// The damaged rectangles, in event order.
    pub damage: Vec<Rect>,
    /// The presentation time, if the compositor reported one.
    pub present_time: Option<PresentTime>,
}

/// The abstract value of a frame's metadata.
pub ghost struct FrameView {
    /// The transform of the captured contents.
    pub transform: Tagged,
    /// The damaged rectangles.
    pub damage: Seq<Rect>,
    /// The presentation time, if any.
    pub present_time: Option<PresentTime>,
}

impl View for Frame {
    type V = FrameView;

    open spec fn view(&self) -> FrameView {
        FrameView {
            transform: self.transform,
            damage: self.damage@,
            present_time: self.present_time,
        }
    }
}

impl Duplicable for Frame {
    fn dup(&self) -> (r: Self) {
        Frame {
            transform: self.transform,
            damage: copy_vec(&self.damage),
            present_time: self.present_time,
        }
    }
}

/// The metadata of a frame that has received no events yet: a normal
/// transform, no damage, no presentation time.
pub open spec fn spec_initial_frame() -> FrameView {
    FrameView { transform: Tagged::Known(0), damage: Seq::empty(), present_time: None }
}

impl Default for Frame {
    /// The metadata of a frame that has received no events yet.
    fn default() -> (r: Self)
        ensures
            r@ == spec_initial_frame(),
    {
        let r = Frame { transform: Tagged::Known(0), damage: Vec::new(), present_time: None };
        proof {
            assert(r@.damage =~= spec_initial_frame().damage);
        }
        r
    }
}

/// The buffer geometry and pixel formats negotiated for a capture session.
#[derive(Debug)]
pub struct Formats {
    /// The buffer size the capture requires, in pixels.
    pub buffer_size: (u32, u32),
    /// The raw shared-memory pixel formats offered, in event order.
    pub shm_formats: Vec<u32>,
    /// The device the dmabuf formats apply to, if one was announced.
    pub dmabuf_device: Option<u64>,
    /// The dmabuf formats offered: each a fourcc code with its modifiers.
    pub dmabuf_formats: Vec<(u32, Vec<u64>)>,
}

/// The abstract value of a session's negotiated formats.
pub ghost struct FormatsView {
    /// The buffer size the capture requires.
    pub buffer_size: (u32, u32),
    /// The raw shared-memory pixel formats offered.
    pub shm_formats: Seq<u32>,
    /// The device the dmabuf formats apply to, if any.
    pub dmabuf_device: Option<u64>,
    /// The dmabuf formats offered.
    pub dmabuf_formats: Seq<(u32, Seq<u64>)>,
}

impl View for Formats {
    type V = FormatsView;

    open spec fn view(&self) -> FormatsView {
        FormatsView {
            buffer_size: self.buffer_size,
            shm_formats: self.shm_formats@,
            dmabuf_device: self.dmabuf_device,
            dmabuf_formats: self.dmabuf_formats@.map(
                |i: int, p: (u32, Vec<u64>)| (p.0, p.1@),
            ),
        }
    }
}

impl Duplicable for Formats {
    fn dup(&self) -> (r: Self) {
        let mut dmabuf_formats: Vec<(u32, Vec<u64>)> = Vec::new();
        let mut i: usize = 0;
        while i < self.dmabuf_formats.len()
            invariant
                i <= self.dmabuf_formats@.len(),
                dmabuf_formats@.len() == i,
                forall|j: int|
                    0 <= j < i ==> (#[trigger] dmabuf_formats@[j]).0 == self.dmabuf_formats@[j].0
                        && dmabuf_formats@[j].1@ == self.dmabuf_formats@[j].1@,
            decreases self.dmabuf_formats@.len() - i,
        {
            let p = &self.dmabuf_formats[i];
            dmabuf_formats.push((p.0, copy_vec(&p.1)));
            i = i + 1;
        }
        let r = Formats {
            buffer_size: self.buffer_size,
            shm_formats: copy_vec(&self.shm_formats),
            dmabuf_device: self.dmabuf_device,
            dmabuf_formats,
        };
        proof {
            assert(r@.dmabuf_formats =~= self@.dmabuf_formats);
        }
        r
    }
}

/// Formats for a session that has received no events yet: a zero buffer
/// size and no offered formats.
pub open spec fn spec_initial_formats() -> FormatsView {
    FormatsView {
        buffer_size: (0u32, 0u32),
        shm_formats: Seq::empty(),
        dmabuf_device: None,
        dmabuf_formats: Seq::empty(),
    }
}

impl Default for Formats {
    /// Formats for a session that has received no events yet.
    fn default() -> (r: Self)
        ensures
            r@ == spec_initial_formats(),
    {
        let r = Formats {
            buffer_size: (0, 0),
            shm_formats: Vec::new(),
            dmabuf_device: None,
            dmabuf_formats: Vec::new(),
        };
        proof {
            assert(r@.shm_formats =~= spec_initial_formats().shm_formats);
            assert(r@.dmabuf_formats =~= spec_initial_formats().dmabuf_formats);
        }
        r
    }
}

/// The kind of thing a capture reads from.
#[derive(Clone, Copy, Debug, Hash, PartialEq, Eq, Structural)]
pub enum CaptureSourceKind {
    /// A whole output.
    Output,
    /// One toplevel window.
    Toplevel,
    /// One workspace, offered by the native family only.
    CosmicWorkspace,
}

/// What a capture reads from: an output, a toplevel, or a workspace.
#[derive(Clone, Copy, Debug, Hash, PartialEq, Eq, Structural)]
pub enum CaptureSource {
    /// A whole output.
    Output(RemoteIdentity),
    /// One toplevel window.
    Toplevel(RemoteIdentity),
    /// One workspace.
    CosmicWorkspace(RemoteIdentity),
}

impl CaptureSource {
    /// The kind of this source.
    pub open spec fn spec_kind(&self) -> CaptureSourceKind {
        match self {
            CaptureSource::Output(_) => CaptureSourceKind::Output,
            CaptureSource::Toplevel(_) => CaptureSourceKind::Toplevel,
            CaptureSource::CosmicWorkspace(_) => CaptureSourceKind::CosmicWorkspace,
        }
    }

    /// Returns the kind of this source.
    pub fn kind(&self) -> (r: CaptureSourceKind)
        ensures
            r == self.spec_kind(),
    {
        match self {
            CaptureSource::Output(_) => CaptureSourceKind::Output,
            CaptureSource::Toplevel(_) => CaptureSourceKind::Toplevel,
            CaptureSource::CosmicWorkspace(_) => CaptureSourceKind::CosmicWorkspace,
        }
    }
}

/// A requested capture-source kind is not supported by any bound protocol
/// family. Not a failure of a bound family: the capability is simply
/// unavailable on this compositor.
#[derive(Clone, Copy, Debug, PartialEq, Eq, Structural)]
pub struct CaptureSourceError(pub CaptureSourceKind);

impl CaptureSourceError {
    /// A human-readable description of the error, naming the unsupported
    /// source kind.
    pub fn message(&self) -> (r: String)
        ensures
            r@ == match self.0 {
                CaptureSourceKind::Output => "capture kind 'output' unsupported by compositor"@,
                CaptureSourceKind::Toplevel => "capture kind 'toplevel' unsupported by compositor"@,
                CaptureSourceKind::CosmicWorkspace => "capture kind 'workspace' unsupported by compositor"@,
            },
    {
        match self.0 {
            CaptureSourceKind::Output => "capture kind 'output' unsupported by compositor".to_owned(),
            CaptureSourceKind::Toplevel => "capture kind 'toplevel' unsupported by compositor".to_owned(),
            CaptureSourceKind::CosmicWorkspace => "capture kind 'workspace' unsupported by compositor".to_owned(),
        }
    }
}

/// One of the two mutually substitutable capture protocol families.
#[derive(Clone, Copy, Debug, PartialEq, Eq, Structural)]
pub enum CaptureFamily {
    /// The richer native extension family; preferred when it supports the
    /// requested source kind.
    Native,
    /// The portable standard family; the fallback.
    Portable,
}

/// Which capture globals the capability binder found, per family. Absence
/// is not an error: it only means the capability is unavailable until a
/// dependent operation asks for it.
#[derive(Clone, Copy, Debug, PartialEq, Eq, Structural)]
pub struct CaptureBindings {
    /// The native family's capture manager is bound.
    pub native_capture_manager: bool,
    /// The native family's output source manager is bound.
    pub native_output_sources: bool,
    /// The native family's toplevel source manager is bound.
    pub native_toplevel_sources: bool,
    /// The native family's workspace source manager is bound.
    pub native_workspace_sources: bool,
    /// The portable family's capture manager is bound.
    pub portable_capture_manager: bool,
    /// The portable family's output source manager is bound.
    pub portable_output_sources: bool,
    /// The portable family's toplevel source manager is bound.
    pub portable_toplevel_sources: bool,
}

/// Whether the native family is bound and supports the requested source
/// kind: it needs its capture manager and the source manager for the kind.
pub open spec fn spec_native_supports(b: CaptureBindings, kind: CaptureSourceKind) -> bool {
    b.native_capture_manager && match kind {
        CaptureSourceKind::Output => b.native_output_sources,
        CaptureSourceKind::Toplevel => b.native_toplevel_sources,
        CaptureSourceKind::CosmicWorkspace => b.native_workspace_sources,
    }
}

/// Whether the portable family is bound and supports the requested source
/// kind. The static compatibility table: the portable family never offers
/// workspace capture.
pub open spec fn spec_portable_supports(b: CaptureBindings, kind: CaptureSourceKind) -> bool {
    b.portable_capture_manager && match kind {
        CaptureSourceKind::Output => b.portable_output_sources,
        CaptureSourceKind::Toplevel => b.portable_toplevel_sources,
        CaptureSourceKind::CosmicWorkspace => false,
    }
}

/// Which family serves a requested source kind: the native family if it is
/// bound and supports the kind, else the portable family if it does, else
/// the request fails as unsupported.
pub open spec fn spec_resolve_family(b: CaptureBindings, kind: CaptureSourceKind) -> Result<
    CaptureFamily,
    CaptureSourceError,
> {
    if spec_native_supports(b, kind) {
        Ok(CaptureFamily::Native)
    } else if spec_portable_supports(b, kind) {
        Ok(CaptureFamily::Portable)
    } else {
        Err(CaptureSourceError(kind))
    }
}

/// Resolves which bound family serves a requested source kind.
pub fn resolve_capture_family(b: &CaptureBindings, kind: CaptureSourceKind) -> (r: Result<
    CaptureFamily,
    CaptureSourceError,
>)
    ensures
        r == spec_resolve_family(*b, kind),
{
    let native = b.native_capture_manager && match kind {
        CaptureSourceKind::Output => b.native_output_sources,
        CaptureSourceKind::Toplevel => b.native_toplevel_sources,
        CaptureSourceKind::CosmicWorkspace => b.native_workspace_sources,
    };
    if native {
        return Ok(CaptureFamily::Native);
    }
    let portable = b.portable_capture_manager && match kind {
        CaptureSourceKind::Output => b.portable_output_sources,
        CaptureSourceKind::Toplevel => b.portable_toplevel_sources,
        CaptureSourceKind::CosmicWorkspace => false,
    };
    if portable {
        Ok(CaptureFamily::Portable)
    } else {
        Err(CaptureSourceError(kind))
    }
}

/// Fallback precedence: whenever both families are bound and both support
/// the requested source kind, the native family is chosen over the portable
/// one; and resolution only fails when neither family supports the kind.
pub proof fn lemma_native_precedence(b: CaptureBindings, kind: CaptureSourceKind)
    ensures
        spec_native_supports(b, kind) && spec_portable_supports(b, kind)
            ==> spec_resolve_family(b, kind) == Ok::<CaptureFamily, CaptureSourceError>(
            CaptureFamily::Native,
        ),
        spec_resolve_family(b, kind) is Err <==> !spec_native_supports(b, kind)
            && !spec_portable_supports(b, kind),
{
}

/// One capture session's tracked state: which family backs it, its
/// correlation generation, and the formats negotiated so far.
#[derive(Debug)]
pub struct SessionData {
    /// The protocol family the session was created on.
    pub family: CaptureFamily,
    /// The generation number frames use to refer back to this session.
    pub generation: u64,
    /// The formats negotiated so far.
    pub formats: Formats,
}

/// The abstract value of a session's tracked state.
pub ghost struct SessionDataView {
    /// The protocol family the session was created on.
    pub family: CaptureFamily,
    /// The generation number frames use to refer back to this session.
    pub generation: u64,
    /// The formats negotiated so far.
    pub formats: FormatsView,
}

impl View for SessionData {
    type V = SessionDataView;

    open spec fn view(&self) -> SessionDataView {
        SessionDataView {
            family: self.family,
            generation: self.generation,
            formats: self.formats@,
        }
    }
}

impl Duplicable for SessionData {
    fn dup(&self) -> (r: Self) {
        SessionData {
            family: self.family,
            generation: self.generation,
            formats: self.formats.dup(),
        }
    }
}

/// One capture frame's tracked state: the generation of its owning session
/// and the metadata accumulated so far.
#[derive(Debug)]
pub struct FrameData {
    /// The generation of the session this frame was captured from; the
    /// non-owning back-reference of the correlation index.
    pub session_generation: u64,
    /// The metadata accumulated so far.
    pub frame: Frame,
}

/// The abstract value of a frame's tracked state.
pub ghost struct FrameDataView {
    /// The generation of the session this frame was captured from.
    pub session_generation: u64,
    /// The metadata accumulated so far.
    pub frame: FrameView,
}

impl View for FrameData {
    type V = FrameDataView;

    open spec fn view(&self) -> FrameDataView {
        FrameDataView { session_generation: self.session_generation, frame: self.frame@ }
    }
}

impl Duplicable for FrameData {
    fn dup(&self) -> (r: Self) {
        FrameData { session_generation: self.session_generation, frame: self.frame.dup() }
    }
}

/// An event of one capture session: the format negotiation stream.
#[derive(Debug)]
pub enum SessionEvent {
    /// The buffer size the capture requires.
    BufferSize {
        /// Width in pixels.
        width: u32,
        /// Height in pixels.
        height: u32,
    },
    /// One shared-memory pixel format is offered; the raw word is kept, so
    /// formats this client does not know survive unchanged.
    ShmFormat {
        /// The raw pixel format word.
        format: u32,
    },
    /// The device the dmabuf formats apply to, as an 8-byte identifier.
    DmabufDevice {
        /// The raw device identifier bytes.
        device: Vec<u8>,
    },
    /// One dmabuf format is offered with its modifiers, 8 bytes each.
    DmabufFormat {
        /// The fourcc format code.
        format: u32,
        /// The raw modifier bytes.
        modifiers: Vec<u8>,
    },
    /// The commit sentinel: the format negotiation is complete and the
    /// accumulated formats are published.
    Done,
    /// The compositor stopped the session; it is no longer tracked.
    Stopped,
}

/// An event of one capture frame.
#[derive(Debug)]
pub enum FrameEvent {
    /// The transform of the captured contents.
    Transform {
        /// The raw transform value.
        raw: u32,
    },
    /// One damaged rectangle.
    Damage {
        /// Horizontal position.
        x: i32,
        /// Vertical position.
        y: i32,
        /// Width.
        width: i32,
        /// Height.
        height: i32,
    },
    /// The time the frame was presented, as a 64-bit second count in two
    /// halves plus nanoseconds.
    PresentationTime {
        /// High half of the seconds.
        tv_sec_hi: u32,
        /// Low half of the seconds.
        tv_sec_lo: u32,
        /// Nanoseconds within the second.
        tv_nsec: u32,
    },
    /// The capture completed; the frame's metadata is delivered and the
    /// frame is no longer tracked.
    Ready,
    /// The capture failed; the reason is delivered and the frame is no
    /// longer tracked.
    Failed {
        /// The raw failure reason (unknown, buffer constraints, stopped).
        reason: u32,
    },
}

/// A capture lifecycle notice handed to the consumer.
#[derive(Debug)]
pub enum CaptureNotice {
    /// A session's format negotiation completed; carries the negotiated
    /// formats as published.
    InitDone {
        /// The session's identity.
        session: RemoteIdentity,
        /// The negotiated formats.
        formats: Formats,
    },
    /// The compositor stopped a session.
    Stopped {
        /// The session's identity.
        session: RemoteIdentity,
    },
    /// A frame completed; carries its metadata. The frame is no longer
    /// tracked afterwards.
    Ready {
        /// The frame's identity.
        frame: RemoteIdentity,
        /// The frame's metadata.
        meta: Frame,
    },
    /// A frame failed; carries the tagged failure reason. The frame is no
    /// longer tracked afterwards.
    Failed {
        /// The frame's identity.
        frame: RemoteIdentity,
        /// The tagged failure reason.
        reason: Tagged,
    },
}

/// The known transform values of an output: the eight rotations and flips.
pub open spec fn spec_transform_table() -> Seq<u32> {
    seq![0u32, 1u32, 2u32, 3u32, 4u32, 5u32, 6u32, 7u32]
}

/// The known failure reasons of a frame: unknown, buffer constraints,
/// stopped.
pub open spec fn spec_failure_reason_table() -> Seq<u32> {
    seq![0u32, 1u32, 2u32]
}

/// How one format event changes a session's pending formats. The buffer
/// size and device replace the field; format offers append in event order.
pub open spec fn spec_formats_apply(f: FormatsView, e: SessionEvent) -> FormatsView {
    match e {
        SessionEvent::BufferSize { width, height } => FormatsView {
            buffer_size: (width, height),
            ..f
        },
        SessionEvent::ShmFormat { format } => FormatsView {
            shm_formats: f.shm_formats.push(format),
            ..f
        },
        SessionEvent::DmabufDevice { device } => FormatsView {
            dmabuf_device: Some(codec::spec_u64_at(device@, 0)),
            ..f
        },
        SessionEvent::DmabufFormat { format, modifiers } => FormatsView {
            dmabuf_formats: f.dmabuf_formats.push((format, codec::spec_u64s(modifiers@))),
            ..f
        },
        SessionEvent::Done => f,
        SessionEvent::Stopped => f,
    }
}

/// How one metadata event changes a frame's pending metadata.
pub open spec fn spec_frame_apply(m: FrameView, e: FrameEvent) -> FrameView {
    match e {
        FrameEvent::Transform { raw } => FrameView {
            transform: codec::spec_decode_enum(raw, spec_transform_table()),
            ..m
        },
        FrameEvent::Damage { x, y, width, height } => FrameView {
            damage: m.damage.push(Rect { x, y, width, height }),
            ..m
        },
        FrameEvent::PresentationTime { tv_sec_hi, tv_sec_lo, tv_nsec } => FrameView {
            present_time: Some(
                PresentTime { secs: codec::spec_join_u64(tv_sec_hi, tv_sec_lo), nanos: tv_nsec },
            ),
            ..m
        },
        FrameEvent::Ready => m,
        FrameEvent::Failed { .. } => m,
    }
}

/// A format event's effect on one session's publication state: the pending
/// formats move, the published snapshot stays.
pub open spec fn spec_session_field_step(s: SlotView<FormatsView>, e: SessionEvent) -> SlotView<
    FormatsView,
> {
    SlotView { pending: spec_formats_apply(s.pending, e), current: s.current }
}

/// The cumulative application of a sequence of format events to a
/// session's pending formats.
pub open spec fn spec_formats_fold(f: FormatsView, events: Seq<SessionEvent>) -> FormatsView
    decreases events.len(),
{
    if events.len() == 0 {
        f
    } else {
        spec_formats_fold(spec_formats_apply(f, events[0]), events.drop_first())
    }
}

/// A sequence of format events run over one session's publication state.
pub open spec fn spec_session_field_run(
    s: SlotView<FormatsView>,
    events: Seq<SessionEvent>,
) -> SlotView<FormatsView>
    decreases events.len(),
{
    if events.len() == 0 {
        s
    } else {
        spec_session_field_run(spec_session_field_step(s, events[0]), events.drop_first())
    }
}

/// Commit atomicity for capture sessions: for every sequence of format
/// events followed by one commit sentinel, the published formats equal the
/// cumulative application of all the events to the pending formats as they
/// stood after the last commit, and whether the commit is the session's
/// first publication is untouched by the format events in between — so the
/// single notice the commit fires reflects exactly the accumulated
/// negotiation.
pub proof fn lemma_session_commit_atomicity(s: SlotView<FormatsView>, events: Seq<SessionEvent>)
    ensures
        spec_session_field_run(s, events).current == s.current,
        spec_session_field_run(s, events).pending == spec_formats_fold(s.pending, events),
    decreases events.len(),
{
    if events.len() == 0 {
    } else {
        lemma_session_commit_atomicity(spec_session_field_step(s, events[0]), events.drop_first());
    }
}

/// The state synchronizer for capture: the capability bindings, the live
/// sessions and frames, and the correlation generation counter.
#[derive(Debug)]
pub struct ScreencopyState {
    /// Which capture globals each family has bound.
    pub bindings: CaptureBindings,
    /// The next unused correlation generation.
    pub next_generation: u64,
    /// The live capture sessions.
    pub sessions: EntityTable<SessionData>,
    /// The in-flight capture frames.
    pub frames: EntityTable<FrameData>,
}

/// Whether some live session carries this correlation generation.
pub open spec fn spec_session_with_generation(st: ScreencopyState, g: u64) -> bool {
    exists|i: int|
        0 <= i < st.sessions.s().len() && (#[trigger] st.sessions.s()[i]).pending.generation == g
}

/// What releasing a session's owning reference does: the session leaves the
/// table (idempotently: releasing an unknown identity changes nothing), and
/// no live session carries the released session's generation any more, so
/// frames stamped with it resolve to absent. Frames and bindings are
/// untouched; no notice fires, as release is the owner's own act.
pub open spec fn spec_session_released(
    pre: ScreencopyState,
    post: ScreencopyState,
    session: RemoteIdentity,
) -> bool {
    &&& post.bindings == pre.bindings
    &&& post.next_generation == pre.next_generation
    &&& post.frames == pre.frames
    &&& (pre.sessions.spec_contains(session) ==> exists|i: int|
        {
            &&& 0 <= i < pre.sessions.s().len()
            &&& (#[trigger] pre.sessions.s()[i]).id == session
            &&& post.sessions.s() == pre.sessions.s().remove(i)
            &&& !spec_session_with_generation(post, pre.sessions.s()[i].pending.generation)
        })
    &&& (!pre.sessions.spec_contains(session) ==> post.sessions == pre.sessions)
    &&& !post.sessions.spec_contains(session)
}

/// Correlation weak miss: once the owning reference of a session is
/// released, no live session carries that session's generation, so a frame
/// stamped with it can no longer resolve its back-reference — the `session`
/// lookup is specified to yield absent then, a non-fatal miss rather than a
/// failure.
pub proof fn lemma_correlation_weak_miss(
    pre: ScreencopyState,
    post: ScreencopyState,
    session: RemoteIdentity,
    g: u64,
)
    requires
        spec_session_released(pre, post, session),
        pre.sessions.spec_contains(session),
        exists|i: int|
            0 <= i < pre.sessions.s().len() && (#[trigger] pre.sessions.s()[i]).id == session
                && pre.sessions.s()[i].pending.generation == g,
        pre.sessions.wf(),
    ensures
        !spec_session_with_generation(post, g),
{
    let i = choose|i: int|
        0 <= i < pre.sessions.s().len() && (#[trigger] pre.sessions.s()[i]).id == session
            && pre.sessions.s()[i].pending.generation == g;
    let j = choose|j: int|
        {
            &&& 0 <= j < pre.sessions.s().len()
            &&& (#[trigger] pre.sessions.s()[j]).id == session
            &&& post.sessions.s() == pre.sessions.s().remove(j)
            &&& !spec_session_with_generation(post, pre.sessions.s()[j].pending.generation)
        };
    if i != j {
        assert(pre.sessions.s()[i].id != pre.sessions.s()[j].id);
    }
}

impl ScreencopyState {
    /// Well-formed: each table keys its entities uniquely, live sessions
    /// carry distinct generations, and every generation in use is below the
    /// next unused one.
    pub open spec fn wf(&self) -> bool {
        &&& self.sessions.wf()
        &&& self.frames.wf()
        &&& forall|i: int, j: int|
            0 <= i < j < self.sessions.s().len() ==> (
            #[trigger] self.sessions.s()[i]).pending.generation != (
            #[trigger] self.sessions.s()[j]).pending.generation
        &&& forall|i: int|
            0 <= i < self.sessions.s().len() ==> (
            #[trigger] self.sessions.s()[i]).pending.generation < self.next_generation
    }

    /// Creates a synchronizer from the capability binder's findings, with
    /// no live sessions or frames.
    pub fn new(bindings: CaptureBindings) -> (r: Self)
        ensures
            r.wf(),
            r.bindings == bindings,
            r.next_generation == 0,
            r.sessions.s().len() == 0,
            r.frames.s().len() == 0,
    {
        ScreencopyState {
            bindings,
            next_generation: 0,
            sessions: EntityTable::new(),
            frames: EntityTable::new(),
        }
    }

    /// Begins a capture session for a source, choosing the protocol family
    /// by the fallback rule: the native family if it supports the source's
    /// kind, else the portable family, else the request fails as
    /// unsupported and nothing changes. On success the session is tracked
    /// with a fresh correlation generation and empty formats, and the
    /// chosen family is returned so the embedder knows which protocol to
    /// drive.
    pub fn create_session(&mut self, session: RemoteIdentity, source: &CaptureSource) -> (r:
        Result<CaptureFamily, CaptureSourceError>)
        requires
            old(self).wf(),
            !old(self).sessions.spec_contains(session),
            old(self).next_generation < u64::MAX,
        ensures
            final(self).wf(),
            r == spec_resolve_family(old(self).bindings, source.spec_kind()),
            final(self).bindings == old(self).bindings,
            final(self).frames == old(self).frames,
            match r {
                Ok(family) => {
                    &&& final(self).next_generation == old(self).next_generation + 1
                    &&& final(self).sessions.s().len() == old(self).sessions.s().len() + 1
                    &&& forall|j: int|
                        0 <= j < old(self).sessions.s().len() ==> final(self).sessions.s()[j]
                            == old(self).sessions.s()[j]
                    &&& final(self).sessions.s().last().id == session
                    &&& final(self).sessions.s().last().current is None
                    &&& final(self).sessions.s().last().pending.family == family
                    &&& final(self).sessions.s().last().pending.generation == old(
                        self,
                    ).next_generation
                    &&& final(self).sessions.s().last().pending.formats@ == spec_initial_formats()
                },
                Err(_) => *final(self) == *old(self),
            },
    {
        let kind = source.kind();
        match resolve_capture_family(&self.bindings, kind) {
            Ok(family) => {
                let generation = self.next_generation;
                self.next_generation = self.next_generation + 1;
                let pending = SessionData { family, generation, formats: Formats::default() };
                self.sessions.insert_new(session, pending);
                proof {
                    assert forall|i: int, j: int|
                        0 <= i < j < self.sessions.s().len() implies (
                    #[trigger] self.sessions.s()[i]).pending.generation != (
                    #[trigger] self.sessions.s()[j]).pending.generation by {
                        if j == self.sessions.s().len() - 1 {
                            assert(self.sessions.s()[i] == old(self).sessions.s()[i]);
                        } else {
                            assert(self.sessions.s()[i] == old(self).sessions.s()[i]);
                            assert(self.sessions.s()[j] == old(self).sessions.s()[j]);
                        }
                    }
                    assert forall|i: int|
                        0 <= i < self.sessions.s().len() implies (
                    #[trigger] self.sessions.s()[i]).pending.generation
                        < self.next_generation by {
                        if i < self.sessions.s().len() - 1 {
                            assert(self.sessions.s()[i] == old(self).sessions.s()[i]);
                        }
                    }
                }
                Ok(family)
            },
            Err(e) => Err(e),
        }
    }

    /// Releases the owner's reference to a session: it stops being tracked,
    /// and in-flight frames stamped with its generation will resolve to
    /// absent. Idempotent; no notice fires.
    pub fn release_session(&mut self, session: RemoteIdentity)
        requires
            old(self).wf(),
        ensures
            final(self).wf(),
            spec_session_released(*old(self), *final(self), session),
    {
        match self.sessions.position(session) {
            Some(i) => {
                let ghost ii = i as int;
                let ghost g = self.sessions.s()[ii].pending.generation;
                let slot = self.sessions.remove_at(i);
                proof {
                    assert forall|a: int, b: int|
                        0 <= a < b < self.sessions.s().len() implies (
                    #[trigger] self.sessions.s()[a]).pending.generation != (
                    #[trigger] self.sessions.s()[b]).pending.generation by {
                        let a0 = if a < ii { a } else { a + 1 };
                        let b0 = if b < ii { b } else { b + 1 };
                        assert(self.sessions.s()[a] == old(self).sessions.s()[a0]);
                        assert(self.sessions.s()[b] == old(self).sessions.s()[b0]);
                    }
                    assert forall|a: int|
                        0 <= a < self.sessions.s().len() implies (
                    #[trigger] self.sessions.s()[a]).pending.generation != g by {
                        let a0 = if a < ii { a } else { a + 1 };
                        assert(self.sessions.s()[a] == old(self).sessions.s()[a0]);
                        if a0 != ii {
                            assert(old(self).sessions.s()[a0].pending.generation != old(
                                self,
                            ).sessions.s()[ii].pending.generation);
                        }
                    }
                    assert forall|a: int|
                        0 <= a < self.sessions.s().len() implies (
                    #[trigger] self.sessions.s()[a]).pending.generation
                        < self.next_generation by {
                        let a0 = if a < ii { a } else { a + 1 };
                        assert(self.sessions.s()[a] == old(self).sessions.s()[a0]);
                    }
                    assert(!spec_session_with_generation(*self, g));
                }
            },
            None => {},
        }
    }

    /// Begins one capture from a live session into a new frame: the frame
    /// is tracked with empty metadata, stamped with the session's
    /// generation as its non-owning back-reference.
    pub fn capture(&mut self, frame: RemoteIdentity, session: RemoteIdentity)
        requires
            old(self).wf(),
            old(self).sessions.spec_contains(session),
            !old(self).frames.spec_contains(frame),
        ensures
            final(self).wf(),
            final(self).bindings == old(self).bindings,
            final(self).next_generation == old(self).next_generation,
            final(self).sessions == old(self).sessions,
            final(self).frames.s().len() == old(self).frames.s().len() + 1,
            forall|j: int|
                0 <= j < old(self).frames.s().len() ==> final(self).frames.s()[j] == old(
                    self,
                ).frames.s()[j],
            final(self).frames.s().last().id == frame,
            final(self).frames.s().last().current is None,
            final(self).frames.s().last().pending.frame@ == spec_initial_frame(),
            exists|i: int|
                0 <= i < old(self).sessions.s().len() && (#[trigger] old(self).sessions.s()[i]).id
                    == session && final(self).frames.s().last().pending.session_generation == old(
                    self,
                ).sessions.s()[i].pending.generation,
    {
        let i = self.sessions.position(session).unwrap();
        let ghost ii = i as int;
        let generation = self.sessions.slots[i].pending.generation;
        let pending = FrameData { session_generation: generation, frame: Frame::default() };
        self.frames.insert_new(frame, pending);
    }

    /// Handles an event of one capture session. Format events accumulate in
    /// the session's pending formats and fire no notice; the commit
    /// sentinel publishes them and fires exactly one notice carrying the
    /// negotiated formats; a stop removes the session and fires one notice.
    /// An event for a session that is no longer tracked (its owner released
    /// it while the event was in flight) is a non-fatal miss: nothing
    /// changes and nothing fires.
    pub fn handle_session_event(&mut self, session: RemoteIdentity, e: SessionEvent) -> (r: Vec<
        CaptureNotice,
    >)
        requires
            old(self).wf(),
            e matches SessionEvent::DmabufDevice { device } ==> device@.len() == 8,
        ensures
            final(self).wf(),
            final(self).bindings == old(self).bindings,
            final(self).next_generation == old(self).next_generation,
            final(self).frames == old(self).frames,
            !old(self).sessions.spec_contains(session) ==> *final(self) == *old(self) && r@.len()
                == 0,
            old(self).sessions.spec_contains(session) ==> match e {
                SessionEvent::Done => exists|i: int|
                    {
                        &&& 0 <= i < old(self).sessions.s().len()
                        &&& (#[trigger] old(self).sessions.s()[i]).id == session
                        &&& final(self).sessions.s().len() == old(self).sessions.s().len()
                        &&& forall|j: int|
                            0 <= j < old(self).sessions.s().len() && j != i ==> final(self).sessions.s()[j] == old(self).sessions.s()[j]
                        &&& final(self).sessions.s()[i].id == session
                        &&& final(self).sessions.s()[i].pending == old(self).sessions.s()[i].pending
                        &&& final(self).sessions.s()[i].current matches Some(c) && c@ == old(
                            self,
                        ).sessions.s()[i].pending@
                        &&& r@.len() == 1
                        &&& r@[0] matches CaptureNotice::InitDone { session: s2, formats } && s2
                            == session && formats@ == old(self).sessions.s()[i].pending.formats@
                    },
                SessionEvent::Stopped => {
                    &&& spec_session_released(*old(self), *final(self), session)
                    &&& r@.len() == 1
                    &&& r@[0] == (CaptureNotice::Stopped { session })
                },
                _ => exists|i: int|
                    {
                        &&& 0 <= i < old(self).sessions.s().len()
                        &&& (#[trigger] old(self).sessions.s()[i]).id == session
                        &&& final(self).sessions.s().len() == old(self).sessions.s().len()
                        &&& forall|j: int|
                            0 <= j < old(self).sessions.s().len() && j != i ==> final(self).sessions.s()[j] == old(self).sessions.s()[j]
                        &&& final(self).sessions.s()[i].id == session
                        &&& final(self).sessions.s()[i].current == old(self).sessions.s()[i].current
                        &&& final(self).sessions.s()[i].pending.family == old(
                            self,
                        ).sessions.s()[i].pending.family
                        &&& final(self).sessions.s()[i].pending.generation == old(
                            self,
                        ).sessions.s()[i].pending.generation
                        &&& final(self).sessions.s()[i].pending.formats@ == spec_formats_apply(
                            old(self).sessions.s()[i].pending.formats@,
                            e,
                        )
                        &&& r@.len() == 0
                    },
            },
    {
        let pos = self.sessions.position(session);
        match pos {
            None => Vec::new(),
            Some(i) => {
                let ghost ii = i as int;
                match e {
                    SessionEvent::Done => {
                        let formats = self.sessions.slots[i].pending.formats.dup();
                        let _was_new = self.sessions.commit_at(i);
                        let mut r: Vec<CaptureNotice> = Vec::new();
                        r.push(CaptureNotice::InitDone { session, formats });
                        proof {
                            assert forall|a: int, b: int|
                                0 <= a < b < self.sessions.s().len() implies (
                            #[trigger] self.sessions.s()[a]).pending.generation != (
                            #[trigger] self.sessions.s()[b]).pending.generation by {
                                assert(self.sessions.s()[a].pending == old(
                                    self,
                                ).sessions.s()[a].pending);
                                assert(self.sessions.s()[b].pending == old(
                                    self,
                                ).sessions.s()[b].pending);
                            }
                            assert forall|a: int|
                                0 <= a < self.sessions.s().len() implies (
                            #[trigger] self.sessions.s()[a]).pending.generation
                                < self.next_generation by {
                                assert(self.sessions.s()[a].pending == old(
                                    self,
                                ).sessions.s()[a].pending);
                            }
                        }
                        r
                    },
                    SessionEvent::Stopped => {
                        self.release_session(session);
                        let mut r: Vec<CaptureNotice> = Vec::new();
                        r.push(CaptureNotice::Stopped { session });
                        r
                    },
                    _ => {
                        let mut slot = self.sessions.remove_at(i);
                        match e {
                            SessionEvent::BufferSize { width, height } => {
                                slot.pending.formats.buffer_size = (width, height);
                            },
                            SessionEvent::ShmFormat { format } => {
                                slot.pending.formats.shm_formats.push(format);
                            },
                            SessionEvent::DmabufDevice { device } => {
                                let words = codec::decode_u64s(device.as_slice());
                                slot.pending.formats.dmabuf_device = Some(words[0]);
                            },
                            SessionEvent::DmabufFormat { format, modifiers } => {
                                let ghost before = slot.pending.formats@.dmabuf_formats;
                                let mods = codec::decode_u64s(modifiers.as_slice());
                                slot.pending.formats.dmabuf_formats.push((format, mods));
                                proof {
                                    assert(slot.pending.formats@.dmabuf_formats =~= before.push(
                                        (format, codec::spec_u64s(modifiers@)),
                                    ));
                                }
                            },
                            SessionEvent::Done => {},
                            SessionEvent::Stopped => {},
                        }
                        self.sessions.insert_at(i, slot);
                        proof {
                            assert forall|j: int|
                                0 <= j < old(self).sessions.s().len() && j
                                    != ii implies self.sessions.s()[j] == old(
                                self,
                            ).sessions.s()[j] by {
                                if j < ii {
                                } else {
                                    assert(self.sessions.s()[j] == old(self).sessions.s().remove(
                                        ii,
                                    )[j - 1]);
                                }
                            }
                            assert forall|a: int, b: int|
                                0 <= a < b < self.sessions.s().len() implies (
                            #[trigger] self.sessions.s()[a]).pending.generation != (
                            #[trigger] self.sessions.s()[b]).pending.generation by {
                                assert(self.sessions.s()[a].pending.generation == old(
                                    self,
                                ).sessions.s()[a].pending.generation);
                                assert(self.sessions.s()[b].pending.generation == old(
                                    self,
                                ).sessions.s()[b].pending.generation);
                            }
                            assert forall|a: int|
                                0 <= a < self.sessions.s().len() implies (
                            #[trigger] self.sessions.s()[a]).pending.generation
                                < self.next_generation by {
                                assert(self.sessions.s()[a].pending.generation == old(
                                    self,
                                ).sessions.s()[a].pending.generation);
                            }
                        }
                        Vec::new()
                    },
                }
            },
        }
    }

    /// Handles an event of one capture frame. Metadata events accumulate in
    /// the frame's pending metadata and fire no notice; completion fires
    /// exactly one ready notice carrying the accumulated metadata, and
    /// failure exactly one failed notice with the tagged reason — in both
    /// cases the frame stops being tracked. An event for an unknown frame
    /// changes nothing and fires nothing.
    pub fn handle_frame_event(&mut self, frame: RemoteIdentity, e: FrameEvent) -> (r: Vec<
        CaptureNotice,
    >)
        requires
            old(self).wf(),
        ensures
            final(self).wf(),
            final(self).bindings == old(self).bindings,
            final(self).next_generation == old(self).next_generation,
            final(self).sessions == old(self).sessions,
            !old(self).frames.spec_contains(frame) ==> *final(self) == *old(self) && r@.len() == 0,
            old(self).frames.spec_contains(frame) ==> match e {
                FrameEvent::Ready => exists|i: int|
                    {
                        &&& 0 <= i < old(self).frames.s().len()
                        &&& (#[trigger] old(self).frames.s()[i]).id == frame
                        &&& final(self).frames.s() == old(self).frames.s().remove(i)
                        &&& r@.len() == 1
                        &&& r@[0] == (CaptureNotice::Ready {
                            frame,
                            meta: old(self).frames.s()[i].pending.frame,
                        })
                        &&& !final(self).frames.spec_contains(frame)
                    },
                FrameEvent::Failed { reason } => exists|i: int|
                    {
                        &&& 0 <= i < old(self).frames.s().len()
                        &&& (#[trigger] old(self).frames.s()[i]).id == frame
                        &&& final(self).frames.s() == old(self).frames.s().remove(i)
                        &&& r@.len() == 1
                        &&& r@[0] == (CaptureNotice::Failed {
                            frame,
                            reason: codec::spec_decode_enum(reason, spec_failure_reason_table()),
                        })
                        &&& !final(self).frames.spec_contains(frame)
                    },
                _ => exists|i: int|
                    {
                        &&& 0 <= i < old(self).frames.s().len()
                        &&& (#[trigger] old(self).frames.s()[i]).id == frame
                        &&& final(self).frames.s().len() == old(self).frames.s().len()
                        &&& forall|j: int|
                            0 <= j < old(self).frames.s().len() && j != i ==> final(self).frames.s()[j] == old(self).frames.s()[j]
                        &&& final(self).frames.s()[i].id == frame
                        &&& final(self).frames.s()[i].current == old(self).frames.s()[i].current
                        &&& final(self).frames.s()[i].pending.session_generation == old(
                            self,
                        ).frames.s()[i].pending.session_generation
                        &&& final(self).frames.s()[i].pending.frame@ == spec_frame_apply(
                            old(self).frames.s()[i].pending.frame@,
                            e,
                        )
                        &&& r@.len() == 0
                    },
            },
    {
        let pos = self.frames.position(frame);
        match pos {
            None => Vec::new(),
            Some(i) => {
                let ghost ii = i as int;
                match e {
                    FrameEvent::Ready => {
                        let slot = self.frames.remove_at(i);
                        let mut r: Vec<CaptureNotice> = Vec::new();
                        r.push(CaptureNotice::Ready { frame, meta: slot.pending.frame });
                        r
                    },
                    FrameEvent::Failed { reason } => {
                        let table: [u32; 3] = [0, 1, 2];
                        proof {
                            assert(table@ =~= spec_failure_reason_table());
                        }
                        let tagged = codec::decode_enum(reason, table.as_slice());
                        let _slot = self.frames.remove_at(i);
                        let mut r: Vec<CaptureNotice> = Vec::new();
                        r.push(CaptureNotice::Failed { frame, reason: tagged });
                        r
                    },
                    _ => {
                        let mut slot = self.frames.remove_at(i);
                        match e {
                            FrameEvent::Transform { raw } => {
                                let table: [u32; 8] = [0, 1, 2, 3, 4, 5, 6, 7];
                                proof {
                                    assert(table@ =~= spec_transform_table());
                                }
                                slot.pending.frame.transform = codec::decode_enum(
                                    raw,
                                    table.as_slice(),
                                );
                            },
                            FrameEvent::Damage { x, y, width, height } => {
                                slot.pending.frame.damage.push(Rect { x, y, width, height });
                            },
                            FrameEvent::PresentationTime { tv_sec_hi, tv_sec_lo, tv_nsec } => {
                                let secs = codec::join_u64(tv_sec_hi, tv_sec_lo);
                                slot.pending.frame.present_time = Some(
                                    PresentTime { secs, nanos: tv_nsec },
                                );
                            },
                            FrameEvent::Ready => {},
                            FrameEvent::Failed { .. } => {},
                        }
                        self.frames.insert_at(i, slot);
                        proof {
                            assert forall|j: int|
                                0 <= j < old(self).frames.s().len() && j
                                    != ii implies self.frames.s()[j] == old(self).frames.s()[j] by {
                                if j < ii {
                                } else {
                                    assert(self.frames.s()[j] == old(self).frames.s().remove(
                                        ii,
                                    )[j - 1]);
                                }
                            }
                        }
                        Vec::new()
                    },
                }
            },
        }
    }

    /// Resolves a frame's non-owning back-reference to its owning session:
    /// the identity of the live session carrying the frame's stamped
    /// generation. Absent — never an error — if the frame is not tracked
    /// or the session has been released or stopped.
    pub fn session(&self, frame: RemoteIdentity) -> (r: Option<RemoteIdentity>)
        requires
            self.wf(),
        ensures
            match r {
                Some(sid) => exists|i: int, j: int|
                    {
                        &&& 0 <= i < self.frames.s().len()
                        &&& (#[trigger] self.frames.s()[i]).id == frame
                        &&& 0 <= j < self.sessions.s().len()
                        &&& (#[trigger] self.sessions.s()[j]).pending.generation
                            == self.frames.s()[i].pending.session_generation
                        &&& self.sessions.s()[j].id == sid
                    },
                None => forall|i: int|
                    0 <= i < self.frames.s().len() && (#[trigger] self.frames.s()[i]).id == frame
                        ==> !spec_session_with_generation(
                        *self,
                        self.frames.s()[i].pending.session_generation,
                    ),
            },
    {
        match self.frames.position(frame) {
            Some(i) => {
                let ghost ii = i as int;
                let g = self.frames.slots[i].pending.session_generation;
                let mut k: usize = 0;
                while k < self.sessions.slots.len()
                    invariant
                        self.wf(),
                        ii == i as int,
                        0 <= ii < self.frames.s().len(),
                        self.frames.s()[ii].id == frame,
                        g == self.frames.s()[ii].pending.session_generation,
                        k <= self.sessions.s().len(),
                        forall|j: int|
                            0 <= j < k ==> (#[trigger] self.sessions.s()[j]).pending.generation
                                != g,
                    decreases self.sessions.s().len() - k,
                {
                    if self.sessions.slots[k].pending.generation == g {
                        return Some(self.sessions.slots[k].id);
                    }
                    k = k + 1;
                }
                proof {
                    assert forall|j: int|
                        0 <= j < self.frames.s().len() && (#[trigger] self.frames.s()[j]).id
                            == frame implies !spec_session_with_generation(
                        *self,
                        self.frames.s()[j].pending.session_generation,
                    ) by {
                        if j != ii {
                            assert(self.frames.s()[j].id != self.frames.s()[ii].id);
                        }
                    }
                }
                None
            },
            None => None,
        }
    }
}

} // verus!
