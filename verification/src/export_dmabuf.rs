//! Dmabuf export: assembles the per-frame metadata that the export
//! extension streams as separate device, frame and plane events, and hands
//! the completed description over exactly once when the frame is ready.
//!
//! Unlike the other entity streams, a frame here is created implicitly by
//! its first event and has no pending/current split: the accumulated
//! description is delivered once, on the ready event, and the entry is
//! dropped; a cancel drops it without delivery.

use vstd::prelude::*;

use crate::codec;
use crate::identity::RemoteIdentity;
use crate::table::{copy_vec, Duplicable, EntityTable};

verus! {

/// One plane of an exported dmabuf frame. The file descriptor is carried
/// as its raw number, owned by the embedding program.
#[derive(Clone, Copy, Debug, PartialEq, Eq, Structural)]
pub struct Object {
    /// The raw file descriptor number of the plane's buffer.
    pub fd: i32,
    /// The object's index.
    pub index: u32,
    /// The plane's byte offset in its buffer.
    pub offset: u32,
    /// The plane's row stride in bytes.
    pub stride: u32,
    /// The plane's index in the format.
    pub plane_index: u32,
}

/// The complete description of one exported dmabuf frame.
#[derive(Debug)]
pub struct DmabufFrame {
    /// The device the buffers belong to.
    pub node: u64,
    /// Width in pixels.
    pub width: u32,
    /// Height in pixels.
    pub height: u32,
    /// The planes announced so far, in announcement order.
    pub objects: Vec<Object>,
    /// The format modifier.
    pub modifier: u64,
    /// The fourcc format code.
    pub format: u32,
    /// The raw buffer flags.
    pub flags: u32,
}

/// The abstract value of a dmabuf frame description.
pub ghost struct DmabufFrameView {
    /// The device the buffers belong to.
    pub node: u64,
    /// Width in pixels.
    pub width: u32,
    /// Height in pixels.
    pub height: u32,
    /// The planes announced so far.
    pub objects: Seq<Object>,
    /// The format modifier.
    pub modifier: u64,
    /// The fourcc format code.
    pub format: u32,
    /// The raw buffer flags.
    pub flags: u32,
}

impl View for DmabufFrame {
    type V = DmabufFrameView;

    open spec fn view(&self) -> DmabufFrameView {
        DmabufFrameView {
            node: self.node,
            width: self.width,
            height: self.height,
            objects: self.objects@,
            modifier: self.modifier,
            format: self.format,
            flags: self.flags,
        }
    }
}

impl Duplicable for DmabufFrame {
    fn dup(&self) -> (r: Self) {
        DmabufFrame {
            node: self.node,
            width: self.width,
            height: self.height,
            objects: copy_vec(&self.objects),
            modifier: self.modifier,
            format: self.format,
            flags: self.flags,
        }
    }
}

/// The description of a frame that has received no events yet.
pub open spec fn spec_initial_dmabuf() -> DmabufFrameView {
    DmabufFrameView {
        node: 0,
        width: 0,
        height: 0,
        objects: Seq::empty(),
        modifier: 0,
        format: 0,
        flags: 0,
    }
}

impl Default for DmabufFrame {
    /// The description of a frame that has received no events yet.
    fn default() -> (r: Self)
        ensures
            r@ == spec_initial_dmabuf(),
    {
        let r = DmabufFrame {
            node: 0,
            width: 0,
            height: 0,
            objects: Vec::new(),
            modifier: 0,
            format: 0,
            flags: 0,
        };
        proof {
            assert(r@.objects =~= spec_initial_dmabuf().objects);
        }
        r
    }
}

/// An event of one exported dmabuf frame.
#[derive(Debug)]
pub enum DmabufEvent {
    /// The device the buffers belong to, as an 8-byte identifier.
    Device {
        /// The raw device identifier bytes.
        node: Vec<u8>,
    },
    /// The frame's geometry and format.
    Frame {
        /// Width in pixels.
        width: u32,
        /// Height in pixels.
        height: u32,
        /// High half of the format modifier.
        mod_high: u32,
        /// Low half of the format modifier.
        mod_low: u32,
        /// The fourcc format code.
        format: u32,
        /// The raw buffer flags.
        flags: u32,
    },
    /// One plane of the frame.
    Object {
        /// The raw file descriptor number of the plane's buffer.
        fd: i32,
        /// The object's index.
        index: u32,
        /// The plane's byte offset in its buffer.
        offset: u32,
        /// The plane's row stride in bytes.
        stride: u32,
        /// The plane's index in the format.
        plane_index: u32,
    },
    /// The frame's description is complete and is delivered.
    Ready,
    /// The frame was cancelled; its description is dropped.
    Cancel,
}

/// A dmabuf export notice handed to the consumer.
#[derive(Debug)]
pub enum DmabufNotice {
    /// A frame's description is complete; the frame is no longer tracked.
    FrameReady {
        /// The frame's identity.
        frame: RemoteIdentity,
        /// The assembled description.
        dmabuf: DmabufFrame,
    },
    /// A frame was cancelled; the frame is no longer tracked.
    FrameCancelled {
        /// The frame's identity.
        frame: RemoteIdentity,
    },
}

/// How one accumulating event changes a frame's description.
pub open spec fn spec_dmabuf_apply(d: DmabufFrameView, e: DmabufEvent) -> DmabufFrameView {
    match e {
        DmabufEvent::Device { node } => DmabufFrameView {
            node: codec::spec_u64_at(node@, 0),
            ..d
        },
        DmabufEvent::Frame { width, height, mod_high, mod_low, format, flags } => DmabufFrameView {
            width,
            height,
            modifier: codec::spec_join_u64(mod_high, mod_low),
            format,
            flags,
            ..d
        },
        DmabufEvent::Object { fd, index, offset, stride, plane_index } => DmabufFrameView {
            objects: d.objects.push(Object { fd, index, offset, stride, plane_index }),
            ..d
        },
        DmabufEvent::Ready => d,
        DmabufEvent::Cancel => d,
    }
}

/// The state synchronizer for dmabuf export: the frames whose descriptions
/// are still being assembled.
#[derive(Debug)]
pub struct ExportDmabufState {
    /// The frames being assembled, in order of first event.
    pub frames: EntityTable<DmabufFrame>,
}

impl ExportDmabufState {
    /// Well-formed: the table keys its frames uniquely.
    pub open spec fn wf(&self) -> bool {
        self.frames.wf()
    }

    /// Creates an empty synchronizer with no frames in flight.
    pub fn new() -> (r: Self)
        ensures
            r.wf(),
            r.frames.s().len() == 0,
    {
        ExportDmabufState { frames: EntityTable::new() }
    }

    /// Handles an event of one exported frame. Device, frame and object
    /// events accumulate into the frame's description, creating the entry
    /// on its first event; ready delivers the description in exactly one
    /// notice and drops the entry; cancel drops it with a notice and no
    /// data. A cancel for an unknown frame still fires its notice, as the
    /// consumer may be waiting on it, but changes nothing.
    pub fn handle_frame_event(&mut self, frame: RemoteIdentity, e: DmabufEvent) -> (r: Vec<
        DmabufNotice,
    >)
        requires
            old(self).wf(),
            e matches DmabufEvent::Device { node } ==> node@.len() == 8,
            e matches DmabufEvent::Ready ==> old(self).frames.spec_contains(frame),
        ensures
            final(self).wf(),
            match e {
                DmabufEvent::Ready => exists|i: int|
                    {
                        &&& 0 <= i < old(self).frames.s().len()
                        &&& (#[trigger] old(self).frames.s()[i]).id == frame
                        &&& final(self).frames.s() == old(self).frames.s().remove(i)
                        &&& r@.len() == 1
                        &&& r@[0] == (DmabufNotice::FrameReady {
                            frame,
                            dmabuf: old(self).frames.s()[i].pending,
                        })
                        &&& !final(self).frames.spec_contains(frame)
                    },
                DmabufEvent::Cancel => {
                    &&& r@.len() == 1
                    &&& r@[0] == (DmabufNotice::FrameCancelled { frame })
                    &&& !final(self).frames.spec_contains(frame)
                    &&& (old(self).frames.spec_contains(frame) ==> exists|i: int|
                        {
                            &&& 0 <= i < old(self).frames.s().len()
                            &&& (#[trigger] old(self).frames.s()[i]).id == frame
                            &&& final(self).frames.s() == old(self).frames.s().remove(i)
                        })
                    &&& (!old(self).frames.spec_contains(frame) ==> final(self).frames == old(
                        self,
                    ).frames)
                },
                _ => {
                    &&& r@.len() == 0
                    &&& (old(self).frames.spec_contains(frame) ==> exists|i: int|
                        {
                            &&& 0 <= i < old(self).frames.s().len()
                            &&& (#[trigger] old(self).frames.s()[i]).id == frame
                            &&& final(self).frames.s().len() == old(self).frames.s().len()
                            &&& forall|j: int|
                                0 <= j < old(self).frames.s().len() && j != i ==> final(self).frames.s()[j] == old(self).frames.s()[j]
                            &&& final(self).frames.s()[i].id == frame
                            &&& final(self).frames.s()[i].current == old(self).frames.s()[i].current
                            &&& final(self).frames.s()[i].pending@ == spec_dmabuf_apply(
                                old(self).frames.s()[i].pending@,
                                e,
                            )
                        })
                    &&& (!old(self).frames.spec_contains(frame) ==> {
                        &&& final(self).frames.s().len() == old(self).frames.s().len() + 1
                        &&& forall|j: int|
                            0 <= j < old(self).frames.s().len() ==> final(self).frames.s()[j]
                                == old(self).frames.s()[j]
                        &&& final(self).frames.s().last().id == frame
                        &&& final(self).frames.s().last().current is None
                        &&& final(self).frames.s().last().pending@ == spec_dmabuf_apply(
                            spec_initial_dmabuf(),
                            e,
                        )
                    })
                },
            },
    {
        match e {
            DmabufEvent::Ready => {
                let i = self.frames.position(frame).unwrap();
                let slot = self.frames.remove_at(i);
                let mut r: Vec<DmabufNotice> = Vec::new();
                r.push(DmabufNotice::FrameReady { frame, dmabuf: slot.pending });
                r
            },
            DmabufEvent::Cancel => {
                match self.frames.position(frame) {
                    Some(i) => {
                        let _slot = self.frames.remove_at(i);
                    },
                    None => {},
                }
                let mut r: Vec<DmabufNotice> = Vec::new();
                r.push(DmabufNotice::FrameCancelled { frame });
                r
            },
            _ => {
                let i = match self.frames.position(frame) {
                    Some(i) => i,
                    None => {
                        self.frames.insert_new(frame, DmabufFrame::default());
                        self.frames.len() - 1
                    },
                };
                let ghost ii = i as int;
                let ghost mid = self.frames.s();
                let mut slot = self.frames.remove_at(i);
                match e {
                    DmabufEvent::Device { node } => {
                        let words = codec::decode_u64s(node.as_slice());
                        slot.pending.node = words[0];
                    },
                    DmabufEvent::Frame { width, height, mod_high, mod_low, format, flags } => {
                        slot.pending.width = width;
                        slot.pending.height = height;
                        slot.pending.modifier = codec::join_u64(mod_high, mod_low);
                        slot.pending.format = format;
                        slot.pending.flags = flags;
                    },
                    DmabufEvent::Object { fd, index, offset, stride, plane_index } => {
                        slot.pending.objects.push(
                            Object { fd, index, offset, stride, plane_index },
                        );
                    },
                    DmabufEvent::Ready => {},
                    DmabufEvent::Cancel => {},
                }
                self.frames.insert_at(i, slot);
                proof {
                    assert forall|j: int|
                        0 <= j < mid.len() && j != ii implies self.frames.s()[j] == mid[j] by {
                        if j < ii {
                        } else {
                            assert(self.frames.s()[j] == mid.remove(ii)[j - 1]);
                        }
                    }
                    if !old(self).frames.spec_contains(frame) {
                        assert(ii == mid.len() - 1);
                        assert forall|j: int|
                            0 <= j < old(self).frames.s().len() implies self.frames.s()[j] == old(
                            self,
                        ).frames.s()[j] by {
                            assert(self.frames.s()[j] == mid[j]);
                        }
                    }
                }
                Vec::new()
            },
        }
    }
}

} // verus!
