//! Toplevel management: decodes the capability list the management
//! extension announces, so a consumer knows which management requests
//! (close, activate, maximize, ...) the compositor honours.

use vstd::prelude::*;

use crate::codec;
use crate::codec::Tagged;

verus! {

/// The known management capability values: close, activate, maximize,
/// minimize, fullscreen, move-to-workspace.
pub open spec fn spec_management_capability_table() -> Seq<u32> {
    seq![1u32, 2u32, 3u32, 4u32, 5u32, 6u32]
}

/// Decodes the management extension's capability list: one 4-byte
/// little-endian word per capability, each tagged against the known table,
/// wire order preserved. An unrecognized capability survives as its raw
/// word instead of being dropped.
pub fn decode_management_capabilities(bytes: &[u8]) -> (r: Vec<Tagged>)
    ensures
        r@ == codec::spec_words(bytes@).map(
            |i: int, w: u32| codec::spec_decode_enum(w, spec_management_capability_table()),
        ),
{
    let table: [u32; 6] = [1, 2, 3, 4, 5, 6];
    proof {
        assert(table@ =~= spec_management_capability_table());
    }
    codec::decode_enum_words(bytes, table.as_slice())
}

/// The state of the toplevel management extension: the capability list the
/// compositor last announced, empty until the first announcement.
#[derive(Debug)]
pub struct ToplevelManagerState {
    /// The decoded capability list, in wire order.
    pub capabilities: Vec<Tagged>,
}

impl ToplevelManagerState {
    /// Creates the state with no capabilities announced yet.
    pub fn new() -> (r: Self)
        ensures
            r.capabilities@ =~= Seq::<Tagged>::empty(),
    {
        ToplevelManagerState { capabilities: Vec::new() }
    }

    /// Handles the capability announcement: decodes the list and replaces
    /// the stored one, returning a copy of the decoded list for the
    /// consumer.
    pub fn handle_capabilities(&mut self, bytes: &[u8]) -> (r: Vec<Tagged>)
        ensures
            final(self).capabilities@ == codec::spec_words(bytes@).map(
                |i: int, w: u32| codec::spec_decode_enum(w, spec_management_capability_table()),
            ),
            r@ == final(self).capabilities@,
    {
        let decoded = decode_management_capabilities(bytes);
        let copy = crate::table::copy_vec(&decoded);
        self.capabilities = decoded;
        copy
    }
}

} // verus!
