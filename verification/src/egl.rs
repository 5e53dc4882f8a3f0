//! A handle pair for an image imported into a GPU context.
//!
//! The import itself — driver calls, buffer negotiation — is the embedding
//! program's business and happens outside this crate; what is tracked here
//! is the opaque pair of handle values the import produced, so consumers
//! can carry it through the capture pipeline as plain data.

use vstd::prelude::*;

verus! {

/// An imported GPU image: the display handle it was imported on and the
/// image handle itself, both as the opaque machine words the embedding
/// program's GPU layer produced.
#[derive(Clone, Copy, Debug, PartialEq, Eq, Structural)]
pub struct EGLImage {
    /// The display handle the image was imported on.
    pub display: usize,
    /// The raw image handle.
    pub image: usize,
}

impl EGLImage {
    /// Wraps the handle pair an import produced.
    pub fn new(display: usize, image: usize) -> (r: Self)
        ensures
            r.display == display,
            r.image == image,
    {
        EGLImage { display, image }
    }

    /// The display handle the image was imported on.
    pub fn display(&self) -> (r: usize)
        ensures
            r == self.display,
    {
        self.display
    }

    /// The raw image handle.
    pub fn ptr(&self) -> (r: usize)
        ensures
            r == self.image,
    {
        self.image
    }
}

} // verus!
