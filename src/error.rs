use vstd::prelude::*;

verus! {

/// What can go wrong while opening a source or converting a frame.
#[derive(Debug, Clone, Copy, PartialEq, Eq)]
pub enum Error {
    /// A failure described by a fixed message (no video stream, an image
    /// that could not be built from the repacked bytes).
    Static(&'static str),
    /// A failure reported by the video decoding library, as its error code.
    Ffmpeg(i32),
}

} // verus!
