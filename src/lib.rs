//! Frame extraction for decoded video: the stride-aware repacking of pixel
//! planes, the per-frame conversion dispatch, and the decisions that drive a
//! forward-only sequence of decoded frames.

mod error;
mod frame;
mod repack;
mod sequence;

pub use error::Error;
pub use frame::{
    convert_failed, Frame, PackedImage, PixelFormat, Plane,
};
pub use repack::{
    lemma_packed_contiguous, lemma_packed_index, lemma_packed_len, lemma_packed_marker_rows,
    packed_rows, pixel_byte, repack_plane, row_bytes,
};
pub use sequence::{
    decodes_cleanly, drive, ended_after, frame_count, lemma_early_termination,
    lemma_stream_filtering, selected, step_action, DecodeOutcome, Event, Frames, SourcePackets,
    Step,
};
