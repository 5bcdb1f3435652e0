//! Quality-target search for lossy image recompression.
//!
//! Given an image, a lossy encoder and a perceptual-similarity comparator,
//! the library searches the encoder's quality axis (0 to 100) for the
//! candidate whose distortion lands closest to a caller-supplied target,
//! enumerates chroma-subsampling variants where the format supports them,
//! and finally prefers a lossless encoding when it is strictly smaller in
//! bytes than the best lossy candidate.
//!
//! Distortion is measured in integer units chosen by the caller (for
//! example millionths of a similarity score): 0 means perceptually
//! identical, larger means more different. The encoders and the comparator
//! are collaborators supplied through the [`codec::ImageCodec`] trait; the
//! search logic itself is verified against the trait's contracts.

pub mod codec;
pub mod orchestrate;
pub mod search;
pub mod select;
pub mod table_codec;
pub mod types;
