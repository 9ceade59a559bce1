//! Abstractions for the exploration and extraction of CD-i disc-image data.
//!
//! The crate models the fixed 2352-byte sector format of CD-i real-time
//! files: [`data::cdi_file::CdiFile`] splits a raw byte buffer into typed
//! sectors, [`data::cdi_sector::CdiSector`] decodes the subheader of a
//! single sector, and the modules under [`helpers`] decode the audio
//! (predictive ADPCM) and video (DYUV, CLUT, RLE) payload formats into
//! PCM sample streams and RGBA pixel buffers.

pub mod data;
pub mod helpers;
