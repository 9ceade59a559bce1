//! Decoders for the payload formats carried inside CD-i sectors.

pub mod audio_helpers;
pub mod color_helpers;
pub mod image_format_helpers;
