//! Extraction of embedded JPEG previews from camera RAW files.
//!
//! A camera RAW file embeds one or more JPEG previews, described by a chain
//! of TIFF Image File Directories (IFDs). This crate locates the TIFF header
//! inside a RAW buffer, walks the IFD chain to find embedded JPEG regions,
//! selects one according to a policy, and assembles a standalone JPEG that
//! carries the original orientation in a minimal Exif header.

pub mod assembler;
pub mod laws;
pub mod scanner;
pub mod synth;
pub mod walker;

pub use scanner::EmbeddedJpegInfo;
pub use scanner::FindJpegType;
pub use scanner::ScanError;
