//! Decoding of DDS (DirectDraw Surface) textures in all BCn formats, the
//! choice of image decoder and its settings for each supported MIME type, and
//! the image metadata reported beside the pixels.

pub mod bc;
pub mod dds;
pub mod dds_laws;
pub mod loader;
pub mod message;
pub mod metadata;

pub use bc::{BcFormat, ColorType};
pub use dds::{DdsDecoder, DdsError, LoadError};
pub use loader::{DecoderKind, FormatSettings, ImageRsFormat};
