//! Image format plumbing for an image optimiser: container sniffing and
//! header walks, the in-memory image model and its orientation algebra,
//! the geometry and budget rules of the command line, and the small
//! parsers and naming rules around them.

pub mod text;
pub mod format;
pub mod error;
pub mod image;
pub mod params;
pub mod codecs;
pub mod bytes;
pub mod heif_dl;
pub mod heif_wic;
pub mod heif_imageio;
pub mod cli;
pub mod content;
pub mod registry;
pub mod backends;
pub mod metric;
