//! Container sniffing and header walks, one module per format.

pub mod heif;
pub mod png;
pub mod gif;
pub mod raster;
pub mod svg;
pub mod tiff;
pub mod webp;
pub mod jpeg;
pub mod exr;
pub mod jxl;
pub mod exif;
pub mod opts;
pub mod layout;
pub mod avif;
pub mod av1;
pub mod native_heif;
pub mod ravif;
pub mod libavif;
pub mod jpegli;
pub mod libjxl;
pub mod libwebp;
pub mod mozjpeg;
pub mod pixels;
