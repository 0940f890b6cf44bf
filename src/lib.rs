//! Reading asset archives and decoding the textures stored in them.
//!
//! An archive holds a table of named blobs; a texture blob holds a fixed
//! header followed by a pixel payload, possibly LZ4-compressed, which is
//! turned into PNG bytes or an RGBA buffer.
pub mod bytes;
pub mod error;
pub mod format;
pub mod pixels;
pub mod pkg;
pub mod tex;
pub mod text;

pub use error::PkgError;
pub use format::{classify_signature, pixel_format, tex_format, ImageSignature, PixelFormat, TexFormat};
pub use pixels::{dxt1_decode, dxt5_decode, r8_to_rgba, rg88_to_rgba, rgba_to_png};
pub use pkg::{is_tex_path, Entry, Header, Pkg};
pub use tex::{parse, HeaderLayout, Tex};
