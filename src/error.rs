use vstd::prelude::*;

verus! {

/// Why an archive or a texture could not be read or converted.
#[derive(Debug, Clone, Copy, PartialEq, Eq, Structural)]
pub enum PkgError {
    /// The input ends before a field or blob that it declares.
    Io,
    /// A length-prefixed string is not valid UTF-8.
    Format,
    /// The LZ4 stream is corrupt or does not expand to the declared size.
    Decompress,
    /// The pixel data does not fit the declared dimensions.
    Convert,
    /// The image encoder or decoder rejected the pixels.
    Encode,
}

} // verus!
