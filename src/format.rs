//! What a texture's payload holds: the pixel layout named by the header's
//! format code, and the image file signatures recognised in raw payloads.
use vstd::prelude::*;
use vstd::string::StringExecFns;

verus! {

/// The pixel layout that a texture header's format code names.
#[derive(Debug, Clone, Copy, PartialEq, Eq, Structural)]
pub enum PixelFormat {
    /// Bytes stored as they are; often a whole PNG or JPEG file.
    Raw,
    /// BC1 block compression.
    Dxt1,
    /// BC3 block compression.
    Dxt5,
    /// Two bytes per pixel: grey level and alpha.
    Rg88,
    /// One grey byte per pixel.
    R8,
    /// A code outside the table: the payload is passed through.
    Unknown,
}

/// The format-code table.
pub open spec fn spec_pixel_format(code: u32) -> PixelFormat {
    if code == 0 {
        PixelFormat::Raw
    } else if code == 7 {
        PixelFormat::Dxt1
    } else if code == 4 || code == 6 {
        PixelFormat::Dxt5
    } else if code == 8 {
        PixelFormat::Rg88
    } else if code == 9 {
        PixelFormat::R8
    } else {
        PixelFormat::Unknown
    }
}

/// Classifies a texture header's format code; every code has a class.
pub fn pixel_format(code: u32) -> (r: PixelFormat)
    ensures
        r == spec_pixel_format(code),
{
    match code {
        0 => PixelFormat::Raw,
        7 => PixelFormat::Dxt1,
        4 | 6 => PixelFormat::Dxt5,
        8 => PixelFormat::Rg88,
        9 => PixelFormat::R8,
        _ => PixelFormat::Unknown,
    }
}

/// A standard image file format recognised by its leading bytes.
#[derive(Debug, Clone, Copy, PartialEq, Eq, Structural)]
pub enum ImageSignature {
    Png,
    Jpeg,
    Unknown,
}

pub open spec fn png_signature() -> Seq<u8> {
    seq![0x89u8, 0x50u8, 0x4Eu8, 0x47u8, 0x0Du8, 0x0Au8, 0x1Au8, 0x0Au8]
}

pub open spec fn jpeg_signature() -> Seq<u8> {
    seq![0xFFu8, 0xD8u8, 0xFFu8]
}

/// Byte `i` of `s`, reading zero past its end.
pub open spec fn padded_byte(s: Seq<u8>, i: int) -> u8 {
    if i < s.len() {
        s[i]
    } else {
        0
    }
}

/// `s`, padded with zeros, starts with `pattern`.
pub open spec fn starts_with_padded(s: Seq<u8>, pattern: Seq<u8>) -> bool {
    forall|i: int| 0 <= i < pattern.len() ==> padded_byte(s, i) == pattern[i]
}

/// The signature table, PNG first: the first pattern that matches wins.
pub open spec fn signature_of(s: Seq<u8>) -> ImageSignature {
    if starts_with_padded(s, png_signature()) {
        ImageSignature::Png
    } else if starts_with_padded(s, jpeg_signature()) {
        ImageSignature::Jpeg
    } else {
        ImageSignature::Unknown
    }
}

fn has_padded_prefix(s: &[u8], pattern: &[u8]) -> (r: bool)
    ensures
        r == starts_with_padded(s@, pattern@),
{
    let mut i: usize = 0;
    while i < pattern.len()
        invariant
            i <= pattern@.len(),
            forall|j: int| 0 <= j < i ==> padded_byte(s@, j) == pattern@[j],
        decreases pattern@.len() - i,
    {
        let b: u8 = if i < s.len() {
            s[i]
        } else {
            0
        };
        if b != pattern[i] {
            return false;
        }
        i = i + 1;
    }
    true
}

/// Classifies the first eight bytes of `bytes`; a shorter input is padded
/// with zeros, so any input has a class.
pub fn classify_signature(bytes: &[u8]) -> (r: ImageSignature)
    ensures
        r == signature_of(bytes@),
{
    let png: Vec<u8> = vec![0x89u8, 0x50u8, 0x4Eu8, 0x47u8, 0x0Du8, 0x0Au8, 0x1Au8, 0x0Au8];
    let jpeg: Vec<u8> = vec![0xFFu8, 0xD8u8, 0xFFu8];
    assert(png@ =~= png_signature());
    assert(jpeg@ =~= jpeg_signature());
    if has_padded_prefix(bytes, png.as_slice()) {
        ImageSignature::Png
    } else if has_padded_prefix(bytes, jpeg.as_slice()) {
        ImageSignature::Jpeg
    } else {
        ImageSignature::Unknown
    }
}

/// What a decoded texture's payload holds, once raw payloads have been
/// classified by their signature.
#[derive(Debug, Clone, Copy, PartialEq, Eq, Structural)]
pub enum TexFormat {
    Png,
    Jpg,
    Dxt1,
    Dxt5,
    Rg88,
    R8,
    /// Nothing known: the payload is passed through under the tag `tex`.
    Unknown,
}

/// The format of a payload whose header carries `code`.
pub open spec fn spec_tex_format(code: u32, payload: Seq<u8>) -> TexFormat {
    match spec_pixel_format(code) {
        PixelFormat::Raw => signature_format(signature_of(payload)),
        PixelFormat::Dxt1 => TexFormat::Dxt1,
        PixelFormat::Dxt5 => TexFormat::Dxt5,
        PixelFormat::Rg88 => TexFormat::Rg88,
        PixelFormat::R8 => TexFormat::R8,
        PixelFormat::Unknown => TexFormat::Unknown,
    }
}

pub open spec fn signature_format(s: ImageSignature) -> TexFormat {
    match s {
        ImageSignature::Png => TexFormat::Png,
        ImageSignature::Jpeg => TexFormat::Jpg,
        ImageSignature::Unknown => TexFormat::Unknown,
    }
}

/// The payload format that a recognised signature stands for.
pub fn from_signature(s: ImageSignature) -> (r: TexFormat)
    ensures
        r == signature_format(s),
{
    match s {
        ImageSignature::Png => TexFormat::Png,
        ImageSignature::Jpeg => TexFormat::Jpg,
        ImageSignature::Unknown => TexFormat::Unknown,
    }
}

/// Resolves a header's format code against the (decompressed) payload.
pub fn tex_format(code: u32, payload: &[u8]) -> (r: TexFormat)
    ensures
        r == spec_tex_format(code, payload@),
{
    match pixel_format(code) {
        PixelFormat::Raw => from_signature(classify_signature(payload)),
        PixelFormat::Dxt1 => TexFormat::Dxt1,
        PixelFormat::Dxt5 => TexFormat::Dxt5,
        PixelFormat::Rg88 => TexFormat::Rg88,
        PixelFormat::R8 => TexFormat::R8,
        PixelFormat::Unknown => TexFormat::Unknown,
    }
}

impl TexFormat {
    /// The file extension under which such a payload is written.
    pub open spec fn spec_tag(self) -> Seq<char> {
        match self {
            TexFormat::Png => "png"@,
            TexFormat::Jpg => "jpg"@,
            TexFormat::Dxt1 => "dxt1"@,
            TexFormat::Dxt5 => "dxt5"@,
            TexFormat::Rg88 => "rg88"@,
            TexFormat::R8 => "r8"@,
            TexFormat::Unknown => "tex"@,
        }
    }

    pub fn tag(&self) -> (r: String)
        ensures
            r@ == self.spec_tag(),
    {
        match self {
            TexFormat::Png => String::from_str("png"),
            TexFormat::Jpg => String::from_str("jpg"),
            TexFormat::Dxt1 => String::from_str("dxt1"),
            TexFormat::Dxt5 => String::from_str("dxt5"),
            TexFormat::Rg88 => String::from_str("rg88"),
            TexFormat::R8 => String::from_str("r8"),
            TexFormat::Unknown => String::from_str("tex"),
        }
    }
}

} // verus!
