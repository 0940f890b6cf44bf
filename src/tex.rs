//! Texture blobs: the fixed header, the payload, and its conversion to PNG
//! bytes or RGBA pixels.
use vstd::prelude::*;
use crate::bytes::{copy_range, le_u32, u32_at};
use crate::error::PkgError;
use crate::format::{
    spec_pixel_format,
    PixelFormat,
    classify_signature,
    from_signature,
    signature_format,
    signature_of,
    spec_tex_format,
    tex_format,
    TexFormat,
};
use crate::pixels::{
    count_pixels,
    decode_image,
    dxt1_decode,
    dxt5_decode,
    dxt_rgba,
    image_rgba,
    pixel_count,
    png_of,
    r8_rgba,
    r8_to_rgba,
    rg88_rgba,
    rg88_to_rgba,
    rgba_to_png,
};
use crate::text::{lossy_string, lossy_utf8};

verus! {

/// Where the header's fields lie. Only a layout tag of `TEXB0004` carries a
/// mipmap count, four bytes after the image count's reserved words.
#[derive(Debug, Clone, Copy, PartialEq, Eq, Structural)]
pub enum HeaderLayout {
    /// No mipmap-count field.
    Basic,
    /// A mipmap-count field (`TEXB0004`).
    WithMipmapCount,
}

/// The layout tag that declares a mipmap count: `TEXB0004`.
pub open spec fn mipmap_layout_tag() -> Seq<u8> {
    seq![0x54u8, 0x45u8, 0x58u8, 0x42u8, 0x30u8, 0x30u8, 0x30u8, 0x34u8]
}

/// Offsets of the fixed fields.
pub const VERSION_TAG_AT: usize = 0;
pub const INFO_TAG_AT: usize = 9;
pub const FORMAT_CODE_AT: usize = 18;
pub const WIDTH_AT: usize = 26;
pub const HEIGHT_AT: usize = 30;
pub const LAYOUT_TAG_AT: usize = 46;
pub const IMAGE_COUNT_AT: usize = 55;
pub const MIPMAP_COUNT_AT: usize = 67;
/// Where the payload starts in the layout without a mipmap count.
pub const BASIC_HEADER_LEN: usize = 87;
pub const TAG_LEN: usize = 8;

/// The layout that the tag at offset 46 selects; `b` holds at least the
/// basic header.
pub open spec fn spec_layout(b: Seq<u8>) -> HeaderLayout {
    if b.subrange(46, 54) == mipmap_layout_tag() {
        HeaderLayout::WithMipmapCount
    } else {
        HeaderLayout::Basic
    }
}

/// Offset of the payload: after the compression flag, the declared
/// decompressed size and the payload size.
pub open spec fn payload_start(b: Seq<u8>) -> int {
    match spec_layout(b) {
        HeaderLayout::Basic => 87,
        HeaderLayout::WithMipmapCount => 91,
    }
}

/// `b` holds a whole header.
pub open spec fn header_fits(b: Seq<u8>) -> bool {
    b.len() >= 87 && b.len() >= payload_start(b)
}

pub open spec fn stored_size(b: Seq<u8>) -> u32 {
    le_u32(b, payload_start(b) - 4)
}

pub open spec fn declared_size(b: Seq<u8>) -> u32 {
    le_u32(b, payload_start(b) - 8)
}

pub open spec fn is_compressed(b: Seq<u8>) -> bool {
    le_u32(b, payload_start(b) - 12) == 1
}

pub open spec fn format_code(b: Seq<u8>) -> u32 {
    le_u32(b, 18)
}

/// `b` holds the header and the whole stored payload.
pub open spec fn tex_fits(b: Seq<u8>) -> bool {
    header_fits(b) && b.len() - payload_start(b) >= stored_size(b)
}

pub open spec fn stored_payload(b: Seq<u8>) -> Seq<u8> {
    b.subrange(payload_start(b), payload_start(b) + stored_size(b))
}

/// What LZ4 block decompression of `src` into at most `size` bytes gives,
/// or `None` where the stream is corrupt.
pub uninterp spec fn lz4_block(src: Seq<u8>, size: i32) -> Option<Seq<u8>>;

/// Relies on `lz4::block::decompress` with an explicit size: the output holds
/// at most `size` bytes.
#[verifier::external_body]
fn lz4_decompress(src: &[u8], size: i32) -> (r: Option<Vec<u8>>)
    ensures
        r matches Some(v) ==> lz4_block(src@, size) == Some(v@),
        r matches Some(v) ==> v@.len() <= size,
        r is None ==> lz4_block(src@, size) is None,
{
    lz4::block::decompress(src, Some(size)).ok()
}

/// A compressed payload expanded to exactly `declared` bytes.
pub open spec fn expanded(stored: Seq<u8>, declared: u32) -> Result<Seq<u8>, PkgError> {
    if declared > i32::MAX {
        Err(PkgError::Decompress)
    } else {
        match lz4_block(stored, declared as i32) {
            Some(v) => if v.len() == declared {
                Ok(v)
            } else {
                Err(PkgError::Decompress)
            },
            None => Err(PkgError::Decompress),
        }
    }
}

/// The payload of texture blob `b`, decompressed where its flag says so.
pub open spec fn tex_payload(b: Seq<u8>) -> Result<Seq<u8>, PkgError> {
    if !tex_fits(b) {
        Err(PkgError::Io)
    } else if is_compressed(b) {
        expanded(stored_payload(b), declared_size(b))
    } else {
        Ok(stored_payload(b))
    }
}

/// The output file of a decoded payload: PNG bytes for pixel layouts, the
/// payload itself for everything else, with the extension to write it under.
pub open spec fn image_output(format: TexFormat, payload: Seq<u8>, width: u32, height: u32) -> Result<
    (Seq<u8>, Seq<char>),
    PkgError,
> {
    match format {
        TexFormat::Png => Ok((payload, "png"@)),
        TexFormat::Jpg => Ok((payload, "jpg"@)),
        TexFormat::Unknown => Ok((payload, "tex"@)),
        TexFormat::R8 => if payload.len() != pixel_count(width, height) || 4 * payload.len()
            > usize::MAX {
            Err(PkgError::Convert)
        } else {
            as_png_file(png_of(r8_rgba(payload), width, height))
        },
        TexFormat::Rg88 => if payload.len() != 2 * pixel_count(width, height) || 2 * payload.len()
            > usize::MAX {
            Err(PkgError::Convert)
        } else {
            as_png_file(png_of(rg88_rgba(payload), width, height))
        },
        TexFormat::Dxt1 => match dxt_rgba(payload, width, height, false) {
            Ok(px) => as_png_file(png_of(px, width, height)),
            Err(e) => Err(e),
        },
        TexFormat::Dxt5 => match dxt_rgba(payload, width, height, true) {
            Ok(px) => as_png_file(png_of(px, width, height)),
            Err(e) => Err(e),
        },
    }
}

pub open spec fn as_png_file(r: Result<Seq<u8>, PkgError>) -> Result<(Seq<u8>, Seq<char>), PkgError> {
    match r {
        Ok(f) => Ok((f, "png"@)),
        Err(e) => Err(e),
    }
}

/// The RGBA pixels of a decoded payload, where it has any.
pub open spec fn rgba_output(format: TexFormat, payload: Seq<u8>, width: u32, height: u32) -> Option<
    Seq<u8>,
> {
    match format {
        TexFormat::Png => image_rgba(payload, true),
        TexFormat::Jpg => image_rgba(payload, false),
        TexFormat::Unknown => None,
        TexFormat::R8 => if payload.len() != pixel_count(width, height) || 4 * payload.len()
            > usize::MAX {
            None
        } else {
            Some(r8_rgba(payload))
        },
        TexFormat::Rg88 => if payload.len() != 2 * pixel_count(width, height) || 2 * payload.len()
            > usize::MAX {
            None
        } else {
            Some(rg88_rgba(payload))
        },
        TexFormat::Dxt1 => match dxt_rgba(payload, width, height, false) {
            Ok(px) => Some(px),
            Err(_) => None,
        },
        TexFormat::Dxt5 => match dxt_rgba(payload, width, height, true) {
            Ok(px) => Some(px),
            Err(_) => None,
        },
    }
}

/// The output file of texture blob `b`.
pub open spec fn tex_image(b: Seq<u8>) -> Result<(Seq<u8>, Seq<char>), PkgError> {
    match tex_payload(b) {
        Err(e) => Err(e),
        Ok(p) => image_output(spec_tex_format(format_code(b), p), p, le_u32(b, 26), le_u32(b, 30)),
    }
}

/// A texture whose format code is outside the table is passed through: its
/// output is its payload, unchanged, under the extension `tex`, and never an
/// error once the payload itself has been read.
pub proof fn lemma_unknown_code_passes_through(b: Seq<u8>)
    requires
        tex_payload(b) is Ok,
        spec_pixel_format(format_code(b)) == PixelFormat::Unknown,
    ensures
        tex_image(b) == Ok::<(Seq<u8>, Seq<char>), PkgError>((tex_payload(b)->Ok_0, "tex"@)),
{
}

/// A compressed payload is accepted only where it expands to exactly the
/// declared decompressed size.
pub proof fn lemma_expanded_to_declared_size(b: Seq<u8>)
    requires
        tex_fits(b),
        is_compressed(b),
        tex_payload(b) is Ok,
    ensures
        tex_payload(b)->Ok_0.len() == declared_size(b),
        declared_size(b) <= i32::MAX,
{
}

/// A parsed texture blob.
pub struct Tex {
    /// Version tag, bytes 0..8, decoded leniently.
    pub texv: String,
    /// Info tag, bytes 9..17.
    pub texi: String,
    /// Layout tag, bytes 46..54.
    pub texb: String,
    pub layout: HeaderLayout,
    /// The header's pixel-format code.
    pub format_code: u32,
    /// Size of the payload as stored.
    pub size: u32,
    /// Width and height.
    pub dimension: [u32; 2],
    pub image_count: u32,
    /// Zero where the layout has no mipmap count.
    pub mipmap_count: u32,
    /// The payload is LZ4-compressed.
    pub lz4: bool,
    pub decompressed_size: u32,
    /// What the payload holds.
    pub format: TexFormat,
    /// The payload, decompressed.
    pub payload: Vec<u8>,
}

impl Tex {
    /// The header fields of this texture are those of blob `b`, and its
    /// payload is `p`.
    pub open spec fn parsed_from(&self, b: Seq<u8>, p: Seq<u8>) -> bool {
        &&& self.texv@ == lossy_utf8(b.subrange(0, 8))
        &&& self.texi@ == lossy_utf8(b.subrange(9, 17))
        &&& self.texb@ == lossy_utf8(b.subrange(46, 54))
        &&& self.layout == spec_layout(b)
        &&& self.format_code == format_code(b)
        &&& self.size == stored_size(b)
        &&& self.dimension@ == seq![le_u32(b, 26), le_u32(b, 30)]
        &&& self.image_count == le_u32(b, 55)
        &&& self.mipmap_count == (if spec_layout(b) == HeaderLayout::WithMipmapCount {
            le_u32(b, 67)
        } else {
            0u32
        })
        &&& self.lz4 == is_compressed(b)
        &&& self.decompressed_size == declared_size(b)
        &&& self.format == spec_tex_format(format_code(b), p)
        &&& self.payload@ == p
    }

    /// Parses a texture blob: the header, then the payload, which is
    /// decompressed where the header's flag is 1 and must then expand to the
    /// declared size. A blob cut short fails with `Io`, a bad LZ4 stream or
    /// size with `Decompress`.
    pub fn new(bytes: &[u8]) -> (r: Result<Tex, PkgError>)
        ensures
            match tex_payload(bytes@) {
                Ok(p) => r matches Ok(t) && t.parsed_from(bytes@, p),
                Err(e) => r == Err::<Tex, PkgError>(e),
            },
    {
        if bytes.len() < BASIC_HEADER_LEN {
            return Err(PkgError::Io);
        }
        let layout = Self::read_layout(bytes);
        let start: usize = match layout {
            HeaderLayout::Basic => BASIC_HEADER_LEN,
            HeaderLayout::WithMipmapCount => BASIC_HEADER_LEN + 4,
        };
        if bytes.len() < start {
            return Err(PkgError::Io);
        }
        let size = u32_at(bytes, start - 4);
        if bytes.len() - start < size as usize {
            return Err(PkgError::Io);
        }
        let stored = copy_range(bytes, start, start + size as usize);
        let lz4 = u32_at(bytes, start - 12) == 1;
        let decompressed_size = u32_at(bytes, start - 8);
        let payload = if lz4 {
            if decompressed_size > i32::MAX as u32 {
                return Err(PkgError::Decompress);
            }
            match lz4_decompress(stored.as_slice(), decompressed_size as i32) {
                Some(v) => {
                    if v.len() != decompressed_size as usize {
                        return Err(PkgError::Decompress);
                    }
                    v
                },
                None => {
                    return Err(PkgError::Decompress);
                },
            }
        } else {
            stored
        };
        let format_code = u32_at(bytes, FORMAT_CODE_AT);
        let format = tex_format(format_code, payload.as_slice());
        let mipmap_count = match layout {
            HeaderLayout::Basic => 0,
            HeaderLayout::WithMipmapCount => u32_at(bytes, MIPMAP_COUNT_AT),
        };
        let width = u32_at(bytes, WIDTH_AT);
        let height = u32_at(bytes, HEIGHT_AT);
        let texv = lossy_string(&bytes[VERSION_TAG_AT..VERSION_TAG_AT + TAG_LEN]);
        let texi = lossy_string(&bytes[INFO_TAG_AT..INFO_TAG_AT + TAG_LEN]);
        let texb = lossy_string(&bytes[LAYOUT_TAG_AT..LAYOUT_TAG_AT + TAG_LEN]);
        let t = Tex {
            texv,
            texi,
            texb,
            layout,
            format_code,
            size,
            dimension: [width, height],
            image_count: u32_at(bytes, IMAGE_COUNT_AT),
            mipmap_count,
            lz4,
            decompressed_size,
            format,
            payload,
        };
        assert(t.dimension@ =~= seq![le_u32(bytes@, 26), le_u32(bytes@, 30)]);
        Ok(t)
    }

    /// Width and height.
    pub open spec fn spec_size(&self) -> (u32, u32) {
        (self.dimension@[0], self.dimension@[1])
    }

    /// The file to write for this texture: block-compressed, grey and
    /// grey-alpha pixels become PNG bytes tagged `png`; PNG and JPEG payloads
    /// pass through tagged `png` and `jpg`; anything else passes through
    /// tagged `tex`.
    pub fn parse_to_image(&self) -> (r: Result<(Vec<u8>, String), PkgError>)
        ensures
            r matches Ok((v, s)) ==> image_output(
                self.format,
                self.payload@,
                self.spec_size().0,
                self.spec_size().1,
            ) == Ok::<(Seq<u8>, Seq<char>), PkgError>((v@, s@)),
            r matches Err(e) ==> image_output(
                self.format,
                self.payload@,
                self.spec_size().0,
                self.spec_size().1,
            ) == Err::<(Seq<u8>, Seq<char>), PkgError>(e),
    {
        let width = self.dimension[0];
        let height = self.dimension[1];
        let payload = self.payload.as_slice();
        match self.format {
            TexFormat::Png | TexFormat::Jpg | TexFormat::Unknown => {
                Ok((self.payload.clone(), self.format.tag()))
            },
            TexFormat::R8 => {
                if !Self::fits_pixels(payload, width, height, 1) {
                    return Err(PkgError::Convert);
                }
                let rgba = r8_to_rgba(payload);
                Self::raw_to_png(rgba.as_slice(), width, height)
            },
            TexFormat::Rg88 => {
                if !Self::fits_pixels(payload, width, height, 2) {
                    return Err(PkgError::Convert);
                }
                match rg88_to_rgba(payload) {
                    Some(rgba) => Self::raw_to_png(rgba.as_slice(), width, height),
                    None => Err(PkgError::Convert),
                }
            },
            TexFormat::Dxt1 => match dxt1_decode(payload, width, height) {
                Ok(rgba) => Self::raw_to_png(rgba.as_slice(), width, height),
                Err(e) => Err(e),
            },
            TexFormat::Dxt5 => match dxt5_decode(payload, width, height) {
                Ok(rgba) => Self::raw_to_png(rgba.as_slice(), width, height),
                Err(e) => Err(e),
            },
        }
    }

    /// The RGBA pixels of this texture: PNG and JPEG payloads are decoded,
    /// pixel layouts expanded; `None` for an unknown format or pixels that
    /// do not fit the dimensions.
    pub fn parse_to_rgba(&self) -> (r: Option<Vec<u8>>)
        ensures
            r matches Some(v) ==> rgba_output(
                self.format,
                self.payload@,
                self.spec_size().0,
                self.spec_size().1,
            ) == Some(v@),
            r is None ==> rgba_output(
                self.format,
                self.payload@,
                self.spec_size().0,
                self.spec_size().1,
            ) is None,
    {
        let width = self.dimension[0];
        let height = self.dimension[1];
        let payload = self.payload.as_slice();
        match self.format {
            TexFormat::Png => decode_image(payload, true),
            TexFormat::Jpg => decode_image(payload, false),
            TexFormat::Unknown => None,
            TexFormat::R8 => {
                if !Self::fits_pixels(payload, width, height, 1) {
                    return None;
                }
                Some(r8_to_rgba(payload))
            },
            TexFormat::Rg88 => {
                if !Self::fits_pixels(payload, width, height, 2) {
                    return None;
                }
                rg88_to_rgba(payload)
            },
            TexFormat::Dxt1 => dxt1_decode(payload, width, height).ok(),
            TexFormat::Dxt5 => dxt5_decode(payload, width, height).ok(),
        }
    }

    /// `payload` holds `per_pixel` bytes for each pixel, and four bytes per
    /// pixel still fit in memory.
    fn fits_pixels(payload: &[u8], width: u32, height: u32, per_pixel: u64) -> (r: bool)
        requires
            per_pixel == 1 || per_pixel == 2,
        ensures
            r == (payload@.len() == per_pixel * pixel_count(width, height) && (4int / per_pixel as int)
                * payload@.len() <= usize::MAX),
    {
        let len: usize = payload.len();
        let count = count_pixels(width, height);
        let expected = count.checked_mul(per_pixel);
        let matches_count = match expected {
            Some(n) => len as u64 == n,
            None => false,
        };
        if !matches_count {
            return false;
        }
        let factor: usize = if per_pixel == 1 {
            4
        } else {
            2
        };
        len.checked_mul(factor).is_some()
    }

    /// PNG bytes of `width` x `height` RGBA pixels, tagged `png`.
    fn raw_to_png(bytes: &[u8], width: u32, height: u32) -> (r: Result<(Vec<u8>, String), PkgError>)
        ensures
            r matches Ok((v, s)) ==> as_png_file(png_of(bytes@, width, height)) == Ok::<
                (Seq<u8>, Seq<char>),
                PkgError,
            >((v@, s@)),
            r matches Err(e) ==> as_png_file(png_of(bytes@, width, height)) == Err::<
                (Seq<u8>, Seq<char>),
                PkgError,
            >(e),
    {
        match rgba_to_png(bytes, width, height) {
            Ok(v) => Ok((v, TexFormat::Png.tag())),
            Err(e) => Err(e),
        }
    }

    /// The extension of the standard image file that `bytes` starts with:
    /// `png`, `jpg`, or `tex` where neither signature matches. Inputs shorter
    /// than eight bytes are padded with zeros.
    pub fn match_signature(bytes: &Vec<u8>) -> (r: String)
        ensures
            r@ == signature_format(signature_of(bytes@)).spec_tag(),
    {
        from_signature(classify_signature(bytes.as_slice())).tag()
    }

    /// The layout that the tag at offset 46 selects.
    fn read_layout(bytes: &[u8]) -> (r: HeaderLayout)
        requires
            bytes@.len() >= 87,
        ensures
            r == spec_layout(bytes@),
    {
        let tag = &bytes[LAYOUT_TAG_AT..LAYOUT_TAG_AT + TAG_LEN];
        let expected: Vec<u8> = vec![0x54u8, 0x45u8, 0x58u8, 0x42u8, 0x30u8, 0x30u8, 0x30u8, 0x34u8];
        assert(expected@ =~= mipmap_layout_tag());
        let mut i: usize = 0;
        while i < TAG_LEN
            invariant
                i <= 8,
                bytes@.len() >= 87,
                tag@ == bytes@.subrange(46, 54),
                expected@ == mipmap_layout_tag(),
                forall|j: int| 0 <= j < i ==> tag@[j] == expected@[j],
            decreases 8 - i,
        {
            if tag[i] != expected[i] {
                assert(tag@[i as int] != mipmap_layout_tag()[i as int]);
                return HeaderLayout::Basic;
            }
            i = i + 1;
        }
        assert(tag@ =~= mipmap_layout_tag());
        HeaderLayout::WithMipmapCount
    }
}

/// Parses texture blob `bytes` and turns it into the file to write, with
/// its extension.
pub fn parse(bytes: &[u8]) -> (r: Result<(Vec<u8>, String), PkgError>)
    ensures
        r matches Ok((v, s)) ==> tex_image(bytes@) == Ok::<(Seq<u8>, Seq<char>), PkgError>((v@, s@)),
        r matches Err(e) ==> tex_image(bytes@) == Err::<(Seq<u8>, Seq<char>), PkgError>(e),
{
    match Tex::new(bytes) {
        Ok(t) => t.parse_to_image(),
        Err(e) => Err(e),
    }
}

} // verus!
