//! Pixel layouts expanded to RGBA, and the outside image codecs.
use vstd::prelude::*;
use crate::error::PkgError;

verus! {

/// Each grey byte `b` becomes the pixel `(b, b, b, 255)`.
pub open spec fn r8_rgba(s: Seq<u8>) -> Seq<u8> {
    Seq::new(4 * s.len(), |i: int| if i % 4 == 3 { 255u8 } else { s[i / 4] })
}

/// Each disjoint pair `(r, g)` becomes the pixel `(r, r, r, g)`.
pub open spec fn rg88_rgba(s: Seq<u8>) -> Seq<u8> {
    Seq::new(
        4 * (s.len() / 2),
        |i: int| if i % 4 == 3 { s[2 * (i / 4) + 1] } else { s[2 * (i / 4)] },
    )
}

/// Expands one grey byte per pixel to RGBA.
pub fn r8_to_rgba(bytes: &[u8]) -> (r: Vec<u8>)
    requires
        4 * bytes@.len() <= usize::MAX,
    ensures
        r@ == r8_rgba(bytes@),
{
    let mut r: Vec<u8> = Vec::with_capacity(4 * bytes.len());
    let mut i: usize = 0;
    while i < bytes.len()
        invariant
            i <= bytes@.len(),
            r@.len() == 4 * i,
            forall|j: int| 0 <= j < 4 * i ==> r@[j] == r8_rgba(bytes@)[j],
        decreases bytes@.len() - i,
    {
        let b = bytes[i];
        r.push(b);
        r.push(b);
        r.push(b);
        r.push(255u8);
        i = i + 1;
    }
    assert(r@ =~= r8_rgba(bytes@));
    r
}

/// Expands disjoint (grey, alpha) pairs to RGBA; `None` where the length is
/// odd.
pub fn rg88_to_rgba(bytes: &[u8]) -> (r: Option<Vec<u8>>)
    requires
        2 * bytes@.len() <= usize::MAX,
    ensures
        r is Some <==> bytes@.len() % 2 == 0,
        r matches Some(v) ==> v@ == rg88_rgba(bytes@),
{
    if bytes.len() % 2 != 0 {
        return None;
    }
    let n: usize = bytes.len() / 2;
    let mut r: Vec<u8> = Vec::with_capacity(2 * bytes.len());
    let mut i: usize = 0;
    while i < n
        invariant
            n == bytes@.len() / 2,
            2 * n == bytes@.len(),
            2 * bytes@.len() <= usize::MAX,
            bytes@.len() % 2 == 0,
            i <= n,
            r@.len() == 4 * i,
            forall|j: int| 0 <= j < 4 * i ==> r@[j] == rg88_rgba(bytes@)[j],
        decreases n - i,
    {
        let g = bytes[2 * i];
        let a = bytes[2 * i + 1];
        r.push(g);
        r.push(g);
        r.push(g);
        r.push(a);
        i = i + 1;
    }
    assert(r@ =~= rg88_rgba(bytes@));
    Some(r)
}

/// The RGBA pixels that BC1 (`bc3` false) or BC3 (`bc3` true) decoding makes
/// of `source` for an image of the given size.
pub uninterp spec fn bcn_rgba(source: Seq<u8>, width: usize, height: usize, bc3: bool) -> Seq<u8>;

/// Relies on `bcndecode::decode` with RGBA output: it fails only on a zero
/// width or height, and otherwise returns four bytes per pixel, decoding the
/// blocks that `source` holds.
#[verifier::external_body]
fn bcn_decode(source: &[u8], width: usize, height: usize, bc3: bool) -> (r: Option<Vec<u8>>)
    requires
        4 * (width * height) <= usize::MAX,
    ensures
        r is Some <==> (width > 0 && height > 0),
        r matches Some(v) ==> v@ == bcn_rgba(source@, width, height, bc3),
        r matches Some(v) ==> v@.len() == 4 * (width * height),
{
    let encoding = if bc3 {
        bcndecode::BcnEncoding::Bc3
    } else {
        bcndecode::BcnEncoding::Bc1
    };
    bcndecode::decode(source, width, height, encoding, bcndecode::BcnDecoderFormat::RGBA).ok()
}

/// The PNG file that encoding `rgba` as a `width` x `height` RGBA image
/// gives, or `None` where the encoder refuses it.
pub uninterp spec fn png_file(rgba: Seq<u8>, width: u32, height: u32) -> Option<Seq<u8>>;

/// Relies on `image::ImageBuffer::from_raw` and `write_to` with
/// `ImageFormat::Png`: the output depends on the pixels and the size alone.
#[verifier::external_body]
fn encode_png(rgba: &[u8], width: u32, height: u32) -> (r: Option<Vec<u8>>)
    requires
        rgba@.len() == 4 * (width * height),
    ensures
        r matches Some(v) ==> png_file(rgba@, width, height) == Some(v@),
        r is None ==> png_file(rgba@, width, height) is None,
{
    let img = image::RgbaImage::from_raw(width, height, rgba.to_vec())?;
    let mut out: Vec<u8> = Vec::new();
    img.write_to(&mut std::io::Cursor::new(&mut out), image::ImageFormat::Png).ok()?;
    Some(out)
}

/// The RGBA pixels of the PNG (`png` true) or JPEG (`png` false) file
/// `file`, or `None` where it cannot be decoded.
pub uninterp spec fn image_rgba(file: Seq<u8>, png: bool) -> Option<Seq<u8>>;

/// Relies on `image::load_from_memory_with_format` followed by
/// `DynamicImage::into_rgba8`.
#[verifier::external_body]
pub(crate) fn decode_image(file: &[u8], png: bool) -> (r: Option<Vec<u8>>)
    ensures
        r matches Some(v) ==> image_rgba(file@, png) == Some(v@),
        r is None ==> image_rgba(file@, png) is None,
{
    let format = if png {
        image::ImageFormat::Png
    } else {
        image::ImageFormat::Jpeg
    };
    let img = image::load_from_memory_with_format(file, format).ok()?;
    Some(img.into_rgba8().into_raw())
}

/// Number of pixels of a `width` x `height` image.
pub open spec fn pixel_count(width: u32, height: u32) -> int {
    width as int * height as int
}

/// Bytes of block-compressed data that a `width` x `height` image needs:
/// one block of `block` bytes per 4 x 4 tile, partial tiles included.
pub open spec fn block_bytes(width: u32, height: u32, block: int) -> int {
    ((width as int + 3) / 4) * ((height as int + 3) / 4) * block
}

/// RGBA pixels of a BC1 or BC3 image.
pub open spec fn dxt_rgba(bytes: Seq<u8>, width: u32, height: u32, bc3: bool) -> Result<
    Seq<u8>,
    PkgError,
> {
    let block = if bc3 {
        16int
    } else {
        8int
    };
    if width == 0 || height == 0 || bytes.len() < block_bytes(width, height, block) || 4
        * pixel_count(width, height) > usize::MAX {
        Err(PkgError::Convert)
    } else {
        Ok(bcn_rgba(bytes, width as usize, height as usize, bc3))
    }
}

pub(crate) fn count_pixels(width: u32, height: u32) -> (r: u64)
    ensures
        r == pixel_count(width, height),
{
    assert(width as int * height as int <= u32::MAX as int * u32::MAX as int) by (nonlinear_arith);
    width as u64 * height as u64
}

fn dxt_decode(bytes: &[u8], width: u32, height: u32, bc3: bool) -> (r: Result<Vec<u8>, PkgError>)
    ensures
        r matches Ok(v) ==> dxt_rgba(bytes@, width, height, bc3) == Ok::<Seq<u8>, PkgError>(v@),
        r matches Err(e) ==> dxt_rgba(bytes@, width, height, bc3) == Err::<Seq<u8>, PkgError>(e),
{
    if width == 0 || height == 0 {
        return Err(PkgError::Convert);
    }
    let block: u64 = if bc3 {
        16
    } else {
        8
    };
    let tiles_x: u64 = (width as u64 + 3) / 4;
    let tiles_y: u64 = (height as u64 + 3) / 4;
    assert(tiles_x * tiles_y <= 0x4000_0000 * 0x4000_0000) by (nonlinear_arith)
        requires
            tiles_x <= 0x4000_0000,
            tiles_y <= 0x4000_0000,
    ;
    let len = bytes.len() as u64;
    let needed = (tiles_x * tiles_y).checked_mul(block);
    match needed {
        None => {
            return Err(PkgError::Convert);
        },
        Some(n) => {
            if len < n {
                return Err(PkgError::Convert);
            }
        },
    }
    let count = count_pixels(width, height);
    match count.checked_mul(4) {
        None => Err(PkgError::Convert),
        Some(n4) => {
            if n4 > usize::MAX as u64 {
                return Err(PkgError::Convert);
            }
            match bcn_decode(bytes, width as usize, height as usize, bc3) {
                Some(v) => Ok(v),
                None => Err(PkgError::Convert),
            }
        },
    }
}

/// Decodes BC1 (DXT1) blocks into RGBA.
pub fn dxt1_decode(bytes: &[u8], width: u32, height: u32) -> (r: Result<Vec<u8>, PkgError>)
    ensures
        r matches Ok(v) ==> dxt_rgba(bytes@, width, height, false) == Ok::<Seq<u8>, PkgError>(v@),
        r matches Err(e) ==> dxt_rgba(bytes@, width, height, false) == Err::<Seq<u8>, PkgError>(e),
{
    dxt_decode(bytes, width, height, false)
}

/// Decodes BC3 (DXT5) blocks into RGBA.
pub fn dxt5_decode(bytes: &[u8], width: u32, height: u32) -> (r: Result<Vec<u8>, PkgError>)
    ensures
        r matches Ok(v) ==> dxt_rgba(bytes@, width, height, true) == Ok::<Seq<u8>, PkgError>(v@),
        r matches Err(e) ==> dxt_rgba(bytes@, width, height, true) == Err::<Seq<u8>, PkgError>(e),
{
    dxt_decode(bytes, width, height, true)
}

/// A PNG file of the RGBA pixels.
pub open spec fn png_of(rgba: Seq<u8>, width: u32, height: u32) -> Result<Seq<u8>, PkgError> {
    if rgba.len() != 4 * pixel_count(width, height) {
        Err(PkgError::Convert)
    } else {
        match png_file(rgba, width, height) {
            Some(f) => Ok(f),
            None => Err(PkgError::Encode),
        }
    }
}

/// Encodes `width` x `height` RGBA pixels as a PNG file.
pub fn rgba_to_png(bytes: &[u8], width: u32, height: u32) -> (r: Result<Vec<u8>, PkgError>)
    ensures
        r matches Ok(v) ==> png_of(bytes@, width, height) == Ok::<Seq<u8>, PkgError>(v@),
        r matches Err(e) ==> png_of(bytes@, width, height) == Err::<Seq<u8>, PkgError>(e),
{
    let len = bytes.len() as u64;
    let count = count_pixels(width, height);
    let fits = match count.checked_mul(4) {
        None => false,
        Some(n4) => len == n4,
    };
    if !fits {
        return Err(PkgError::Convert);
    }
    match encode_png(bytes, width, height) {
        Some(v) => Ok(v),
        None => Err(PkgError::Encode),
    }
}

} // verus!
