use pkg_unpack::{classify_signature, pixel_format, tex_format, ImageSignature, PixelFormat, Tex, TexFormat};

#[test]
fn format_code_table() {
    assert_eq!(pixel_format(0), PixelFormat::Raw);
    assert_eq!(pixel_format(4), PixelFormat::Dxt5);
    assert_eq!(pixel_format(6), PixelFormat::Dxt5);
    assert_eq!(pixel_format(7), PixelFormat::Dxt1);
    assert_eq!(pixel_format(8), PixelFormat::Rg88);
    assert_eq!(pixel_format(9), PixelFormat::R8);
    assert_eq!(pixel_format(1), PixelFormat::Unknown);
    assert_eq!(pixel_format(255), PixelFormat::Unknown);
    assert_eq!(pixel_format(u32::MAX), PixelFormat::Unknown);
}

#[test]
fn signature_png() {
    let png = [0x89u8, 0x50, 0x4E, 0x47, 0x0D, 0x0A, 0x1A, 0x0A];
    assert_eq!(classify_signature(&png), ImageSignature::Png);
    let mut longer = png.to_vec();
    longer.extend_from_slice(&[1, 2, 3]);
    assert_eq!(classify_signature(&longer), ImageSignature::Png);
}

#[test]
fn signature_jpeg() {
    assert_eq!(classify_signature(&[0xFF, 0xD8, 0xFF, 0xE0, 0, 0x10, 0x4A, 0x46]), ImageSignature::Jpeg);
    assert_eq!(classify_signature(&[0xFF, 0xD8, 0xFF]), ImageSignature::Jpeg);
}

#[test]
fn signature_other_eight_bytes() {
    assert_eq!(classify_signature(&[0u8; 8]), ImageSignature::Unknown);
    assert_eq!(classify_signature(&[0x89, 0x50, 0x4E, 0x47, 0x0D, 0x0A, 0x1A, 0x0B]), ImageSignature::Unknown);
    assert_eq!(classify_signature(&[0xFF, 0xD8, 0xFE, 0, 0, 0, 0, 0]), ImageSignature::Unknown);
}

#[test]
fn signature_short_input_is_padded() {
    assert_eq!(classify_signature(&[0xFF, 0xD8]), ImageSignature::Unknown);
    assert_eq!(classify_signature(&[0x89, 0x50]), ImageSignature::Unknown);
    assert_eq!(classify_signature(&[]), ImageSignature::Unknown);
}

#[test]
fn match_signature_tags() {
    let png = vec![0x89u8, 0x50, 0x4E, 0x47, 0x0D, 0x0A, 0x1A, 0x0A];
    assert_eq!(Tex::match_signature(&png), "png");
    assert_eq!(Tex::match_signature(&vec![0xFF, 0xD8, 0xFF, 0]), "jpg");
    assert_eq!(Tex::match_signature(&vec![1, 2]), "tex");
}

#[test]
fn raw_payload_reclassified() {
    let png = [0x89u8, 0x50, 0x4E, 0x47, 0x0D, 0x0A, 0x1A, 0x0A];
    assert_eq!(tex_format(0, &png), TexFormat::Png);
    assert_eq!(tex_format(0, &[0xFF, 0xD8, 0xFF]), TexFormat::Jpg);
    assert_eq!(tex_format(0, &[1, 2, 3]), TexFormat::Unknown);
    assert_eq!(tex_format(9, &png), TexFormat::R8);
}

#[test]
fn format_tags() {
    assert_eq!(TexFormat::Png.tag(), "png");
    assert_eq!(TexFormat::Jpg.tag(), "jpg");
    assert_eq!(TexFormat::Dxt1.tag(), "dxt1");
    assert_eq!(TexFormat::Dxt5.tag(), "dxt5");
    assert_eq!(TexFormat::Rg88.tag(), "rg88");
    assert_eq!(TexFormat::R8.tag(), "r8");
    assert_eq!(TexFormat::Unknown.tag(), "tex");
}
