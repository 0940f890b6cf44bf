use pkg_unpack::{dxt1_decode, dxt5_decode, r8_to_rgba, rg88_to_rgba, rgba_to_png, PkgError};

#[test]
fn r8_expands_each_byte() {
    assert_eq!(r8_to_rgba(&[10, 20]), vec![10, 10, 10, 255, 20, 20, 20, 255]);
    assert_eq!(r8_to_rgba(&[]), Vec::<u8>::new());
}

#[test]
fn rg88_uses_disjoint_pairs() {
    assert_eq!(rg88_to_rgba(&[1, 2, 3, 4]), Some(vec![1, 1, 1, 2, 3, 3, 3, 4]));
    assert_eq!(rg88_to_rgba(&[]), Some(Vec::new()));
}

#[test]
fn rg88_rejects_odd_length() {
    assert_eq!(rg88_to_rgba(&[1, 2, 3]), None);
}

fn white_bc1_block() -> Vec<u8> {
    vec![0xFF, 0xFF, 0x00, 0x00, 0, 0, 0, 0]
}

#[test]
fn dxt1_white_block() {
    let rgba = dxt1_decode(&white_bc1_block(), 4, 4).unwrap();
    assert_eq!(rgba, vec![255u8; 64]);
}

#[test]
fn dxt5_white_block() {
    let mut block = vec![0xFF, 0xFF, 0, 0, 0, 0, 0, 0];
    block.extend(white_bc1_block());
    let rgba = dxt5_decode(&block, 4, 4).unwrap();
    assert_eq!(rgba, vec![255u8; 64]);
}

#[test]
fn dxt_short_input_rejected() {
    assert_eq!(dxt1_decode(&[0u8; 7], 4, 4), Err(PkgError::Convert));
    assert_eq!(dxt5_decode(&[0u8; 16], 8, 4), Err(PkgError::Convert));
    assert_eq!(dxt1_decode(&[0u8; 8], 5, 4), Err(PkgError::Convert));
}

#[test]
fn dxt_zero_size_rejected() {
    assert_eq!(dxt1_decode(&white_bc1_block(), 0, 4), Err(PkgError::Convert));
    assert_eq!(dxt5_decode(&[0u8; 16], 4, 0), Err(PkgError::Convert));
}

#[test]
fn png_of_rgba_has_signature() {
    let png = rgba_to_png(&[1, 2, 3, 4, 5, 6, 7, 8], 2, 1).unwrap();
    assert_eq!(&png[..8], &[0x89u8, 0x50, 0x4E, 0x47, 0x0D, 0x0A, 0x1A, 0x0A]);
    let img = image::load_from_memory_with_format(&png, image::ImageFormat::Png).unwrap();
    assert_eq!(img.into_rgba8().into_raw(), vec![1, 2, 3, 4, 5, 6, 7, 8]);
}

#[test]
fn png_of_wrong_length_rejected() {
    assert_eq!(rgba_to_png(&[1, 2, 3], 1, 1), Err(PkgError::Convert));
    assert_eq!(rgba_to_png(&[0u8; 8], 1, 1), Err(PkgError::Convert));
}

#[test]
fn png_of_empty_image_rejected() {
    assert_eq!(rgba_to_png(&[], 0, 0), Err(PkgError::Encode));
}
