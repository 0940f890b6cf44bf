use pkg_unpack::{is_tex_path, Entry, Pkg, PkgError};

fn archive(version: &[u8], entries: &[(&[u8], u32, u32)], data: &[u8]) -> Vec<u8> {
    let mut b = Vec::new();
    b.extend_from_slice(&(version.len() as u32).to_le_bytes());
    b.extend_from_slice(version);
    b.extend_from_slice(&(entries.len() as u32).to_le_bytes());
    for (path, offset, size) in entries {
        b.extend_from_slice(&(path.len() as u32).to_le_bytes());
        b.extend_from_slice(path);
        b.extend_from_slice(&offset.to_le_bytes());
        b.extend_from_slice(&size.to_le_bytes());
    }
    b.extend_from_slice(data);
    b
}

fn r8_texture(width: u32, height: u32, payload: &[u8]) -> Vec<u8> {
    let mut b = Vec::new();
    b.extend_from_slice(b"TEXV0005\0TEXI0001\0");
    b.extend_from_slice(&9u32.to_le_bytes());
    b.extend_from_slice(&[0u8; 4]);
    b.extend_from_slice(&width.to_le_bytes());
    b.extend_from_slice(&height.to_le_bytes());
    b.extend_from_slice(&[0u8; 12]);
    b.extend_from_slice(b"TEXB0003\0");
    b.extend_from_slice(&1u32.to_le_bytes());
    b.extend_from_slice(&[0u8; 16]);
    b.extend_from_slice(&0u32.to_le_bytes());
    b.extend_from_slice(&0u32.to_le_bytes());
    b.extend_from_slice(&(payload.len() as u32).to_le_bytes());
    b.extend_from_slice(payload);
    b
}

#[test]
fn opens_header_and_entries() {
    let data = archive(b"PKGV0001", &[(b"a/b.txt", 2, 3), (b"c.bin", 0, 2)], b"xyhello");
    let pkg = Pkg::new(&data).unwrap();
    assert_eq!(pkg.header.version, "PKGV0001");
    assert_eq!(pkg.header.file_count, 2);
    assert_eq!(pkg.entries.len(), 2);
    assert_eq!(pkg.entries[0].path, "a/b.txt");
    assert_eq!((pkg.entries[0].offset, pkg.entries[0].size), (2, 3));
    assert_eq!(pkg.data_start, data.len() - 7);
    assert_eq!(pkg.files, vec![b"hel".to_vec(), b"xy".to_vec()]);
}

#[test]
fn blob_offsets_are_relative_to_data_section() {
    let data = archive(b"V", &[(b"x", 5, 2)], b"0123456789");
    let pkg = Pkg::new(&data).unwrap();
    let start = pkg.data_start;
    assert_eq!(&data[start + 5..start + 7], b"56");
    assert_eq!(pkg.files[0], b"56".to_vec());
}

#[test]
fn empty_archive() {
    let data = archive(b"", &[], b"");
    let pkg = Pkg::new(&data).unwrap();
    assert_eq!(pkg.header.version, "");
    assert!(pkg.entries.is_empty());
    assert_eq!(pkg.data_start, 8);
}

#[test]
fn blob_past_end_is_io() {
    let data = archive(b"V", &[(b"x", 8, 3)], b"0123456789");
    assert_eq!(Pkg::new(&data).err(), Some(PkgError::Io));
}

#[test]
fn truncated_table_is_io() {
    let data = archive(b"V", &[(b"name", 0, 0)], b"");
    assert_eq!(Pkg::new(&data[..data.len() - 3]).err(), Some(PkgError::Io));
    assert_eq!(Pkg::new(&data[..3]).err(), Some(PkgError::Io));
    let mut more = archive(b"V", &[], b"");
    more[5..9].copy_from_slice(&5u32.to_le_bytes());
    assert_eq!(Pkg::new(&more).err(), Some(PkgError::Io));
}

#[test]
fn invalid_utf8_is_format_error() {
    let bad_path = archive(b"V", &[(&[0xC3, 0x28], 0, 0)], b"");
    assert_eq!(Pkg::new(&bad_path).err(), Some(PkgError::Format));
    let bad_version = archive(&[0xFF], &[], b"");
    assert_eq!(Pkg::new(&bad_version).err(), Some(PkgError::Format));
}

#[test]
fn utf8_paths_decoded() {
    let data = archive("v1".as_bytes(), &[("dir/é.tex".as_bytes(), 0, 0)], b"");
    let pkg = Pkg::new(&data).unwrap();
    assert_eq!(pkg.entries[0].path, "dir/é.tex");
}

#[test]
fn read_blob_checks_bounds() {
    let data = b"abcdef";
    let entry = Entry { path: "x".to_string(), offset: 1, size: 2 };
    assert_eq!(Pkg::read_blob(data, 2, &entry), Ok(b"de".to_vec()));
    let far = Entry { path: "x".to_string(), offset: 3, size: 2 };
    assert_eq!(Pkg::read_blob(data, 2, &far), Err(PkgError::Io));
}

#[test]
fn tex_extension_rule() {
    assert!(is_tex_path("a.tex"));
    assert!(is_tex_path("materials/x/y.tex"));
    assert!(!is_tex_path(".tex"));
    assert!(!is_tex_path("dir/.tex"));
    assert!(!is_tex_path("a.tex.json"));
    assert!(!is_tex_path("a.TEX"));
    assert!(!is_tex_path("tex"));
}

#[test]
fn end_to_end_r8_texture() {
    let tex = r8_texture(2, 1, &[5, 6]);
    let data = archive(b"PKGV0001", &[(b"materials/t.tex", 0, tex.len() as u32)], &tex);
    let pkg = Pkg::new(&data).unwrap();
    let t = pkg_unpack::Tex::new(&pkg.files[0]).unwrap();
    assert_eq!(t.parse_to_rgba(), Some(vec![5, 5, 5, 255, 6, 6, 6, 255]));
    let out = pkg.save_pkg(true);
    assert_eq!(out.len(), 1);
    let (png, ext) = out[0].clone().unwrap();
    assert_eq!(ext, Some("png".to_string()));
    let img = image::load_from_memory_with_format(&png, image::ImageFormat::Png).unwrap();
    assert_eq!((img.width(), img.height()), (2, 1));
    assert_eq!(img.into_rgba8().into_raw(), vec![5, 5, 5, 255, 6, 6, 6, 255]);
}

#[test]
fn save_without_conversion_keeps_bytes() {
    let tex = r8_texture(2, 1, &[5, 6]);
    let data = archive(b"V", &[(b"t.tex", 0, tex.len() as u32), (b"n.txt", 0, 2)], &tex);
    let pkg = Pkg::new(&data).unwrap();
    let out = pkg.save_pkg(false);
    assert_eq!(out[0], Ok((tex.clone(), None)));
    assert_eq!(out[1], Ok((tex[..2].to_vec(), None)));
}

#[test]
fn failed_entry_leaves_others() {
    let tex = r8_texture(2, 1, &[5, 6]);
    let mut data_section = tex.clone();
    data_section.extend_from_slice(b"junk");
    let n = tex.len() as u32;
    let data = archive(b"V", &[(b"bad.tex", n, 4), (b"good.tex", 0, n), (b"note.txt", n, 4)], &data_section);
    let pkg = Pkg::new(&data).unwrap();
    let out = pkg.save_pkg(true);
    assert_eq!(out[0], Err(PkgError::Io));
    assert!(matches!(&out[1], Ok((_, Some(ext))) if ext == "png"));
    assert_eq!(out[2], Ok((b"junk".to_vec(), None)));
}
