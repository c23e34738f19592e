use glycin_image_rs::metadata::image_metadata;

fn chunk(out: &mut Vec<u8>, kind: &[u8; 4], data: &[u8]) {
    out.extend_from_slice(&(data.len() as u32).to_be_bytes());
    out.extend_from_slice(kind);
    out.extend_from_slice(data);
    out.extend_from_slice(&[0; 4]); // checksum, not checked
}

fn png_with_metadata() -> Vec<u8> {
    let mut png = vec![0x89, b'P', b'N', b'G', 0x0D, 0x0A, 0x1A, 0x0A];
    chunk(&mut png, b"tEXt", b"Title\0Hello");
    chunk(&mut png, b"tEXt", b"Author\0Me");
    chunk(&mut png, b"eXIf", b"EXIF!");
    chunk(&mut png, b"cICP", &[9, 16, 0, 1]);
    chunk(&mut png, b"IEND", &[]);
    png
}

#[test]
fn png_metadata() {
    let png = png_with_metadata();
    let m = image_metadata(png.clone());
    assert_eq!(m.data, png);
    assert_eq!(m.exif, Some(b"EXIF!".to_vec()));
    assert_eq!(m.xmp, None);
    assert_eq!(
        m.key_value,
        Some(vec![
            ("Author".to_string(), "Me".to_string()),
            ("Title".to_string(), "Hello".to_string()),
        ])
    );
    assert_eq!(m.cicp, Some((9, 16, 0, 1)));
}

#[test]
fn matches_gufo() {
    let png = png_with_metadata();
    let m = image_metadata(png.clone());
    let (raw, _) = gufo::RawMetadata::for_guessed(png.clone()).unwrap();
    assert_eq!(m.exif.as_ref(), raw.exif.first());
    assert_eq!(m.xmp.as_ref(), raw.xmp.first());
    let kv: Vec<(String, String)> = raw.key_value.into_iter().collect();
    assert_eq!(m.key_value, Some(kv));
    let cicp = gufo::Image::new(png).unwrap().cicp().map(|c| c.to_bytes());
    assert_eq!(m.cicp.map(|(a, b, c, d)| [a, b, c, d]), cicp);
}

#[test]
fn unrecognised_bytes_have_no_metadata() {
    let data = b"DDS \x7c\x00\x00\x00 not an image gufo knows".to_vec();
    let m = image_metadata(data.clone());
    assert_eq!(m.data, data);
    assert_eq!(m.exif, None);
    assert_eq!(m.xmp, None);
    assert_eq!(m.key_value, None);
    assert_eq!(m.cicp, None);
}

#[test]
fn png_without_metadata() {
    let mut png = vec![0x89, b'P', b'N', b'G', 0x0D, 0x0A, 0x1A, 0x0A];
    chunk(&mut png, b"IEND", &[]);
    let m = image_metadata(png.clone());
    assert_eq!(m.data, png);
    assert_eq!(m.exif, None);
    assert_eq!(m.key_value, Some(vec![]));
    assert_eq!(m.cicp, None);
}
