use glycin_image_rs::{BcFormat, ColorType, DdsDecoder, DdsError, LoadError};
use glycin_image_rs::bc::div_ceil4;
use glycin_image_rs::dds::{read_dx10_format, read_u32_le};

fn push32(d: &mut Vec<u8>, v: u32) {
    d.extend_from_slice(&v.to_le_bytes());
}

/// A plain DDS header (128 bytes) with the given fields.
fn header_with(flags: u32, pf_size: u32, pf_flags: u32, fourcc: &[u8; 4], width: u32, height: u32) -> Vec<u8> {
    let mut d = Vec::new();
    d.extend_from_slice(b"DDS ");
    push32(&mut d, 124);
    push32(&mut d, flags);
    push32(&mut d, height);
    push32(&mut d, width);
    for _ in 0..3 {
        push32(&mut d, 0); // pitch, depth, mipmap count
    }
    for _ in 0..11 {
        push32(&mut d, 0); // reserved
    }
    push32(&mut d, pf_size);
    push32(&mut d, pf_flags);
    d.extend_from_slice(fourcc);
    for _ in 0..10 {
        push32(&mut d, 0); // bit count, masks, caps, reserved
    }
    assert_eq!(d.len(), 128);
    d
}

fn header(fourcc: &[u8; 4], width: u32, height: u32) -> Vec<u8> {
    header_with(0x1007, 32, 0x4, fourcc, width, height)
}

fn dx10_header(dxgi: u32, dim: u32, misc: u32, array_size: u32, misc2: u32, width: u32, height: u32) -> Vec<u8> {
    let mut d = header(b"DX10", width, height);
    push32(&mut d, dxgi);
    push32(&mut d, dim);
    push32(&mut d, misc);
    push32(&mut d, array_size);
    push32(&mut d, misc2);
    d
}

fn with_payload(mut d: Vec<u8>, n: usize) -> Vec<u8> {
    d.extend((0..n).map(|i| i as u8));
    d
}

fn format_of(d: &[u8]) -> BcFormat {
    DdsDecoder::new(d).unwrap().format()
}

#[test]
fn loads_bc1_with_dimensions_and_payload() {
    let data = with_payload(header(b"DXT1", 5, 3), 16);
    let dec = DdsDecoder::new(&data).unwrap();
    assert_eq!(dec.dimensions(), (5, 3));
    assert_eq!(dec.format(), BcFormat::Bc1);
    assert_eq!(dec.color_type(), ColorType::Rgba8);
    assert_eq!(dec.payload(), &data[128..144]);
}

#[test]
fn signature_error() {
    let mut data = with_payload(header(b"DXT1", 4, 4), 8);
    data[3] = b'X';
    assert_eq!(DdsDecoder::new(&data).unwrap_err(), LoadError::Decoding(DdsError::Signature));
}

#[test]
fn header_size_error() {
    let mut data = with_payload(header(b"DXT1", 4, 4), 8);
    data[4] = 123;
    assert_eq!(
        DdsDecoder::new(&data).unwrap_err(),
        LoadError::Decoding(DdsError::HeaderSize(123))
    );
}

#[test]
fn header_flags_errors() {
    // missing the pixel format flag
    let data = with_payload(header_with(0x0007, 32, 4, b"DXT1", 4, 4), 8);
    assert_eq!(
        DdsDecoder::new(&data).unwrap_err(),
        LoadError::Decoding(DdsError::HeaderFlags(0x0007))
    );
    // a flag outside the valid set
    let data = with_payload(header_with(0x1007 | 0x10, 32, 4, b"DXT1", 4, 4), 8);
    assert_eq!(
        DdsDecoder::new(&data).unwrap_err(),
        LoadError::Decoding(DdsError::HeaderFlags(0x1017))
    );
    // every valid flag is accepted
    let data = with_payload(header_with(0x008A_100F, 32, 4, b"DXT1", 4, 4), 8);
    assert!(DdsDecoder::new(&data).is_ok());
}

#[test]
fn pixel_format_size_error() {
    let data = with_payload(header_with(0x1007, 31, 4, b"DXT1", 4, 4), 8);
    assert_eq!(
        DdsDecoder::new(&data).unwrap_err(),
        LoadError::Decoding(DdsError::PixelFormatSize(31))
    );
}

#[test]
fn uncompressed_is_unsupported() {
    let data = with_payload(header_with(0x1007, 32, 0x40, b"DXT1", 4, 4), 8);
    assert_eq!(DdsDecoder::new(&data).unwrap_err(), LoadError::Uncompressed);
}

#[test]
fn unknown_fourcc_is_unsupported() {
    let data = with_payload(header(b"ABCD", 4, 4), 8);
    assert_eq!(
        DdsDecoder::new(&data).unwrap_err(),
        LoadError::UnsupportedFourCc(b'A', b'B', b'C', b'D')
    );
}

#[test]
fn fourcc_aliases() {
    let cases: [(&[u8; 4], BcFormat); 12] = [
        (b"DXT1", BcFormat::Bc1),
        (b"DXT2", BcFormat::Bc2),
        (b"DXT3", BcFormat::Bc2),
        (b"DXT4", BcFormat::Bc3),
        (b"DXT5", BcFormat::Bc3),
        (b"ATI1", BcFormat::Bc4 { signed: false }),
        (b"BC4U", BcFormat::Bc4 { signed: false }),
        (b"BC4S", BcFormat::Bc4 { signed: true }),
        (b"ATI2", BcFormat::Bc5 { signed: false }),
        (b"BC5U", BcFormat::Bc5 { signed: false }),
        (b"BC5S", BcFormat::Bc5 { signed: true }),
        (b"DXT1", BcFormat::Bc1),
    ];
    for (code, expected) in cases {
        let data = with_payload(header(code, 4, 4), 16);
        assert_eq!(format_of(&data), expected);
    }
}

#[test]
fn dx10_formats() {
    for dxgi in 0u32..=132 {
        let expected = match dxgi {
            70..=72 => Some(BcFormat::Bc1),
            73..=75 => Some(BcFormat::Bc2),
            76..=78 => Some(BcFormat::Bc3),
            79 | 80 => Some(BcFormat::Bc4 { signed: false }),
            81 => Some(BcFormat::Bc4 { signed: true }),
            82 | 83 => Some(BcFormat::Bc5 { signed: false }),
            84 => Some(BcFormat::Bc5 { signed: true }),
            94 | 95 => Some(BcFormat::Bc6h { signed: false }),
            96 => Some(BcFormat::Bc6h { signed: true }),
            97..=99 => Some(BcFormat::Bc7),
            _ => None,
        };
        let data = with_payload(dx10_header(dxgi, 3, 0, 1, 0, 4, 4), 16);
        match expected {
            Some(f) => assert_eq!(format_of(&data), f),
            None => assert_eq!(
                DdsDecoder::new(&data).unwrap_err(),
                LoadError::UnsupportedDxgiFormat(dxgi)
            ),
        }
    }
}

#[test]
fn dx10_and_fourcc_agree() {
    let a = with_payload(header(b"DXT5", 4, 4), 16);
    let b = with_payload(dx10_header(77, 3, 0, 1, 0, 4, 4), 16);
    assert_eq!(format_of(&a), format_of(&b));
    let a = with_payload(header(b"BC5S", 4, 4), 16);
    let b = with_payload(dx10_header(84, 3, 0, 1, 0, 4, 4), 16);
    assert_eq!(format_of(&a), format_of(&b));
}

#[test]
fn dx10_header_errors() {
    let load = |dxgi, dim, misc, array, misc2| {
        DdsDecoder::new(&with_payload(dx10_header(dxgi, dim, misc, array, misc2, 4, 4), 16))
            .unwrap_err()
    };
    assert_eq!(load(133, 3, 0, 1, 0), LoadError::Decoding(DdsError::DxgiFormat(133)));
    assert_eq!(load(71, 1, 0, 1, 0), LoadError::Decoding(DdsError::ResourceDimension(1)));
    assert_eq!(load(71, 5, 0, 1, 0), LoadError::Decoding(DdsError::ResourceDimension(5)));
    assert_eq!(load(71, 3, 2, 1, 0), LoadError::Decoding(DdsError::Dx10Flags(2)));
    assert_eq!(load(71, 4, 0, 6, 0), LoadError::Decoding(DdsError::Dx10ArraySize(6)));
    assert_eq!(load(71, 3, 0, 1, 5), LoadError::Decoding(DdsError::Dx10Flags(5)));
    assert_eq!(load(28, 3, 0, 1, 0), LoadError::UnsupportedDxgiFormat(28));
    // the checks come in order: the DXGI format before the dimension
    assert_eq!(load(200, 9, 9, 9, 9), LoadError::Decoding(DdsError::DxgiFormat(200)));
    // an array size other than 1 is fine for a 2D texture, the cube flag too
    assert!(DdsDecoder::new(&with_payload(dx10_header(71, 3, 4, 6, 4, 4, 4), 8)).is_ok());
}

#[test]
fn zero_dimensions_are_invalid() {
    let data = with_payload(header(b"DXT1", 0, 4), 8);
    assert_eq!(
        DdsDecoder::new(&data).unwrap_err(),
        LoadError::Decoding(DdsError::DimensionsInvalid)
    );
    let data = with_payload(header(b"DXT1", 4, 0), 8);
    assert_eq!(
        DdsDecoder::new(&data).unwrap_err(),
        LoadError::Decoding(DdsError::DimensionsInvalid)
    );
}

#[test]
fn oversized_dimensions_are_invalid() {
    let data = header(b"DX10", u32::MAX, u32::MAX);
    let mut data = data;
    for v in [95u32, 3, 0, 1, 0] {
        push32(&mut data, v);
    }
    if usize::BITS == 64 {
        // 4294967295 * 4294967295 * 12 bytes do not fit
        assert_eq!(
            DdsDecoder::new(&data).unwrap_err(),
            LoadError::Decoding(DdsError::DimensionsInvalid)
        );
    }
}

#[test]
fn short_streams_are_eof() {
    let full = with_payload(header(b"DXT1", 4, 4), 8);
    for n in [0usize, 3, 4, 7, 8, 11, 12, 79, 80, 127, 128, 135] {
        assert_eq!(
            DdsDecoder::new(&full[..n]).unwrap_err(),
            LoadError::UnexpectedEof,
            "prefix of {n} bytes"
        );
    }
    let full = with_payload(dx10_header(71, 3, 0, 1, 0, 4, 4), 8);
    for n in [128usize, 147, 148, 155] {
        assert_eq!(DdsDecoder::new(&full[..n]).unwrap_err(), LoadError::UnexpectedEof);
    }
}

#[test]
fn trailing_bytes_are_ignored() {
    let data = with_payload(header(b"DXT5", 6, 6), 64);
    let mut longer = data.clone();
    longer.extend_from_slice(&[0xAB; 100]);
    let a = DdsDecoder::new(&data).unwrap();
    let b = DdsDecoder::new(&longer).unwrap();
    assert_eq!(a.dimensions(), b.dimensions());
    assert_eq!(a.format(), b.format());
    assert_eq!(a.payload(), b.payload());
    // and an error other than a short stream stays the same
    let mut bad = header(b"ABCD", 4, 4);
    let err = DdsDecoder::new(&bad).unwrap_err();
    bad.extend_from_slice(&[0; 40]);
    assert_eq!(DdsDecoder::new(&bad).unwrap_err(), err);
}

#[test]
fn payload_size_follows_blocks() {
    // 9 x 5 pixels are 3 x 2 blocks
    let data = with_payload(header(b"BC4U", 9, 5), 6 * 8);
    assert_eq!(DdsDecoder::new(&data).unwrap().payload().len(), 48);
    assert_eq!(DdsDecoder::new(&data[..data.len() - 1]).unwrap_err(), LoadError::UnexpectedEof);
    let data = with_payload(header(b"DXT3", 9, 5), 6 * 16);
    assert_eq!(DdsDecoder::new(&data).unwrap().payload().len(), 96);
}

#[test]
fn color_types_and_sizes() {
    let all = [
        BcFormat::Bc1,
        BcFormat::Bc2,
        BcFormat::Bc3,
        BcFormat::Bc4 { signed: false },
        BcFormat::Bc4 { signed: true },
        BcFormat::Bc5 { signed: false },
        BcFormat::Bc5 { signed: true },
        BcFormat::Bc6h { signed: false },
        BcFormat::Bc6h { signed: true },
        BcFormat::Bc7,
    ];
    for f in all {
        let image_ct = match f.color_type() {
            ColorType::L8 => image::ColorType::L8,
            ColorType::Rgb8 => image::ColorType::Rgb8,
            ColorType::Rgba8 => image::ColorType::Rgba8,
            ColorType::Rgb32F => image::ColorType::Rgb32F,
        };
        assert_eq!(f.out_bytes_per_pixel(), image_ct.bytes_per_pixel() as usize);
        let small = matches!(f, BcFormat::Bc1 | BcFormat::Bc4 { .. });
        assert_eq!(f.block_bytes(), if small { 8 } else { 16 });
    }
    assert_eq!(BcFormat::Bc4 { signed: true }.color_type(), ColorType::L8);
    assert_eq!(BcFormat::Bc5 { signed: false }.color_type(), ColorType::Rgb8);
    assert_eq!(BcFormat::Bc6h { signed: false }.color_type(), ColorType::Rgb32F);
    assert_eq!(BcFormat::Bc7.color_type(), ColorType::Rgba8);
}

#[test]
fn little_endian_fields() {
    let bytes = [1u8, 2, 3, 4, 5];
    assert_eq!(read_u32_le(&bytes, 0), Some(0x0403_0201));
    assert_eq!(read_u32_le(&bytes, 1), Some(0x0504_0302));
    assert_eq!(read_u32_le(&bytes, 2), None);
    assert_eq!(read_u32_le(&bytes, usize::MAX), None);
    let mut ext = Vec::new();
    for v in [98u32, 4, 0, 1, 4] {
        push32(&mut ext, v);
    }
    assert_eq!(read_dx10_format(&ext, 0), Ok(BcFormat::Bc7));
    assert_eq!(read_dx10_format(&ext, 1), Err(LoadError::UnexpectedEof));
}

#[test]
fn blocks_across_rounds_up() {
    assert_eq!(div_ceil4(0), 0);
    assert_eq!(div_ceil4(1), 1);
    assert_eq!(div_ceil4(4), 1);
    assert_eq!(div_ceil4(5), 2);
    assert_eq!(div_ceil4(u32::MAX), 1 << 30);
}

#[test]
fn error_messages() {
    assert_eq!(DdsError::Signature.message(), "DDS signature not found");
    assert_eq!(DdsError::HeaderSize(123).message(), "Invalid DDS header size: 123");
    assert_eq!(DdsError::HeaderSize(0).message(), "Invalid DDS header size: 0");
    assert_eq!(DdsError::HeaderFlags(0x1017).message(), "Invalid DDS header flags: 0x00001017");
    assert_eq!(
        DdsError::HeaderFlags(0xDEADBEEF).message(),
        format!("Invalid DDS header flags: {:#010X}", 0xDEADBEEFu32)
    );
    assert_eq!(DdsError::PixelFormatSize(31).message(), "Invalid DDS PixelFormat size: 31");
    assert_eq!(DdsError::DxgiFormat(4294967295).message(), "Invalid DDS DXGI format: 4294967295");
    assert_eq!(DdsError::ResourceDimension(5).message(), "Invalid DDS resource dimension: 5");
    assert_eq!(DdsError::Dx10Flags(2).message(), "Invalid DDS DX10 header flags: 0x00000002");
    assert_eq!(DdsError::Dx10ArraySize(6).message(), "Invalid DDS DX10 array size: 6");
    assert_eq!(
        DdsError::DimensionsInvalid.message(),
        "DDS image dimensions invalid or too large"
    );
}
