use glycin_image_rs::bc::{assemble_image, decode_into};
use glycin_image_rs::{BcFormat, DdsDecoder};

fn push32(d: &mut Vec<u8>, v: u32) {
    d.extend_from_slice(&v.to_le_bytes());
}

fn dds(fourcc: &[u8; 4], width: u32, height: u32, payload: &[u8]) -> Vec<u8> {
    let mut d = Vec::new();
    d.extend_from_slice(b"DDS ");
    for v in [124u32, 0x1007, height, width, 0, 0, 0] {
        push32(&mut d, v);
    }
    for _ in 0..11 {
        push32(&mut d, 0);
    }
    push32(&mut d, 32);
    push32(&mut d, 4);
    d.extend_from_slice(fourcc);
    for _ in 0..10 {
        push32(&mut d, 0);
    }
    d.extend_from_slice(payload);
    d
}

/// BC1 block whose 16 pixels all take reference colour 0 (565 colour `c0`).
fn bc1_solid(c0: u16) -> [u8; 8] {
    let b = c0.to_le_bytes();
    [b[0], b[1], 0, 0, 0, 0, 0, 0]
}

const RED: u16 = 0xF800;
const GREEN: u16 = 0x07E0;

#[test]
fn bc1_solid_blocks_and_layout() {
    // 5 x 3 pixels: two blocks across, one down
    let mut payload = Vec::new();
    payload.extend_from_slice(&bc1_solid(RED));
    payload.extend_from_slice(&bc1_solid(GREEN));
    let data = dds(b"DXT1", 5, 3, &payload);
    let out = DdsDecoder::new(&data).unwrap().read_image();
    assert_eq!(out.len(), 5 * 3 * 4);
    for y in 0..3 {
        for x in 0..5 {
            let px = &out[(y * 5 + x) * 4..(y * 5 + x) * 4 + 4];
            if x < 4 {
                assert_eq!(px, &[255, 0, 0, 255]);
            } else {
                assert_eq!(px, &[0, 255, 0, 255]);
            }
        }
    }
}

#[test]
fn bc2_sharp_alpha() {
    let mut block = [0u8; 16];
    block[8..].copy_from_slice(&bc1_solid(RED));
    let out = decode_into(4, 4, BcFormat::Bc2, &block);
    assert_eq!(out.len(), 64);
    for px in out.chunks(4) {
        assert_eq!(px, &[255, 0, 0, 0]);
    }
    block[..8].copy_from_slice(&[0xFF; 8]);
    let out = decode_into(4, 4, BcFormat::Bc2, &block);
    for px in out.chunks(4) {
        assert_eq!(px, &[255, 0, 0, 255]);
    }
}

#[test]
fn bc3_smooth_alpha() {
    let mut block = [0u8; 16];
    block[0] = 128;
    block[1] = 0;
    block[8..].copy_from_slice(&bc1_solid(GREEN));
    let out = decode_into(4, 4, BcFormat::Bc3, &block);
    for px in out.chunks(4) {
        assert_eq!(px, &[0, 255, 0, 128]);
    }
}

#[test]
fn bc4_single_channel() {
    let block = [200u8, 100, 0, 0, 0, 0, 0, 0];
    let out = decode_into(3, 2, BcFormat::Bc4 { signed: false }, &block);
    assert_eq!(out, vec![200; 6]);
}

#[test]
fn bc5_widens_to_rgb() {
    let block = [200u8, 100, 0, 0, 0, 0, 0, 0, 50, 10, 0, 0, 0, 0, 0, 0];
    let out = decode_into(2, 2, BcFormat::Bc5 { signed: false }, &block);
    assert_eq!(out, vec![200, 50, 0, 200, 50, 0, 200, 50, 0, 200, 50, 0]);
}

#[test]
fn bc7_invalid_mode_is_transparent_black() {
    let block = [0u8; 16];
    let out = decode_into(4, 4, BcFormat::Bc7, &block);
    assert_eq!(out, vec![0u8; 64]);
}

/// Pixel `(x, y)` of a decoded image taken from the decoder's own block output.
fn expected_image(
    width: usize,
    height: usize,
    bpp: usize,
    payload: &[u8],
    block_bytes: usize,
    decode: impl Fn(&[u8]) -> Vec<u8>,
) -> Vec<u8> {
    let bw = width.div_ceil(4);
    let mut out = vec![0u8; width * height * bpp];
    for y in 0..height {
        for x in 0..width {
            let b = (y / 4) * bw + x / 4;
            let block = decode(&payload[b * block_bytes..(b + 1) * block_bytes]);
            let src = ((y % 4) * 4 + x % 4) * bpp;
            let dst = (y * width + x) * bpp;
            out[dst..dst + bpp].copy_from_slice(&block[src..src + bpp]);
        }
    }
    out
}

fn pseudo_random(n: usize, seed: u32) -> Vec<u8> {
    let mut s = seed;
    (0..n)
        .map(|_| {
            s = s.wrapping_mul(1_103_515_245).wrapping_add(12_345);
            (s >> 16) as u8
        })
        .collect()
}

#[test]
fn matches_bcdec_on_every_format() {
    let (w, h) = (9usize, 6usize);
    let n_blocks = 3 * 2;
    for (format, bb, bpp) in [
        (BcFormat::Bc1, 8, 4),
        (BcFormat::Bc2, 16, 4),
        (BcFormat::Bc3, 16, 4),
        (BcFormat::Bc4 { signed: false }, 8, 1),
        (BcFormat::Bc4 { signed: true }, 8, 1),
        (BcFormat::Bc5 { signed: false }, 16, 3),
        (BcFormat::Bc5 { signed: true }, 16, 3),
        (BcFormat::Bc7, 16, 4),
    ] {
        let payload = pseudo_random(n_blocks * bb, bb as u32 + bpp as u32);
        let out = decode_into(w as u32, h as u32, format, &payload);
        let expected = expected_image(w, h, bpp, &payload, bb, |blk| {
            let mut o = vec![0u8; 64];
            match format {
                BcFormat::Bc1 => bcdec_rs::bc1(blk, &mut o, 16),
                BcFormat::Bc2 => bcdec_rs::bc2(blk, &mut o, 16),
                BcFormat::Bc3 => bcdec_rs::bc3(blk, &mut o, 16),
                BcFormat::Bc7 => bcdec_rs::bc7(blk, &mut o, 16),
                BcFormat::Bc4 { signed } => {
                    o.truncate(16);
                    bcdec_rs::bc4(blk, &mut o, 4, signed)
                }
                BcFormat::Bc5 { signed } => {
                    let mut rg = vec![0u8; 32];
                    bcdec_rs::bc5(blk, &mut rg, 8, signed);
                    o = rg.chunks(2).flat_map(|p| [p[0], p[1], 0]).collect();
                }
                BcFormat::Bc6h { .. } => unreachable!(),
            }
            o
        });
        assert_eq!(out, expected, "{format:?}");
    }
}

#[test]
fn assemble_places_each_block() {
    // 6 x 5 pixels, one byte each: 2 x 2 blocks, block i filled with i
    let blocks: Vec<Vec<u8>> = (0..4u8).map(|i| vec![i; 16]).collect();
    let out = assemble_image(6, 5, 1, &blocks);
    assert_eq!(out.len(), 30);
    for y in 0..5 {
        for x in 0..6 {
            assert_eq!(out[y * 6 + x] as usize, (y / 4) * 2 + x / 4);
        }
    }
}

#[test]
fn assemble_places_pixels_within_a_block() {
    // one block, pixel k of the block holds bytes (k, 100 + k)
    let block: Vec<u8> = (0..16u8).flat_map(|k| [k, 100 + k]).collect();
    let out = assemble_image(3, 2, 2, &vec![block]);
    assert_eq!(out, vec![0, 100, 1, 101, 2, 102, 4, 104, 5, 105, 6, 106]);
}

#[test]
fn bc6h_blocks_lay_out_like_the_others() {
    // 5 x 5 pixels of BC6H: 2 x 2 blocks of 48 floats, 12 bytes per pixel
    let payload = pseudo_random(4 * 16, 77);
    let data = {
        let mut d = dds(b"DX10", 5, 5, &[]);
        for v in [95u32, 3, 0, 1, 0] {
            push32(&mut d, v);
        }
        d.extend_from_slice(&payload);
        d
    };
    let decoder = DdsDecoder::new(&data).unwrap();
    assert_eq!(decoder.format(), BcFormat::Bc6h { signed: false });
    let decode = |blk: &[u8]| -> Vec<u8> {
        let mut floats = [0f32; 48];
        bcdec_rs::bc6h_float(blk, &mut floats, 12, false);
        floats.iter().flat_map(|v| v.to_ne_bytes()).collect()
    };
    let blocks: Vec<Vec<u8>> = decoder.payload().chunks_exact(16).map(decode).collect();
    let out = assemble_image(5, 5, 12, &blocks);
    assert_eq!(out, expected_image(5, 5, 12, &payload, 16, decode));
}

#[test]
fn bytes_after_the_blocks_are_ignored() {
    let block = [200u8, 100, 0, 0, 0, 0, 0, 0];
    let mut longer = block.to_vec();
    longer.extend_from_slice(&[7u8; 8]);
    assert_eq!(
        decode_into(4, 4, BcFormat::Bc4 { signed: false }, &longer),
        decode_into(4, 4, BcFormat::Bc4 { signed: false }, &block)
    );
}

#[test]
fn a_changed_block_changes_only_its_pixels() {
    let (w, h) = (9usize, 6usize);
    let p1 = pseudo_random(6 * 16, 5);
    let mut p2 = p1.clone();
    for b in &mut p2[4 * 16..5 * 16] {
        *b ^= 0x5A;
    }
    let a = decode_into(w as u32, h as u32, BcFormat::Bc7, &p1);
    let b = decode_into(w as u32, h as u32, BcFormat::Bc7, &p2);
    for y in 0..h {
        for x in 0..w {
            let k = (y / 4) * 3 + x / 4;
            let i = (y * w + x) * 4;
            if k != 4 {
                assert_eq!(a[i..i + 4], b[i..i + 4]);
            }
        }
    }
}

#[test]
fn caller_decoded_blocks() {
    let data = dds(b"DXT1", 5, 3, &[0u8; 16]);
    let decoder = DdsDecoder::new(&data).unwrap();
    let blocks = vec![vec![1u8; 64], vec![2u8; 64]];
    let out = decoder.read_image_from_blocks(&blocks).unwrap();
    assert_eq!(out, assemble_image(5, 3, 4, &blocks));
    assert!(decoder.read_image_from_blocks(&vec![vec![1u8; 64]]).is_none());
    assert!(decoder.read_image_from_blocks(&vec![vec![1u8; 64], vec![2u8; 63]]).is_none());
}
