//! Block-compressed (BCn) texel formats: what each format stores per 4x4
//! block, how a block decodes to pixels, and how decoded blocks are laid out
//! into a row-major image.

use vstd::prelude::*;
use vstd::arithmetic::div_mod::lemma_fundamental_div_mod_converse;
use vstd::slice::slice_subrange;

verus! {

/// One of the block-compressed formats a DDS file can carry.
#[derive(Debug, Clone, Copy, PartialEq, Eq, Structural)]
pub enum BcFormat {
    Bc1,
    Bc2,
    Bc3,
    Bc4 { signed: bool },
    Bc5 { signed: bool },
    Bc6h { signed: bool },
    Bc7,
}

/// Pixel layout of a decoded image.
#[derive(Debug, Clone, Copy, PartialEq, Eq, Structural)]
pub enum ColorType {
    L8,
    Rgb8,
    Rgba8,
    Rgb32F,
}

impl BcFormat {
    /// Size in bytes of one compressed 4x4 block.
    #[verifier::allow_in_spec]
    pub fn block_bytes(self) -> usize
        returns
            (match self {
                BcFormat::Bc1 | BcFormat::Bc4 { .. } => 8usize,
                _ => 16usize,
            }),
    {
        match self {
            BcFormat::Bc1 | BcFormat::Bc4 { .. } => 8,
            _ => 16,
        }
    }

    /// Pixel layout that blocks of this format decode to.
    #[verifier::allow_in_spec]
    pub fn color_type(self) -> ColorType
        returns
            (match self {
                BcFormat::Bc4 { .. } => ColorType::L8,
                BcFormat::Bc5 { .. } => ColorType::Rgb8,
                BcFormat::Bc6h { .. } => ColorType::Rgb32F,
                _ => ColorType::Rgba8,
            }),
    {
        match self {
            BcFormat::Bc4 { .. } => ColorType::L8,
            BcFormat::Bc5 { .. } => ColorType::Rgb8,
            BcFormat::Bc6h { .. } => ColorType::Rgb32F,
            _ => ColorType::Rgba8,
        }
    }

    /// Bytes per decoded pixel: one per channel of 8 bits, four per 32-bit
    /// float channel, as given by the format's pixel layout.
    #[verifier::allow_in_spec]
    pub fn out_bytes_per_pixel(self) -> usize
        returns
            (match self.color_type() {
                ColorType::L8 => 1usize,
                ColorType::Rgb8 => 3usize,
                ColorType::Rgba8 => 4usize,
                ColorType::Rgb32F => 12usize,
            }),
    {
        match self.color_type() {
            ColorType::L8 => 1,
            ColorType::Rgb8 => 3,
            ColorType::Rgba8 => 4,
            ColorType::Rgb32F => 12,
        }
    }
}

/// The 64 RGBA bytes (row-major 4x4 pixels) that `bcdec_rs::bc1` writes for a block.
pub uninterp spec fn bc1_decode(block: Seq<u8>) -> Seq<u8>;

/// The 64 RGBA bytes that `bcdec_rs::bc2` writes for a block.
pub uninterp spec fn bc2_decode(block: Seq<u8>) -> Seq<u8>;

/// The 64 RGBA bytes that `bcdec_rs::bc3` writes for a block.
pub uninterp spec fn bc3_decode(block: Seq<u8>) -> Seq<u8>;

/// The 16 single-channel bytes that `bcdec_rs::bc4` writes for a block.
pub uninterp spec fn bc4_decode(block: Seq<u8>, signed: bool) -> Seq<u8>;

/// The 32 RG bytes that `bcdec_rs::bc5` writes for a block.
pub uninterp spec fn bc5_decode(block: Seq<u8>, signed: bool) -> Seq<u8>;

/// The 64 RGBA bytes that `bcdec_rs::bc7` writes for a block.
pub uninterp spec fn bc7_decode(block: Seq<u8>) -> Seq<u8>;

/// Calls `bcdec_rs::bc1` on one 8-byte block into a fresh 4x4 RGBA buffer
/// (row pitch 16). Trusted: the result is the named value `bc1_decode` of the
/// block, and it has the buffer's 64 bytes.
#[verifier::external_body]
fn bc1_block(block: &[u8]) -> (pixels: Vec<u8>)
    requires
        block@.len() == 8,
    ensures
        pixels@ == bc1_decode(block@),
        pixels@.len() == 64,
{
    let mut out = vec![0u8; 64];
    bcdec_rs::bc1(block, &mut out, 16);
    out
}

/// Calls `bcdec_rs::bc2` on one 16-byte block into a fresh 4x4 RGBA buffer
/// (row pitch 16). Trusted: the result is `bc2_decode` of the block, 64 bytes.
#[verifier::external_body]
fn bc2_block(block: &[u8]) -> (pixels: Vec<u8>)
    requires
        block@.len() == 16,
    ensures
        pixels@ == bc2_decode(block@),
        pixels@.len() == 64,
{
    let mut out = vec![0u8; 64];
    bcdec_rs::bc2(block, &mut out, 16);
    out
}

/// Calls `bcdec_rs::bc3` on one 16-byte block into a fresh 4x4 RGBA buffer
/// (row pitch 16). Trusted: the result is `bc3_decode` of the block, 64 bytes.
#[verifier::external_body]
fn bc3_block(block: &[u8]) -> (pixels: Vec<u8>)
    requires
        block@.len() == 16,
    ensures
        pixels@ == bc3_decode(block@),
        pixels@.len() == 64,
{
    let mut out = vec![0u8; 64];
    bcdec_rs::bc3(block, &mut out, 16);
    out
}

/// Calls `bcdec_rs::bc4` on one 8-byte block into a fresh 4x4 single-channel
/// buffer (row pitch 4). Trusted: the result is `bc4_decode` of the block and
/// the sign flag, 16 bytes.
#[verifier::external_body]
fn bc4_block(block: &[u8], signed: bool) -> (pixels: Vec<u8>)
    requires
        block@.len() == 8,
    ensures
        pixels@ == bc4_decode(block@, signed),
        pixels@.len() == 16,
{
    let mut out = vec![0u8; 16];
    bcdec_rs::bc4(block, &mut out, 4, signed);
    out
}

/// Calls `bcdec_rs::bc5` on one 16-byte block into a fresh 4x4 two-channel
/// buffer (row pitch 8). Trusted: the result is `bc5_decode` of the block and
/// the sign flag, 32 bytes.
#[verifier::external_body]
fn bc5_block(block: &[u8], signed: bool) -> (pixels: Vec<u8>)
    requires
        block@.len() == 16,
    ensures
        pixels@ == bc5_decode(block@, signed),
        pixels@.len() == 32,
{
    let mut out = vec![0u8; 32];
    bcdec_rs::bc5(block, &mut out, 8, signed);
    out
}

/// Bit `i` of a block, counting from the least significant bit of its
/// first byte (the order in which BC7 fields are stored).
pub open spec fn block_bit(block: Seq<u8>, i: int) -> int {
    ((block[i / 8] >> ((i % 8) as u8)) & 1u8) as int
}

/// The `n`-bit field of a block that starts at bit `start`, least
/// significant bit first.
pub open spec fn block_bits(block: Seq<u8>, start: int, n: nat) -> int
    decreases n,
{
    if n == 0 {
        0
    } else {
        block_bit(block, start) + 2 * block_bits(block, start + 1, (n - 1) as nat)
    }
}

/// The BC7 interpolation weights for 4-bit indices.
pub open spec fn bc7_weight4(index: int) -> int {
    seq![0int, 4, 9, 13, 17, 21, 26, 30, 34, 38, 43, 47, 51, 55, 60, 64][index]
}

/// BC7 interpolation of two 8-bit endpoint components with a weight out of 64.
pub open spec fn bc7_interpolate(a: int, b: int, weight: int) -> int {
    (a * (64 - weight) + b * weight + 32) / 64
}

/// The block is in BC7 mode 6: its first seven bits are six zeros and a one.
pub open spec fn bc7_is_mode6(block: Seq<u8>) -> bool {
    block[0] & 0x7Fu8 == 0x40u8
}

/// Component `c` (red, green, blue, alpha) of endpoint `k` of a mode 6
/// block: its 7-bit field followed by the endpoint's P-bit.
pub open spec fn bc7_mode6_endpoint(block: Seq<u8>, k: int, c: int) -> int {
    2 * block_bits(block, 7 + (2 * c + k) * 7, 7) + block_bit(block, 63 + k)
}

/// The colour index of pixel `p` (row-major) of a mode 6 block; the first
/// pixel's index has 3 bits, the others 4.
pub open spec fn bc7_mode6_index(block: Seq<u8>, p: int) -> int {
    if p == 0 {
        block_bits(block, 65, 3)
    } else {
        block_bits(block, 64 + 4 * p, 4)
    }
}

/// The RGBA pixels of a mode 6 block: each component interpolated between
/// the two endpoints by the pixel's weight.
pub open spec fn bc7_mode6_pixels(block: Seq<u8>) -> Seq<u8> {
    Seq::new(
        64,
        |i: int|
            bc7_interpolate(
                bc7_mode6_endpoint(block, 0, i % 4),
                bc7_mode6_endpoint(block, 1, i % 4),
                bc7_weight4(bc7_mode6_index(block, i / 4)),
            ) as u8,
    )
}

/// The BC7 interpolation weights for 2-bit indices.
pub open spec fn bc7_weight2(index: int) -> int {
    seq![0int, 21, 43, 64][index]
}

/// The BC7 interpolation weights for 3-bit indices.
pub open spec fn bc7_weight3(index: int) -> int {
    seq![0int, 9, 18, 27, 37, 46, 55, 64][index]
}

/// The index of pixel `p` (row-major) in a single-subset index field of
/// `bits` bits per pixel that starts at bit `start`; the first pixel's
/// index has one bit less.
pub open spec fn bc7_single_index(block: Seq<u8>, start: int, bits: nat, p: int) -> int {
    if p == 0 {
        block_bits(block, start, (bits - 1) as nat)
    } else {
        block_bits(block, start + bits * p - 1, bits)
    }
}

/// The component that a rotation (modes 4 and 5) puts at output component
/// `c`: rotation 1, 2 or 3 swaps alpha with red, green or blue.
pub open spec fn bc7_rotated(rotation: int, c: int) -> int {
    if rotation == 0 {
        c
    } else if c == 3 {
        rotation - 1
    } else if c == rotation - 1 {
        3
    } else {
        c
    }
}

/// The block is in BC7 mode 4: its first five bits are four zeros and a one.
pub open spec fn bc7_is_mode4(block: Seq<u8>) -> bool {
    block[0] & 0x1Fu8 == 0x10u8
}

/// The block is in BC7 mode 5: its first six bits are five zeros and a one.
pub open spec fn bc7_is_mode5(block: Seq<u8>) -> bool {
    block[0] & 0x3Fu8 == 0x20u8
}

/// The block is in BC7 mode 7: its first eight bits are seven zeros and a one.
pub open spec fn bc7_is_mode7(block: Seq<u8>) -> bool {
    block[0] == 0x80u8
}

/// Component `c` of endpoint `k` of a mode 4 block: 5-bit colour and 6-bit
/// alpha fields widened to 8 bits by repeating their high bits.
pub open spec fn bc7_mode4_endpoint(block: Seq<u8>, k: int, c: int) -> int {
    if c < 3 {
        let e = block_bits(block, 8 + (2 * c + k) * 5, 5);
        8 * e + e / 4
    } else {
        let e = block_bits(block, 38 + 6 * k, 6);
        4 * e + e / 16
    }
}

/// Component `c` of pixel `p` of a mode 4 block before rotation: colour
/// takes the 2-bit index and alpha the 3-bit one, or the other way round
/// when the index selection bit is set.
pub open spec fn bc7_mode4_value(block: Seq<u8>, p: int, c: int) -> int {
    let primary = bc7_weight2(bc7_single_index(block, 50, 2, p));
    let secondary = bc7_weight3(bc7_single_index(block, 81, 3, p));
    let weight = if (c < 3) == (block_bit(block, 7) == 0) {
        primary
    } else {
        secondary
    };
    bc7_interpolate(bc7_mode4_endpoint(block, 0, c), bc7_mode4_endpoint(block, 1, c), weight)
}

/// The RGBA pixels of a mode 4 block.
pub open spec fn bc7_mode4_pixels(block: Seq<u8>) -> Seq<u8> {
    Seq::new(
        64,
        |i: int| bc7_mode4_value(block, i / 4, bc7_rotated(block_bits(block, 5, 2), i % 4)) as u8,
    )
}

/// Component `c` of endpoint `k` of a mode 5 block: 7-bit colour fields
/// widened to 8 bits, 8-bit alpha fields as they are.
pub open spec fn bc7_mode5_endpoint(block: Seq<u8>, k: int, c: int) -> int {
    if c < 3 {
        let e = block_bits(block, 8 + (2 * c + k) * 7, 7);
        2 * e + e / 64
    } else {
        block_bits(block, 50 + 8 * k, 8)
    }
}

/// Component `c` of pixel `p` of a mode 5 block before rotation: colour
/// and alpha each have their own 2-bit indices.
pub open spec fn bc7_mode5_value(block: Seq<u8>, p: int, c: int) -> int {
    let weight = if c < 3 {
        bc7_weight2(bc7_single_index(block, 66, 2, p))
    } else {
        bc7_weight2(bc7_single_index(block, 97, 2, p))
    };
    bc7_interpolate(bc7_mode5_endpoint(block, 0, c), bc7_mode5_endpoint(block, 1, c), weight)
}

/// The RGBA pixels of a mode 5 block.
pub open spec fn bc7_mode5_pixels(block: Seq<u8>) -> Seq<u8> {
    Seq::new(
        64,
        |i: int| bc7_mode5_value(block, i / 4, bc7_rotated(block_bits(block, 6, 2), i % 4)) as u8,
    )
}

/// Component `c` of endpoint `k` (of four) of a mode 7 block: its 5-bit
/// field and the endpoint's P-bit, widened to 8 bits.
pub open spec fn bc7_mode7_endpoint(block: Seq<u8>, k: int, c: int) -> int {
    let e = if c < 3 {
        block_bits(block, 14 + (4 * c + k) * 5, 5)
    } else {
        block_bits(block, 74 + 5 * k, 5)
    };
    let v = 2 * e + block_bit(block, 94 + k);
    4 * v + v / 16
}

/// `v` lies between `a` and `b`.
pub open spec fn between(a: int, b: int, v: int) -> bool {
    (a <= v <= b) || (b <= v <= a)
}

/// Each component of each pixel of a mode 7 block lies between that
/// component of the two endpoints of one of its two subsets.
pub open spec fn bc7_mode7_bounded(block: Seq<u8>, pixels: Seq<u8>) -> bool {
    forall|i: int|
        0 <= i < 64 ==> between(
            bc7_mode7_endpoint(block, 0, i % 4),
            bc7_mode7_endpoint(block, 1, i % 4),
            #[trigger] pixels[i] as int,
        ) || between(
            bc7_mode7_endpoint(block, 2, i % 4),
            bc7_mode7_endpoint(block, 3, i % 4),
            pixels[i] as int,
        )
}

/// What BC7 decoding gives for each kind of block: an invalid mode (first
/// byte zero) is transparent black; modes 0 to 3 (a one among the first four
/// bits) carry no alpha and are opaque; mode 4, 5 and 6 blocks decode as
/// `bc7_mode4_pixels`, `bc7_mode5_pixels` and `bc7_mode6_pixels` say; each
/// component of a mode 7 pixel lies between the endpoints of its subset.
pub open spec fn bc7_known(block: Seq<u8>, pixels: Seq<u8>) -> bool {
    &&& block[0] == 0u8 ==> pixels == Seq::new(64, |i: int| 0u8)
    &&& block[0] & 0x0Fu8 != 0u8 ==> forall|p: int| 0 <= p < 16 ==> #[trigger] pixels[4 * p + 3] == 255u8
    &&& bc7_is_mode4(block) ==> pixels == bc7_mode4_pixels(block)
    &&& bc7_is_mode5(block) ==> pixels == bc7_mode5_pixels(block)
    &&& bc7_is_mode6(block) ==> pixels == bc7_mode6_pixels(block)
    &&& bc7_is_mode7(block) ==> bc7_mode7_bounded(block, pixels)
}

/// Calls `bcdec_rs::bc7` on one 16-byte block into a fresh 4x4 RGBA buffer
/// (row pitch 16). Trusted: the result is `bc7_decode` of the block, 64
/// bytes, and, as `bcdec_rs::bc7` reads the mode from the low bits of the
/// first byte, it is transparent black for an invalid mode, opaque for modes
/// 0 to 3, the interpolation of the block's endpoints (after rotation) for
/// modes 4, 5 and 6, and within the endpoints of a subset for mode 7. The
/// colours of modes 0 to 3 and the exact mode 7 pixels, which depend on
/// partition tables, are not described.
#[verifier::external_body]
fn bc7_block(block: &[u8]) -> (pixels: Vec<u8>)
    requires
        block@.len() == 16,
    ensures
        pixels@ == bc7_decode(block@),
        pixels@.len() == 64,
        bc7_known(block@, pixels@),
{
    let mut out = vec![0u8; 64];
    bcdec_rs::bc7(block, &mut out, 16);
    out
}

/// RG pixels (two bytes each) widened to RGB with a zero blue channel.
pub open spec fn rg_to_rgb(rg: Seq<u8>) -> Seq<u8> {
    Seq::new(48, |i: int| if i % 3 == 2 { 0u8 } else { rg[(i / 3) * 2 + i % 3] })
}

/// The decoded pixels of one compressed block, row-major over the 4x4 block,
/// `out_bytes_per_pixel` bytes per pixel. BC6H blocks decode to floating
/// point and are not described here (they are decoded outside the library).
pub open spec fn decoded_block(format: BcFormat, block: Seq<u8>) -> Seq<u8> {
    match format {
        BcFormat::Bc1 => bc1_decode(block),
        BcFormat::Bc2 => bc2_decode(block),
        BcFormat::Bc3 => bc3_decode(block),
        BcFormat::Bc4 { signed } => bc4_decode(block, signed),
        BcFormat::Bc5 { signed } => rg_to_rgb(bc5_decode(block, signed)),
        BcFormat::Bc6h { .. } => Seq::empty(),
        BcFormat::Bc7 => bc7_decode(block),
    }
}

/// Number of 4x4 blocks needed to cover `n` pixels.
pub open spec fn blocks_across(n: int) -> int {
    (n + 3) / 4
}

/// The compressed block with index `i` in a payload.
pub open spec fn compressed_block(format: BcFormat, payload: Seq<u8>, i: int) -> Seq<u8> {
    let bb = format.block_bytes() as int;
    payload.subrange(i * bb, (i + 1) * bb)
}

/// For a BC7 payload, every block decodes as `bc7_known` describes.
pub open spec fn bc7_blocks_known(payload: Seq<u8>, n: int) -> bool {
    forall|k: int|
        0 <= k < n ==> #[trigger] bc7_known(
            compressed_block(BcFormat::Bc7, payload, k),
            bc7_decode(compressed_block(BcFormat::Bc7, payload, k)),
        )
}

/// Every block of the payload, decoded.
pub open spec fn decoded_blocks(format: BcFormat, payload: Seq<u8>, n: int) -> Seq<Seq<u8>> {
    Seq::new(n as nat, |i: int| decoded_block(format, compressed_block(format, payload, i)))
}

/// The byte at index `i` of an image assembled from decoded blocks: byte
/// `c` of pixel `(x, y)` comes from byte `c` of pixel `(x % 4, y % 4)` of the
/// block in block row `y / 4`, block column `x / 4`.
pub open spec fn pixel_source(width: int, bpp: int, blocks: Seq<Seq<u8>>, i: int) -> u8 {
    let p = i / bpp;
    let c = i % bpp;
    let y = p / width;
    let x = p % width;
    blocks[(y / 4) * blocks_across(width) + x / 4][((y % 4) * 4 + x % 4) * bpp + c]
}

/// The row-major image, `bpp` bytes per pixel, assembled from decoded blocks.
pub open spec fn assembled(width: int, height: int, bpp: int, blocks: Seq<Seq<u8>>) -> Seq<u8> {
    Seq::new((width * height * bpp) as nat, |i: int| pixel_source(width, bpp, blocks, i))
}

/// The decoded image of a payload of blocks.
pub open spec fn decoded_image(width: u32, height: u32, format: BcFormat, payload: Seq<u8>) -> Seq<u8> {
    assembled(
        width as int,
        height as int,
        format.out_bytes_per_pixel() as int,
        decoded_blocks(
            format,
            payload,
            blocks_across(width as int) * blocks_across(height as int),
        ),
    )
}

/// The contents of a list of byte buffers.
pub open spec fn buffer_views(buffers: Seq<Vec<u8>>) -> Seq<Seq<u8>> {
    buffers.map_values(|b: Vec<u8>| b@)
}

/// Number of blocks across `n` pixels, computed without overflow.
pub fn div_ceil4(n: u32) -> (r: usize)
    ensures
        r == blocks_across(n as int),
{
    let q = (n / 4) as usize;
    if n % 4 == 0 {
        q
    } else {
        q + 1
    }
}

/// Decodes one compressed block (not BC6H) with the matching `bcdec_rs`
/// function, widening BC5's RG output to RGB.
fn decode_block(format: BcFormat, block: &[u8]) -> (out: Vec<u8>)
    requires
        !(format is Bc6h),
        block@.len() == format.block_bytes(),
    ensures
        out@ == decoded_block(format, block@),
        out@.len() == 16 * format.out_bytes_per_pixel(),
        format is Bc7 ==> bc7_known(block@, out@),
{
    match format {
        BcFormat::Bc1 => bc1_block(block),
        BcFormat::Bc2 => bc2_block(block),
        BcFormat::Bc3 => bc3_block(block),
        BcFormat::Bc4 { signed } => bc4_block(block, signed),
        BcFormat::Bc5 { signed } => {
            let rg = bc5_block(block, signed);
            let mut out: Vec<u8> = Vec::new();
            let mut p: usize = 0;
            while p < 16
                invariant
                    p <= 16,
                    rg@.len() == 32,
                    out@.len() == 3 * p,
                    forall|j: int| 0 <= j < out@.len() ==> out@[j] == rg_to_rgb(rg@)[j],
                decreases 16 - p,
            {
                out.push(rg[2 * p]);
                out.push(rg[2 * p + 1]);
                out.push(0);
                p = p + 1;
            }
            assert(out@ =~= rg_to_rgb(rg@));
            out
        },
        BcFormat::Bc7 => bc7_block(block),
        BcFormat::Bc6h { .. } => Vec::new(),
    }
}

/// Facts about one pixel position used when assembling an image.
proof fn lemma_pixel_position(width: int, height: int, bpp: int, p: int, c: int)
    requires
        width > 0,
        height > 0,
        bpp > 0,
        0 <= p < width * height,
        0 <= c < bpp,
    ensures
        (p * bpp + c) / bpp == p,
        (p * bpp + c) % bpp == c,
        p / width < height,
        0 <= p % width < width,
        (p / width / 4) * blocks_across(width) + (p % width) / 4 < blocks_across(width)
            * blocks_across(height),
        (((p / width) % 4) * 4 + (p % width) % 4) * bpp + c < 16 * bpp,
        p * bpp + c < width * height * bpp,
{
    lemma_fundamental_div_mod_converse(p * bpp + c, bpp, p, c);
    let y = p / width;
    let x = p % width;
    assert(p == width * y + x) by (nonlinear_arith)
        requires
            width > 0,
            y == p / width,
            x == p % width,
    ;
    assert(y < height) by (nonlinear_arith)
        requires
            width > 0,
            p == width * y + x,
            0 <= x,
            p < width * height,
    ;
    let bw = blocks_across(width);
    let bh = blocks_across(height);
    assert(x / 4 < bw);
    assert(y / 4 < bh);
    assert((y / 4) * bw + x / 4 < bw * bh) by (nonlinear_arith)
        requires
            0 <= x / 4 < bw,
            0 <= y / 4 < bh,
    ;
    let k = (y % 4) * 4 + x % 4;
    assert(0 <= k < 16);
    assert(k * bpp + c < 16 * bpp) by (nonlinear_arith)
        requires
            0 <= k < 16,
            0 <= c < bpp,
    ;
    assert(p * bpp + c < width * height * bpp) by (nonlinear_arith)
        requires
            0 <= p < width * height,
            0 <= c < bpp,
    ;
}

/// Lays decoded 4x4 blocks out as a row-major image of `width` x `height`
/// pixels, `bytes_per_pixel` bytes each. Blocks are ordered row by row;
/// pixels of edge blocks beyond the image are dropped.
pub fn assemble_image(
    width: u32,
    height: u32,
    bytes_per_pixel: usize,
    blocks: &Vec<Vec<u8>>,
) -> (out: Vec<u8>)
    requires
        bytes_per_pixel > 0,
        width * height * bytes_per_pixel <= usize::MAX,
        blocks@.len() == blocks_across(width as int) * blocks_across(height as int),
        forall|i: int| 0 <= i < blocks@.len() ==> #[trigger] blocks@[i]@.len() == 16 * bytes_per_pixel,
    ensures
        out@ == assembled(width as int, height as int, bytes_per_pixel as int, buffer_views(blocks@)),
{
    let ghost dv = buffer_views(blocks@);
    let ghost wi = width as int;
    let ghost hi = height as int;
    let ghost bi = bytes_per_pixel as int;
    let n_blocks = blocks.len();
    let w = width as usize;
    let bw = div_ceil4(width);
    assert(w * (height as int) <= usize::MAX) by (nonlinear_arith)
        requires
            bytes_per_pixel > 0,
            w * height * bytes_per_pixel <= usize::MAX,
            w >= 0,
            height >= 0,
    ;
    let n_pixels = w * (height as usize);
    let mut out: Vec<u8> = Vec::new();
    let mut p: usize = 0;
    while p < n_pixels
        invariant
            wi == w,
            w * hi == n_pixels,
            bi == bytes_per_pixel,
            bi > 0,
            hi == height,
            bw == blocks_across(wi),
            wi * hi * bi <= usize::MAX,
            dv == buffer_views(blocks@),
            blocks@.len() == blocks_across(wi) * blocks_across(hi),
            n_blocks == blocks@.len(),
            forall|i: int| 0 <= i < blocks@.len() ==> #[trigger] blocks@[i]@.len() == 16 * bi,
            p <= n_pixels,
            out@.len() == p * bi,
            forall|j: int| 0 <= j < out@.len() ==> out@[j] == pixel_source(wi, bi, dv, j),
        decreases n_pixels - p,
    {
        assert(w > 0 && hi > 0) by (nonlinear_arith)
            requires
                p < n_pixels,
                w * hi == n_pixels,
                w >= 0,
                hi >= 0,
        ;
        proof {
            lemma_pixel_position(wi, hi, bi, p as int, 0);
        }
        let y = p / w;
        let x = p % w;
        let block_index = (y / 4) * bw + x / 4;
        let block = &blocks[block_index];
        let block_len = block.len();
        let base = ((y % 4) * 4 + x % 4) * bytes_per_pixel;
        let mut c: usize = 0;
        while c < bytes_per_pixel
            invariant
                wi == w,
                bi == bytes_per_pixel,
                bi > 0,
                hi == height,
                w > 0,
                hi > 0,
                bw == blocks_across(wi),
                wi * hi * bi <= usize::MAX,
                dv == buffer_views(blocks@),
                blocks@.len() == blocks_across(wi) * blocks_across(hi),
                block_index < blocks@.len(),
                *block == blocks@[block_index as int],
                block@.len() == 16 * bi,
                block_len == block@.len(),
                p < w * hi,
                y == p / w,
                x == p % w,
                block_index == (y / 4) * bw + x / 4,
                base == ((y % 4) * 4 + x % 4) * bi,
                c <= bytes_per_pixel,
                out@.len() == p * bi + c,
                forall|j: int| 0 <= j < out@.len() ==> out@[j] == pixel_source(wi, bi, dv, j),
            decreases bytes_per_pixel - c,
        {
            proof {
                lemma_pixel_position(wi, hi, bi, p as int, c as int);
            }
            let ghost j = p * bi + c;
            let b = block[base + c];
            assert(dv[block_index as int] == block@);
            out.push(b);
            assert(out@[j] == pixel_source(wi, bi, dv, j));
            c = c + 1;
        }
        assert((p + 1) * bi == p * bi + bi) by (nonlinear_arith);
        p = p + 1;
    }
    assert(out@.len() == wi * hi * bi);
    assert(out@ =~= assembled(wi, hi, bi, dv));
    out
}

/// Decodes every block of `payload` (a BC1-BC5 or BC7 image of `width` x
/// `height` pixels) and lays the pixels out row-major. Bytes after the last
/// block are not read.
pub fn decode_into(width: u32, height: u32, format: BcFormat, payload: &[u8]) -> (out: Vec<u8>)
    requires
        !(format is Bc6h),
        payload@.len() >= blocks_across(width as int) * blocks_across(height as int)
            * format.block_bytes(),
        width * height * format.out_bytes_per_pixel() <= usize::MAX,
    ensures
        out@ == decoded_image(width, height, format, payload@),
        out@.len() == width * height * format.out_bytes_per_pixel(),
        format is Bc7 ==> bc7_blocks_known(
            payload@,
            blocks_across(width as int) * blocks_across(height as int),
        ),
{
    let bw = div_ceil4(width);
    let bh = div_ceil4(height);
    let bb = format.block_bytes();
    let bpp = format.out_bytes_per_pixel();
    let payload_len = payload.len();
    assert(bw * bh <= payload@.len()) by (nonlinear_arith)
        requires
            payload@.len() >= bw * bh * bb,
            bb >= 1,
            bw >= 0,
            bh >= 0,
    ;
    let n_blocks = bw * bh;
    let mut blocks: Vec<Vec<u8>> = Vec::new();
    let mut i: usize = 0;
    while i < n_blocks
        invariant
            !(format is Bc6h),
            bb == format.block_bytes(),
            bpp == format.out_bytes_per_pixel(),
            payload@.len() >= n_blocks * bb,
            payload_len == payload@.len(),
            i <= n_blocks,
            blocks@.len() == i,
            forall|k: int| 0 <= k < i ==> #[trigger] blocks@[k]@ == decoded_block(
                format,
                compressed_block(format, payload@, k),
            ),
            forall|k: int| 0 <= k < i ==> #[trigger] blocks@[k]@.len() == 16 * bpp,
            format is Bc7 ==> forall|k: int|
                0 <= k < i ==> #[trigger] bc7_known(
                    compressed_block(format, payload@, k),
                    bc7_decode(compressed_block(format, payload@, k)),
                ),
        decreases n_blocks - i,
    {
        assert((i + 1) * bb <= n_blocks * bb) by (nonlinear_arith)
            requires
                i < n_blocks,
                bb >= 1,
        ;
        assert((i + 1) * bb == i * bb + bb) by (nonlinear_arith);
        let start = i * bb;
        let block = slice_subrange(payload, start, start + bb);
        let decoded = decode_block(format, block);
        blocks.push(decoded);
        i = i + 1;
    }
    let out = assemble_image(width, height, bpp, &blocks);
    assert(buffer_views(blocks@) =~= decoded_blocks(format, payload@, n_blocks as int));
    out
}

/// Layout law: byte `c` of the decoded pixel at `(x, y)` is byte `c` of pixel
/// `(x % 4, y % 4)` of the block in block row `y / 4` and block column `x / 4`.
pub proof fn lemma_pixel_from_block(
    width: int,
    height: int,
    bpp: int,
    blocks: Seq<Seq<u8>>,
    x: int,
    y: int,
    c: int,
)
    requires
        0 <= x < width,
        0 <= y < height,
        0 <= c < bpp,
    ensures
        0 <= (y * width + x) * bpp + c < assembled(width, height, bpp, blocks).len(),
        assembled(width, height, bpp, blocks)[(y * width + x) * bpp + c] == blocks[(y / 4)
            * blocks_across(width) + x / 4][((y % 4) * 4 + x % 4) * bpp + c],
{
    let p = y * width + x;
    assert(0 <= p < width * height) by (nonlinear_arith)
        requires
            0 <= x < width,
            0 <= y < height,
            p == y * width + x,
    ;
    lemma_pixel_position(width, height, bpp, p, c);
    lemma_fundamental_div_mod_converse(p, width, y, x);
}

/// BC5 stores two channels; the decoded RGB image has a zero blue channel
/// everywhere.
pub proof fn lemma_bc5_blue_is_zero(width: u32, height: u32, signed: bool, payload: Seq<u8>, i: int)
    requires
        0 <= i < decoded_image(width, height, BcFormat::Bc5 { signed }, payload).len(),
        i % 3 == 2,
    ensures
        decoded_image(width, height, BcFormat::Bc5 { signed }, payload)[i] == 0,
{
    let format = BcFormat::Bc5 { signed };
    let w = width as int;
    let h = height as int;
    let p = i / 3;
    assert(i == p * 3 + 2);
    assert(0 <= p < w * h) by (nonlinear_arith)
        requires
            0 <= i < w * h * 3,
            i == p * 3 + 2,
    ;
    lemma_pixel_position(w, h, 3, p, 2);
    let y = p / w;
    let x = p % w;
    let k = (y % 4) * 4 + x % 4;
    let n = blocks_across(w) * blocks_across(h);
    let b = (y / 4) * blocks_across(w) + x / 4;
    let blocks = decoded_blocks(format, payload, n);
    assert(blocks[b] == rg_to_rgb(bc5_decode(compressed_block(format, payload, b), signed)));
    lemma_fundamental_div_mod_converse(k * 3 + 2, 3, k, 2);
}

/// Locality law: payloads that agree on every block but block `k` decode to
/// images that agree on every pixel outside block `k` (bytes after the last
/// block never matter). With `k` beyond the last block, the images are equal.
pub proof fn lemma_block_locality(
    width: u32,
    height: u32,
    format: BcFormat,
    p1: Seq<u8>,
    p2: Seq<u8>,
    k: int,
    i: int,
)
    requires
        ({
            let bb = format.block_bytes() as int;
            let n = blocks_across(width as int) * blocks_across(height as int);
            &&& p1.len() >= n * bb
            &&& p2.len() >= n * bb
            &&& forall|j: int|
                0 <= j < n * bb && !(k * bb <= j < (k + 1) * bb) ==> #[trigger] p1[j] == p2[j]
        }),
        0 <= i < width * height * format.out_bytes_per_pixel(),
        ({
            let p = i / (format.out_bytes_per_pixel() as int);
            (p / (width as int) / 4) * blocks_across(width as int) + (p % (width as int)) / 4 != k
        }),
    ensures
        decoded_image(width, height, format, p1)[i] == decoded_image(width, height, format, p2)[i],
{
    let w = width as int;
    let h = height as int;
    let bpp = format.out_bytes_per_pixel() as int;
    let bb = format.block_bytes() as int;
    let n = blocks_across(w) * blocks_across(h);
    let p = i / bpp;
    let c = i % bpp;
    assert(0 <= p < w * h && 0 <= c < bpp && i == p * bpp + c) by (nonlinear_arith)
        requires
            0 <= i < w * h * bpp,
            bpp > 0,
            p == i / bpp,
            c == i % bpp,
    ;
    lemma_pixel_position(w, h, bpp, p, c);
    let b = (p / w / 4) * blocks_across(w) + (p % w) / 4;
    assert(0 <= b < n);
    assert(compressed_block(format, p1, b) =~= compressed_block(format, p2, b)) by {
        assert((b + 1) * bb <= n * bb && 0 <= b * bb) by (nonlinear_arith)
            requires
                0 <= b < n,
                bb >= 1,
        ;
        let cb1 = compressed_block(format, p1, b);
        let cb2 = compressed_block(format, p2, b);
        assert forall|t: int| 0 <= t < bb implies #[trigger] cb1[t] == cb2[t] by {
            let j = b * bb + t;
            assert(0 <= j < n * bb && !(k * bb <= j < (k + 1) * bb)) by (nonlinear_arith)
                requires
                    j == b * bb + t,
                    0 <= t < bb,
                    0 <= b < n,
                    b != k,
            ;
            assert(p1[j] == p2[j]);
        }
    }
}

/// Byte `c` of pixel `(x, y)` of a decoded BC7 image is byte `c` of pixel
/// `(x % 4, y % 4)` of its block's decoding.
proof fn lemma_bc7_pixel(width: u32, height: u32, payload: Seq<u8>, x: int, y: int, c: int)
    requires
        0 <= x < width,
        0 <= y < height,
        0 <= c < 4,
    ensures
        ({
            let w = width as int;
            let b = (y / 4) * blocks_across(w) + x / 4;
            let p = (y % 4) * 4 + x % 4;
            &&& 0 <= b < blocks_across(w) * blocks_across(height as int)
            &&& 0 <= p < 16
            &&& 0 <= (y * w + x) * 4 + c < decoded_image(width, height, BcFormat::Bc7, payload).len()
            &&& decoded_image(width, height, BcFormat::Bc7, payload)[(y * w + x) * 4 + c]
                == bc7_decode(compressed_block(BcFormat::Bc7, payload, b))[4 * p + c]
        }),
{
    let w = width as int;
    let h = height as int;
    let n = blocks_across(w) * blocks_across(h);
    let blocks = decoded_blocks(BcFormat::Bc7, payload, n);
    lemma_pixel_from_block(w, h, 4, blocks, x, y, c);
    let p = y * w + x;
    assert(0 <= p < w * h) by (nonlinear_arith)
        requires
            0 <= x < w,
            0 <= y < h,
            p == y * w + x,
    ;
    lemma_pixel_position(w, h, 4, p, c);
    lemma_fundamental_div_mod_converse(p, w, y, x);
}

/// BC7 keeps the alpha of mode 6 blocks: every pixel's alpha lies between
/// the alpha components of the block's two endpoints, so a block whose two
/// alpha endpoints are equal decodes with exactly that alpha (a fully
/// transparent block stays transparent).
pub proof fn lemma_bc7_mode6_alpha(width: u32, height: u32, payload: Seq<u8>, x: int, y: int)
    requires
        bc7_blocks_known(payload, blocks_across(width as int) * blocks_across(height as int)),
        0 <= x < width,
        0 <= y < height,
        bc7_is_mode6(
            compressed_block(BcFormat::Bc7, payload, (y / 4) * blocks_across(width as int) + x / 4),
        ),
    ensures
        ({
            let block = compressed_block(
                BcFormat::Bc7,
                payload,
                (y / 4) * blocks_across(width as int) + x / 4,
            );
            let a0 = 2 * block_bits(block, 49, 7) + block_bit(block, 63);
            let a1 = 2 * block_bits(block, 56, 7) + block_bit(block, 64);
            let alpha = decoded_image(width, height, BcFormat::Bc7, payload)[(y * width + x) * 4
                + 3] as int;
            &&& a0 <= a1 ==> a0 <= alpha <= a1
            &&& a1 <= a0 ==> a1 <= alpha <= a0
            &&& a0 == a1 ==> alpha == a0
        }),
{
    let w = width as int;
    let b = (y / 4) * blocks_across(w) + x / 4;
    let block = compressed_block(BcFormat::Bc7, payload, b);
    lemma_bc7_pixel(width, height, payload, x, y, 3);
    assert(bc7_known(block, bc7_decode(block)));
    let p = (y % 4) * 4 + x % 4;
    let a0 = bc7_mode6_endpoint(block, 0, 3);
    let a1 = bc7_mode6_endpoint(block, 1, 3);
    let idx = bc7_mode6_index(block, p);
    lemma_bc7_index_range(block, p);
    let wt = bc7_weight4(idx);
    assert(0 <= wt <= 64);
    lemma_block_bits_range(block, 49, 7);
    lemma_block_bits_range(block, 56, 7);
    lemma_block_bit_range(block, 63);
    lemma_block_bit_range(block, 64);
    reveal_with_fuel(two_pow, 8);
    lemma_interpolate_between(a0, a1, wt);
    let v = bc7_interpolate(a0, a1, wt);
    assert((4 * p + 3) % 4 == 3 && (4 * p + 3) / 4 == p);
    assert(bc7_mode6_pixels(block)[4 * p + 3] == v as u8);
}

proof fn lemma_interpolate_between(a: int, b: int, w: int)
    requires
        0 <= a <= 255,
        0 <= b <= 255,
        0 <= w <= 64,
    ensures
        a <= b ==> a <= bc7_interpolate(a, b, w) <= b,
        b <= a ==> b <= bc7_interpolate(a, b, w) <= a,
        0 <= bc7_interpolate(a, b, w) <= 255,
{
    assert(a <= b ==> 64 * a <= a * (64 - w) + b * w <= 64 * b) by (nonlinear_arith)
        requires
            0 <= w <= 64,
    ;
    assert(b <= a ==> 64 * b <= a * (64 - w) + b * w <= 64 * a) by (nonlinear_arith)
        requires
            0 <= w <= 64,
    ;
}

proof fn lemma_block_bit_range(block: Seq<u8>, i: int)
    ensures
        0 <= block_bit(block, i) <= 1,
{
    let v = block[i / 8];
    let s = (i % 8) as u8;
    assert((v >> s) & 1u8 <= 1u8) by (bit_vector);
}

/// `2` to the power `n`.
pub open spec fn two_pow(n: nat) -> int
    decreases n,
{
    if n == 0 {
        1
    } else {
        2 * two_pow((n - 1) as nat)
    }
}

proof fn lemma_block_bits_range(block: Seq<u8>, start: int, n: nat)
    ensures
        0 <= block_bits(block, start, n) < two_pow(n),
    decreases n,
{
    if n > 0 {
        lemma_block_bit_range(block, start);
        lemma_block_bits_range(block, start + 1, (n - 1) as nat);
    }
}

proof fn lemma_bc7_index_range(block: Seq<u8>, p: int)
    ensures
        0 <= bc7_mode6_index(block, p) < 16,
{
    lemma_block_bits_range(block, 65, 3);
    lemma_block_bits_range(block, 64 + 4 * p, 4);
    reveal_with_fuel(two_pow, 5);
}

/// BC7 modes 0 to 3 carry no alpha: every pixel of a block whose first byte
/// has a one among its low four bits is opaque.
pub proof fn lemma_bc7_low_modes_opaque(width: u32, height: u32, payload: Seq<u8>, x: int, y: int)
    requires
        bc7_blocks_known(payload, blocks_across(width as int) * blocks_across(height as int)),
        0 <= x < width,
        0 <= y < height,
        compressed_block(BcFormat::Bc7, payload, (y / 4) * blocks_across(width as int) + x / 4)[0]
            & 0x0Fu8 != 0u8,
    ensures
        decoded_image(width, height, BcFormat::Bc7, payload)[(y * width + x) * 4 + 3] == 255u8,
{
    let b = (y / 4) * blocks_across(width as int) + x / 4;
    let block = compressed_block(BcFormat::Bc7, payload, b);
    lemma_bc7_pixel(width, height, payload, x, y, 3);
    assert(bc7_known(block, bc7_decode(block)));
    let p = (y % 4) * 4 + x % 4;
    assert(bc7_decode(block)[4 * p + 3] == 255u8);
}

/// A BC7 block with an invalid mode (first byte zero) decodes to transparent
/// black.
pub proof fn lemma_bc7_invalid_mode_black(
    width: u32,
    height: u32,
    payload: Seq<u8>,
    x: int,
    y: int,
    c: int,
)
    requires
        bc7_blocks_known(payload, blocks_across(width as int) * blocks_across(height as int)),
        0 <= x < width,
        0 <= y < height,
        0 <= c < 4,
        compressed_block(BcFormat::Bc7, payload, (y / 4) * blocks_across(width as int) + x / 4)[0]
            == 0u8,
    ensures
        decoded_image(width, height, BcFormat::Bc7, payload)[(y * width + x) * 4 + c] == 0u8,
{
    let b = (y / 4) * blocks_across(width as int) + x / 4;
    let block = compressed_block(BcFormat::Bc7, payload, b);
    lemma_bc7_pixel(width, height, payload, x, y, c);
    assert(bc7_known(block, bc7_decode(block)));
}

proof fn lemma_single_index_range(block: Seq<u8>, start: int, bits: nat, p: int)
    requires
        2 <= bits <= 3,
    ensures
        0 <= bc7_single_index(block, start, bits, p) < two_pow(bits),
{
    lemma_block_bits_range(block, start, (bits - 1) as nat);
    lemma_block_bits_range(block, start + bits * p - 1, bits);
    reveal_with_fuel(two_pow, 4);
}

/// BC7 keeps the alpha of unrotated mode 4 blocks: every pixel's alpha lies
/// between the block's two alpha endpoints (6-bit fields at bits 38 and 44,
/// widened to 8 bits), so equal alpha endpoints give exactly that alpha.
pub proof fn lemma_bc7_mode4_alpha(width: u32, height: u32, payload: Seq<u8>, x: int, y: int)
    requires
        bc7_blocks_known(payload, blocks_across(width as int) * blocks_across(height as int)),
        0 <= x < width,
        0 <= y < height,
        bc7_is_mode4(
            compressed_block(BcFormat::Bc7, payload, (y / 4) * blocks_across(width as int) + x / 4),
        ),
        block_bits(
            compressed_block(BcFormat::Bc7, payload, (y / 4) * blocks_across(width as int) + x / 4),
            5,
            2,
        ) == 0,
    ensures
        ({
            let block = compressed_block(
                BcFormat::Bc7,
                payload,
                (y / 4) * blocks_across(width as int) + x / 4,
            );
            let e0 = block_bits(block, 38, 6);
            let e1 = block_bits(block, 44, 6);
            let a0 = 4 * e0 + e0 / 16;
            let a1 = 4 * e1 + e1 / 16;
            let alpha = decoded_image(width, height, BcFormat::Bc7, payload)[(y * width + x) * 4
                + 3] as int;
            &&& between(a0, a1, alpha)
            &&& a0 == a1 ==> alpha == a0
        }),
{
    let w = width as int;
    let b = (y / 4) * blocks_across(w) + x / 4;
    let block = compressed_block(BcFormat::Bc7, payload, b);
    lemma_bc7_pixel(width, height, payload, x, y, 3);
    assert(bc7_known(block, bc7_decode(block)));
    let p = (y % 4) * 4 + x % 4;
    lemma_single_index_range(block, 50, 2, p);
    lemma_single_index_range(block, 81, 3, p);
    reveal_with_fuel(two_pow, 7);
    let wt = if block_bit(block, 7) == 0 {
        bc7_weight3(bc7_single_index(block, 81, 3, p))
    } else {
        bc7_weight2(bc7_single_index(block, 50, 2, p))
    };
    assert(0 <= wt <= 64);
    lemma_block_bits_range(block, 38, 6);
    lemma_block_bits_range(block, 44, 6);
    let a0 = bc7_mode4_endpoint(block, 0, 3);
    let a1 = bc7_mode4_endpoint(block, 1, 3);
    lemma_interpolate_between(a0, a1, wt);
    assert((4 * p + 3) % 4 == 3 && (4 * p + 3) / 4 == p);
    assert(bc7_mode4_pixels(block)[4 * p + 3] == bc7_interpolate(a0, a1, wt) as u8);
}

/// BC7 keeps the alpha of unrotated mode 5 blocks: every pixel's alpha lies
/// between the block's two 8-bit alpha endpoints (bits 50 and 58), so equal
/// alpha endpoints give exactly that alpha.
pub proof fn lemma_bc7_mode5_alpha(width: u32, height: u32, payload: Seq<u8>, x: int, y: int)
    requires
        bc7_blocks_known(payload, blocks_across(width as int) * blocks_across(height as int)),
        0 <= x < width,
        0 <= y < height,
        bc7_is_mode5(
            compressed_block(BcFormat::Bc7, payload, (y / 4) * blocks_across(width as int) + x / 4),
        ),
        block_bits(
            compressed_block(BcFormat::Bc7, payload, (y / 4) * blocks_across(width as int) + x / 4),
            6,
            2,
        ) == 0,
    ensures
        ({
            let block = compressed_block(
                BcFormat::Bc7,
                payload,
                (y / 4) * blocks_across(width as int) + x / 4,
            );
            let a0 = block_bits(block, 50, 8);
            let a1 = block_bits(block, 58, 8);
            let alpha = decoded_image(width, height, BcFormat::Bc7, payload)[(y * width + x) * 4
                + 3] as int;
            &&& between(a0, a1, alpha)
            &&& a0 == a1 ==> alpha == a0
        }),
{
    let w = width as int;
    let b = (y / 4) * blocks_across(w) + x / 4;
    let block = compressed_block(BcFormat::Bc7, payload, b);
    lemma_bc7_pixel(width, height, payload, x, y, 3);
    assert(bc7_known(block, bc7_decode(block)));
    let p = (y % 4) * 4 + x % 4;
    lemma_single_index_range(block, 97, 2, p);
    reveal_with_fuel(two_pow, 9);
    let wt = bc7_weight2(bc7_single_index(block, 97, 2, p));
    assert(0 <= wt <= 64);
    lemma_block_bits_range(block, 50, 8);
    lemma_block_bits_range(block, 58, 8);
    let a0 = bc7_mode5_endpoint(block, 0, 3);
    let a1 = bc7_mode5_endpoint(block, 1, 3);
    lemma_interpolate_between(a0, a1, wt);
    assert((4 * p + 3) % 4 == 3 && (4 * p + 3) / 4 == p);
    assert(bc7_mode5_pixels(block)[4 * p + 3] == bc7_interpolate(a0, a1, wt) as u8);
}

/// BC7 keeps the alpha of mode 7 blocks: every pixel's alpha lies between
/// the alpha components of the two endpoints of one of the block's subsets,
/// so a block whose four alpha endpoints are equal decodes with exactly
/// that alpha.
pub proof fn lemma_bc7_mode7_alpha(width: u32, height: u32, payload: Seq<u8>, x: int, y: int)
    requires
        bc7_blocks_known(payload, blocks_across(width as int) * blocks_across(height as int)),
        0 <= x < width,
        0 <= y < height,
        bc7_is_mode7(
            compressed_block(BcFormat::Bc7, payload, (y / 4) * blocks_across(width as int) + x / 4),
        ),
    ensures
        ({
            let block = compressed_block(
                BcFormat::Bc7,
                payload,
                (y / 4) * blocks_across(width as int) + x / 4,
            );
            let alpha = decoded_image(width, height, BcFormat::Bc7, payload)[(y * width + x) * 4
                + 3] as int;
            let a = |k: int| bc7_mode7_endpoint(block, k, 3);
            &&& between(a(0), a(1), alpha) || between(a(2), a(3), alpha)
            &&& (a(0) == a(1) && a(1) == a(2) && a(2) == a(3)) ==> alpha == a(0)
        }),
{
    let w = width as int;
    let b = (y / 4) * blocks_across(w) + x / 4;
    let block = compressed_block(BcFormat::Bc7, payload, b);
    lemma_bc7_pixel(width, height, payload, x, y, 3);
    assert(bc7_known(block, bc7_decode(block)));
    let p = (y % 4) * 4 + x % 4;
    assert((4 * p + 3) % 4 == 3);
    assert(bc7_mode7_bounded(block, bc7_decode(block)));
    assert(0 <= 4 * p + 3 < 64);
}

} // verus!
