//! DDS (DirectDraw Surface) container: header parsing and decoding of the
//! block-compressed payload in every BCn format (BC1 to BC7).
//!
//! A DDS stream is a 4-byte signature, a 124-byte header (which embeds a
//! 32-byte pixel format), for FourCC `DX10` a 20-byte extension header, and
//! then the compressed blocks, row by row.

use vstd::prelude::*;
use vstd::slice::{slice_subrange, slice_to_vec};

use crate::bc::{
    assemble_image, assembled, bc7_blocks_known, blocks_across, buffer_views, decode_into, decoded_image, div_ceil4,
    BcFormat, ColorType,
};

verus! {

/// A malformed DDS stream.
#[derive(Debug, Clone, Copy, PartialEq, Eq, Structural)]
pub enum DdsError {
    Signature,
    HeaderSize(u32),
    HeaderFlags(u32),
    PixelFormatSize(u32),
    DxgiFormat(u32),
    ResourceDimension(u32),
    Dx10Flags(u32),
    Dx10ArraySize(u32),
    DimensionsInvalid,
}

/// Why a DDS stream could not be loaded.
#[derive(Debug, Clone, Copy, PartialEq, Eq, Structural)]
pub enum LoadError {
    /// The stream is not a well-formed DDS file.
    Decoding(DdsError),
    /// The pixel format is not block-compressed (no FourCC).
    Uncompressed,
    /// The FourCC code names no supported format; the four code bytes.
    UnsupportedFourCc(u8, u8, u8, u8),
    /// The DX10 header names a DXGI format that is not block-compressed.
    UnsupportedDxgiFormat(u32),
    /// The stream ends before the header or the payload does.
    UnexpectedEof,
}

/// What the FourCC code of the pixel format announces.
#[derive(Debug, Clone, Copy, PartialEq, Eq, Structural)]
pub enum FourCc {
    Block(BcFormat),
    Dx10,
    Unknown,
}

pub const HEADER_SIZE: u32 = 124;

pub const PIXEL_FORMAT_SIZE: u32 = 32;

pub const PF_FOURCC: u32 = 0x4;

/// Flags every header must carry: caps (0x1), height (0x2), width (0x4) and
/// pixel format (0x1000).
pub const REQUIRED_FLAGS: u32 = 0x0000_1007;

/// Flags a header may carry: the required ones, pitch (0x8), mipmap count
/// (0x2_0000), linear size (0x8_0000) and depth (0x80_0000).
pub const VALID_FLAGS: u32 = 0x008A_100F;

/// Byte offset of the payload after the plain header.
pub const PLAIN_PAYLOAD_START: usize = 128;

/// Byte offset of the payload after the DX10 extension header.
pub const DX10_PAYLOAD_START: usize = 148;

/// The little-endian `u32` at byte offset `off`.
pub open spec fn u32_le(data: Seq<u8>, off: int) -> u32 {
    (data[off] as int + data[off + 1] as int * 0x100 + data[off + 2] as int * 0x1_0000
        + data[off + 3] as int * 0x100_0000) as u32
}

/// The stream starts with the signature `DDS `.
pub open spec fn has_signature(data: Seq<u8>) -> bool {
    data[0] == 0x44u8 && data[1] == 0x44u8 && data[2] == 0x53u8 && data[3] == 0x20u8
}

/// The header flags hold every required flag and no flag that is not valid.
pub open spec fn header_flags_valid(flags: u32) -> bool {
    flags & REQUIRED_FLAGS == REQUIRED_FLAGS && flags & !VALID_FLAGS == 0
}

/// The block format that a DXGI format number names, if it is block-compressed.
pub open spec fn dxgi_block_format(dxgi: u32) -> Option<BcFormat> {
    if 70 <= dxgi <= 72 {
        Some(BcFormat::Bc1)
    } else if 73 <= dxgi <= 75 {
        Some(BcFormat::Bc2)
    } else if 76 <= dxgi <= 78 {
        Some(BcFormat::Bc3)
    } else if dxgi == 79 || dxgi == 80 {
        Some(BcFormat::Bc4 { signed: false })
    } else if dxgi == 81 {
        Some(BcFormat::Bc4 { signed: true })
    } else if dxgi == 82 || dxgi == 83 {
        Some(BcFormat::Bc5 { signed: false })
    } else if dxgi == 84 {
        Some(BcFormat::Bc5 { signed: true })
    } else if dxgi == 94 || dxgi == 95 {
        Some(BcFormat::Bc6h { signed: false })
    } else if dxgi == 96 {
        Some(BcFormat::Bc6h { signed: true })
    } else if 97 <= dxgi <= 99 {
        Some(BcFormat::Bc7)
    } else {
        None
    }
}

/// The outcome of validating the five fields of a DX10 extension header.
pub open spec fn dx10_format(
    dxgi_format: u32,
    resource_dimension: u32,
    misc_flag: u32,
    array_size: u32,
    misc_flags_2: u32,
) -> Result<BcFormat, LoadError> {
    if dxgi_format > 132 {
        Err(LoadError::Decoding(DdsError::DxgiFormat(dxgi_format)))
    } else if !(2 <= resource_dimension <= 4) {
        Err(LoadError::Decoding(DdsError::ResourceDimension(resource_dimension)))
    } else if misc_flag != 0 && misc_flag != 4 {
        Err(LoadError::Decoding(DdsError::Dx10Flags(misc_flag)))
    } else if resource_dimension == 4 && array_size != 1 {
        Err(LoadError::Decoding(DdsError::Dx10ArraySize(array_size)))
    } else if misc_flags_2 > 4 {
        Err(LoadError::Decoding(DdsError::Dx10Flags(misc_flags_2)))
    } else {
        match dxgi_block_format(dxgi_format) {
            Some(format) => Ok(format),
            None => Err(LoadError::UnsupportedDxgiFormat(dxgi_format)),
        }
    }
}

/// What a decoder holds once a stream is loaded.
pub struct DdsImage {
    pub width: u32,
    pub height: u32,
    pub format: BcFormat,
    pub payload: Seq<u8>,
}

/// Number of payload bytes an image of this size and format occupies.
pub open spec fn payload_size(width: u32, height: u32, format: BcFormat) -> int {
    blocks_across(width as int) * blocks_across(height as int) * format.block_bytes()
}

/// The checks on the image size, then the payload read from `start`.
pub open spec fn dds_payload(
    data: Seq<u8>,
    width: u32,
    height: u32,
    format: BcFormat,
    start: int,
) -> Result<DdsImage, LoadError> {
    let needed = payload_size(width, height, format);
    if width == 0 || height == 0 {
        Err(LoadError::Decoding(DdsError::DimensionsInvalid))
    } else if width * height * format.out_bytes_per_pixel() > usize::MAX {
        Err(LoadError::Decoding(DdsError::DimensionsInvalid))
    } else if needed > usize::MAX {
        Err(LoadError::Decoding(DdsError::DimensionsInvalid))
    } else if data.len() < start + needed {
        Err(LoadError::UnexpectedEof)
    } else {
        Ok(DdsImage { width, height, format, payload: data.subrange(start, start + needed) })
    }
}

/// The outcome of loading a DDS stream, checked in the order the stream is
/// read: a field is checked once it and everything before it has been read.
pub open spec fn dds_parse(data: Seq<u8>) -> Result<DdsImage, LoadError> {
    if data.len() < 4 {
        Err(LoadError::UnexpectedEof)
    } else if !has_signature(data) {
        Err(LoadError::Decoding(DdsError::Signature))
    } else if data.len() < 8 {
        Err(LoadError::UnexpectedEof)
    } else if u32_le(data, 4) != HEADER_SIZE {
        Err(LoadError::Decoding(DdsError::HeaderSize(u32_le(data, 4))))
    } else if data.len() < 12 {
        Err(LoadError::UnexpectedEof)
    } else if !header_flags_valid(u32_le(data, 8)) {
        Err(LoadError::Decoding(DdsError::HeaderFlags(u32_le(data, 8))))
    } else if data.len() < 80 {
        Err(LoadError::UnexpectedEof)
    } else if u32_le(data, 76) != PIXEL_FORMAT_SIZE {
        Err(LoadError::Decoding(DdsError::PixelFormatSize(u32_le(data, 76))))
    } else if data.len() < 128 {
        Err(LoadError::UnexpectedEof)
    } else if u32_le(data, 80) & PF_FOURCC == 0 {
        Err(LoadError::Uncompressed)
    } else {
        let height = u32_le(data, 12);
        let width = u32_le(data, 16);
        match classify_fourcc(data[84], data[85], data[86], data[87]) {
            FourCc::Block(format) => dds_payload(data, width, height, format, 128),
            FourCc::Dx10 => if data.len() < 148 {
                Err(LoadError::UnexpectedEof)
            } else {
                match dx10_format(
                    u32_le(data, 128),
                    u32_le(data, 132),
                    u32_le(data, 136),
                    u32_le(data, 140),
                    u32_le(data, 144),
                ) {
                    Ok(format) => dds_payload(data, width, height, format, 148),
                    Err(e) => Err(e),
                }
            },
            FourCc::Unknown => Err(
                LoadError::UnsupportedFourCc(data[84], data[85], data[86], data[87]),
            ),
        }
    }
}

/// What a FourCC code announces. `DXT2`/`DXT3`, `DXT4`/`DXT5`, `ATI1`/`BC4U`
/// and `ATI2`/`BC5U` are aliases.
#[verifier::allow_in_spec]
pub fn classify_fourcc(a: u8, b: u8, c: u8, d: u8) -> FourCc
    returns
        (match (a, b, c, d) {
            (0x44u8, 0x58u8, 0x54u8, 0x31u8) => FourCc::Block(BcFormat::Bc1),
            (0x44u8, 0x58u8, 0x54u8, 0x32u8) | (0x44u8, 0x58u8, 0x54u8, 0x33u8) => FourCc::Block(
                BcFormat::Bc2,
            ),
            (0x44u8, 0x58u8, 0x54u8, 0x34u8) | (0x44u8, 0x58u8, 0x54u8, 0x35u8) => FourCc::Block(
                BcFormat::Bc3,
            ),
            (0x41u8, 0x54u8, 0x49u8, 0x31u8) | (0x42u8, 0x43u8, 0x34u8, 0x55u8) => FourCc::Block(
                BcFormat::Bc4 { signed: false },
            ),
            (0x42u8, 0x43u8, 0x34u8, 0x53u8) => FourCc::Block(BcFormat::Bc4 { signed: true }),
            (0x41u8, 0x54u8, 0x49u8, 0x32u8) | (0x42u8, 0x43u8, 0x35u8, 0x55u8) => FourCc::Block(
                BcFormat::Bc5 { signed: false },
            ),
            (0x42u8, 0x43u8, 0x35u8, 0x53u8) => FourCc::Block(BcFormat::Bc5 { signed: true }),
            (0x44u8, 0x58u8, 0x31u8, 0x30u8) => FourCc::Dx10,
            _ => FourCc::Unknown,
        }),
{
    match (a, b, c, d) {
        (0x44u8, 0x58u8, 0x54u8, 0x31u8) => FourCc::Block(BcFormat::Bc1),
        (0x44u8, 0x58u8, 0x54u8, 0x32u8) | (0x44u8, 0x58u8, 0x54u8, 0x33u8) => FourCc::Block(BcFormat::Bc2),
        (0x44u8, 0x58u8, 0x54u8, 0x34u8) | (0x44u8, 0x58u8, 0x54u8, 0x35u8) => FourCc::Block(BcFormat::Bc3),
        (0x41u8, 0x54u8, 0x49u8, 0x31u8) | (0x42u8, 0x43u8, 0x34u8, 0x55u8) => FourCc::Block(
            BcFormat::Bc4 { signed: false },
        ),
        (0x42u8, 0x43u8, 0x34u8, 0x53u8) => FourCc::Block(BcFormat::Bc4 { signed: true }),
        (0x41u8, 0x54u8, 0x49u8, 0x32u8) | (0x42u8, 0x43u8, 0x35u8, 0x55u8) => FourCc::Block(
            BcFormat::Bc5 { signed: false },
        ),
        (0x42u8, 0x43u8, 0x35u8, 0x53u8) => FourCc::Block(BcFormat::Bc5 { signed: true }),
        (0x44u8, 0x58u8, 0x31u8, 0x30u8) => FourCc::Dx10,
        _ => FourCc::Unknown,
    }
}

/// Reads the little-endian `u32` at byte offset `off`; `None` when the data
/// ends before its last byte.
pub fn read_u32_le(data: &[u8], off: usize) -> (v: Option<u32>)
    ensures
        v is None <==> off + 4 > data@.len(),
        v matches Some(x) ==> x == u32_le(data@, off as int),
{
    let len = data.len();
    if off > len || len - off < 4 {
        return None;
    }
    let b0 = data[off] as u32;
    let b1 = data[off + 1] as u32;
    let b2 = data[off + 2] as u32;
    let b3 = data[off + 3] as u32;
    Some(b0 + b1 * 0x100 + b2 * 0x1_0000 + b3 * 0x100_0000)
}

/// Reads and checks the DX10 extension header that starts at byte offset
/// `off`, giving the block format it names.
pub fn read_dx10_format(data: &[u8], off: usize) -> (res: Result<BcFormat, LoadError>)
    ensures
        off + 20 > data@.len() ==> res == Err::<BcFormat, LoadError>(LoadError::UnexpectedEof),
        off + 20 <= data@.len() ==> res == dx10_format(
            u32_le(data@, off as int),
            u32_le(data@, off + 4),
            u32_le(data@, off + 8),
            u32_le(data@, off + 12),
            u32_le(data@, off + 16),
        ),
{
    let len = data.len();
    if off > len || len - off < 20 {
        return Err(LoadError::UnexpectedEof);
    }
    let dxgi_format = read_u32_le(data, off).unwrap();
    let resource_dimension = read_u32_le(data, off + 4).unwrap();
    let misc_flag = read_u32_le(data, off + 8).unwrap();
    let array_size = read_u32_le(data, off + 12).unwrap();
    let misc_flags_2 = read_u32_le(data, off + 16).unwrap();

    if dxgi_format > 132 {
        return Err(LoadError::Decoding(DdsError::DxgiFormat(dxgi_format)));
    }
    if !(2 <= resource_dimension && resource_dimension <= 4) {
        return Err(LoadError::Decoding(DdsError::ResourceDimension(resource_dimension)));
    }
    if misc_flag != 0x0 && misc_flag != 0x4 {
        return Err(LoadError::Decoding(DdsError::Dx10Flags(misc_flag)));
    }
    if resource_dimension == 4 && array_size != 1 {
        return Err(LoadError::Decoding(DdsError::Dx10ArraySize(array_size)));
    }
    if misc_flags_2 > 0x4 {
        return Err(LoadError::Decoding(DdsError::Dx10Flags(misc_flags_2)));
    }

    // DXGI format numbers per the `DXGI_FORMAT` enumeration.
    if 70 <= dxgi_format && dxgi_format <= 72 {
        Ok(BcFormat::Bc1)
    } else if 73 <= dxgi_format && dxgi_format <= 75 {
        Ok(BcFormat::Bc2)
    } else if 76 <= dxgi_format && dxgi_format <= 78 {
        Ok(BcFormat::Bc3)
    } else if dxgi_format == 79 || dxgi_format == 80 {
        Ok(BcFormat::Bc4 { signed: false })
    } else if dxgi_format == 81 {
        Ok(BcFormat::Bc4 { signed: true })
    } else if dxgi_format == 82 || dxgi_format == 83 {
        Ok(BcFormat::Bc5 { signed: false })
    } else if dxgi_format == 84 {
        Ok(BcFormat::Bc5 { signed: true })
    } else if dxgi_format == 94 || dxgi_format == 95 {
        Ok(BcFormat::Bc6h { signed: false })
    } else if dxgi_format == 96 {
        Ok(BcFormat::Bc6h { signed: true })
    } else if 97 <= dxgi_format && dxgi_format <= 99 {
        Ok(BcFormat::Bc7)
    } else {
        Err(LoadError::UnsupportedDxgiFormat(dxgi_format))
    }
}

/// DDS decoder that supports all BCn compressed formats (BC1-BC7).
#[derive(Debug)]
pub struct DdsDecoder {
    width: u32,
    height: u32,
    format: BcFormat,
    payload: Vec<u8>,
}

impl View for DdsDecoder {
    type V = DdsImage;

    closed spec fn view(&self) -> DdsImage {
        DdsImage {
            width: self.width,
            height: self.height,
            format: self.format,
            payload: self.payload@,
        }
    }
}

/// A loaded image: non-empty, its decoded size fits in memory, and the
/// payload holds exactly its blocks.
pub open spec fn image_well_formed(image: DdsImage) -> bool {
    &&& image.width > 0
    &&& image.height > 0
    &&& image.width * image.height * image.format.out_bytes_per_pixel() <= usize::MAX
    &&& image.payload.len() == payload_size(image.width, image.height, image.format)
}

impl DdsDecoder {
    #[verifier::type_invariant]
    spec fn well_formed(self) -> bool {
        image_well_formed(self@)
    }

    /// Loads a DDS stream: checks the header, selects the block format from
    /// the FourCC code or the DX10 header, and takes the payload. Bytes after
    /// the payload are not read.
    pub fn new(data: &[u8]) -> (res: Result<DdsDecoder, LoadError>)
        ensures
            match res {
                Ok(decoder) => dds_parse(data@) == Ok::<DdsImage, LoadError>(decoder@),
                Err(e) => dds_parse(data@) == Err::<DdsImage, LoadError>(e),
            },
    {
        let len = data.len();
        if len < 4 {
            return Err(LoadError::UnexpectedEof);
        }
        if !(data[0] == 0x44u8 && data[1] == 0x44u8 && data[2] == 0x53u8 && data[3] == 0x20u8) {
            return Err(LoadError::Decoding(DdsError::Signature));
        }
        let header_size = match read_u32_le(data, 4) {
            Some(v) => v,
            None => return Err(LoadError::UnexpectedEof),
        };
        if header_size != HEADER_SIZE {
            return Err(LoadError::Decoding(DdsError::HeaderSize(header_size)));
        }
        let flags = match read_u32_le(data, 8) {
            Some(v) => v,
            None => return Err(LoadError::UnexpectedEof),
        };
        assert(flags & (0x1007u32 | !0x8a100fu32) == 0x1007u32 <==> (flags & 0x1007u32
            == 0x1007u32 && flags & !0x8a100fu32 == 0)) by (bit_vector);
        if flags & (REQUIRED_FLAGS | !VALID_FLAGS) != REQUIRED_FLAGS {
            return Err(LoadError::Decoding(DdsError::HeaderFlags(flags)));
        }
        // height, width, pitch or linear size, depth, mipmap count and the
        // reserved words are read up to the pixel format's size field.
        if len < 80 {
            return Err(LoadError::UnexpectedEof);
        }
        let height = read_u32_le(data, 12).unwrap();
        let width = read_u32_le(data, 16).unwrap();
        let pf_size = read_u32_le(data, 76).unwrap();
        if pf_size != PIXEL_FORMAT_SIZE {
            return Err(LoadError::Decoding(DdsError::PixelFormatSize(pf_size)));
        }
        // The rest of the pixel format, caps and reserved words.
        if len < 128 {
            return Err(LoadError::UnexpectedEof);
        }
        let pf_flags = read_u32_le(data, 80).unwrap();
        if pf_flags & PF_FOURCC == 0 {
            return Err(LoadError::Uncompressed);
        }
        let (format, start) = match classify_fourcc(data[84], data[85], data[86], data[87]) {
            FourCc::Block(format) => (format, PLAIN_PAYLOAD_START),
            FourCc::Dx10 => match read_dx10_format(data, PLAIN_PAYLOAD_START) {
                Ok(format) => (format, DX10_PAYLOAD_START),
                Err(e) => return Err(e),
            },
            FourCc::Unknown => {
                return Err(LoadError::UnsupportedFourCc(data[84], data[85], data[86], data[87]));
            },
        };

        if width == 0 || height == 0 {
            return Err(LoadError::Decoding(DdsError::DimensionsInvalid));
        }

        let bpp = format.out_bytes_per_pixel();
        let total = match (width as usize).checked_mul(height as usize) {
            Some(v) => v.checked_mul(bpp),
            None => None,
        };
        if total.is_none() {
            assert(width * height * bpp > usize::MAX) by (nonlinear_arith)
                requires
                    width * height > usize::MAX || (width * height) * bpp > usize::MAX,
                    bpp >= 1,
            ;
            return Err(LoadError::Decoding(DdsError::DimensionsInvalid));
        }

        let bw = div_ceil4(width);
        let bh = div_ceil4(height);
        let n_blocks = match bw.checked_mul(bh) {
            Some(v) => v,
            None => {
                assert(bw * bh * format.block_bytes() > usize::MAX) by (nonlinear_arith)
                    requires
                        bw * bh > usize::MAX,
                        format.block_bytes() >= 1,
                ;
                return Err(LoadError::Decoding(DdsError::DimensionsInvalid));
            },
        };
        let needed = match n_blocks.checked_mul(format.block_bytes()) {
            Some(v) => v,
            None => return Err(LoadError::Decoding(DdsError::DimensionsInvalid)),
        };

        if len - start < needed {
            return Err(LoadError::UnexpectedEof);
        }
        let payload = slice_to_vec(slice_subrange(data, start, start + needed));
        Ok(DdsDecoder { width, height, format, payload })
    }

    /// Width and height in pixels.
    pub fn dimensions(&self) -> (dims: (u32, u32))
        ensures
            dims == (self@.width, self@.height),
    {
        (self.width, self.height)
    }

    /// Pixel layout of the decoded image.
    pub fn color_type(&self) -> (ct: ColorType)
        ensures
            ct == self@.format.color_type(),
    {
        self.format.color_type()
    }

    /// The block format of the payload.
    pub fn format(&self) -> (f: BcFormat)
        ensures
            f == self@.format,
    {
        self.format
    }

    /// The compressed blocks, row by row.
    pub fn payload(&self) -> (p: &[u8])
        ensures
            p@ == self@.payload,
    {
        self.payload.as_slice()
    }

    /// Decodes the whole image, row-major, `out_bytes_per_pixel` bytes per
    /// pixel. BC6H decodes to floating point, which is done outside the
    /// library.
    pub fn read_image(&self) -> (out: Vec<u8>)
        requires
            !(self@.format is Bc6h),
        ensures
            out@ == decoded_image(self@.width, self@.height, self@.format, self@.payload),
            out@.len() == self@.width * self@.height * self@.format.out_bytes_per_pixel(),
            self@.format is Bc7 ==> bc7_blocks_known(
                self@.payload,
                blocks_across(self@.width as int) * blocks_across(self@.height as int),
            ),
    {
        proof {
            use_type_invariant(self);
        }
        decode_into(self.width, self.height, self.format, self.payload.as_slice())
    }
}

impl DdsDecoder {
    /// Lays out blocks that the caller decoded (BC6H blocks decode to
    /// floating point outside the library), row-major like `read_image`.
    /// `None` unless there is one block per 4x4 pixels, in row order, each
    /// holding 16 pixels of `out_bytes_per_pixel` bytes.
    pub fn read_image_from_blocks(&self, blocks: &Vec<Vec<u8>>) -> (out: Option<Vec<u8>>)
        ensures
            out is Some <==> (blocks@.len() == blocks_across(self@.width as int) * blocks_across(
                self@.height as int,
            ) && forall|i: int|
                0 <= i < blocks@.len() ==> #[trigger] blocks@[i]@.len() == 16
                    * self@.format.out_bytes_per_pixel()),
            out matches Some(o) ==> o@ == assembled(
                self@.width as int,
                self@.height as int,
                self@.format.out_bytes_per_pixel() as int,
                buffer_views(blocks@),
            ),
    {
        proof {
            use_type_invariant(self);
        }
        let bpp = self.format.out_bytes_per_pixel();
        let bw = div_ceil4(self.width);
        let bh = div_ceil4(self.height);
        let bb = self.format.block_bytes();
        let payload_len = self.payload.len();
        assert(bw * bh <= payload_len) by (nonlinear_arith)
            requires
                payload_len == bw * bh * bb,
                bb >= 1,
                bw >= 0,
                bh >= 0,
        ;
        if blocks.len() != bw * bh {
            return None;
        }
        let n = blocks.len();
        let mut i: usize = 0;
        while i < n
            invariant
                n == blocks@.len(),
                bpp == self@.format.out_bytes_per_pixel(),
                i <= n,
                forall|k: int| 0 <= k < i ==> #[trigger] blocks@[k]@.len() == 16 * bpp,
            decreases n - i,
        {
            if blocks[i].len() != 16 * bpp {
                return None;
            }
            i = i + 1;
        }
        Some(assemble_image(self.width, self.height, bpp, blocks))
    }
}

/// A successful load yields a well-formed image: non-empty, with a decoded
/// size that fits in memory and exactly the payload its blocks need.
pub proof fn lemma_parse_well_formed(data: Seq<u8>)
    ensures
        dds_parse(data) matches Ok(image) ==> image_well_formed(image),
{
}

/// Length of the headers of a stream: the plain header, plus the DX10
/// extension when the FourCC code asks for one.
pub open spec fn headers_len(data: Seq<u8>) -> int {
    if classify_fourcc(data[84], data[85], data[86], data[87]) is Dx10 {
        DX10_PAYLOAD_START as int
    } else {
        PLAIN_PAYLOAD_START as int
    }
}

/// Loading reads the stream front to back and never past the payload: when
/// it does not stop for lack of data, appending bytes to the stream does not
/// change its outcome.
pub proof fn lemma_parse_ignores_trailing_bytes(data: Seq<u8>, extra: Seq<u8>)
    requires
        dds_parse(data) != Err::<DdsImage, LoadError>(LoadError::UnexpectedEof),
    ensures
        dds_parse(data + extra) == dds_parse(data),
{
    let d2 = data + extra;
    assert(forall|i: int| 0 <= i < data.len() ==> d2[i] == data[i]);
    if data.len() >= 128 && has_signature(data) && u32_le(data, 4) == HEADER_SIZE
        && header_flags_valid(u32_le(data, 8)) && u32_le(data, 76) == PIXEL_FORMAT_SIZE
        && u32_le(data, 80) & PF_FOURCC != 0 {
        let height = u32_le(data, 12);
        let width = u32_le(data, 16);
        match classify_fourcc(data[84], data[85], data[86], data[87]) {
            FourCc::Block(format) => {
                let needed = payload_size(width, height, format);
                if data.len() >= 128 + needed {
                    assert(d2.subrange(128, 128 + needed) =~= data.subrange(128, 128 + needed));
                }
            },
            FourCc::Dx10 => {
                if data.len() >= 148 {
                    match dx10_format(
                        u32_le(data, 128),
                        u32_le(data, 132),
                        u32_le(data, 136),
                        u32_le(data, 140),
                        u32_le(data, 144),
                    ) {
                        Ok(format) => {
                            let needed = payload_size(width, height, format);
                            if data.len() >= 148 + needed {
                                assert(d2.subrange(148, 148 + needed) =~= data.subrange(
                                    148,
                                    148 + needed,
                                ));
                            }
                        },
                        Err(e) => {},
                    }
                }
            },
            FourCc::Unknown => {},
        }
    }
}

/// Loading consumes exactly the headers and the payload: a prefix of a
/// loadable stream loads to the same image when it holds both, and stops for
/// lack of data when it is shorter.
pub proof fn lemma_parse_consumes_exactly(data: Seq<u8>, n: int)
    requires
        dds_parse(data) is Ok,
        0 <= n <= data.len(),
    ensures
        dds_parse(data.take(n)) == (if n >= headers_len(data) + dds_parse(data)->Ok_0.payload.len() {
            dds_parse(data)
        } else {
            Err::<DdsImage, LoadError>(LoadError::UnexpectedEof)
        }),
{
    let t = data.take(n);
    assert(forall|i: int| 0 <= i < n ==> t[i] == data[i]);
    let height = u32_le(data, 12);
    let width = u32_le(data, 16);
    if n >= 128 {
        match classify_fourcc(data[84], data[85], data[86], data[87]) {
            FourCc::Block(format) => {
                let needed = payload_size(width, height, format);
                if n >= 128 + needed {
                    assert(t.subrange(128, 128 + needed) =~= data.subrange(128, 128 + needed));
                }
            },
            FourCc::Dx10 => {
                if n >= 148 {
                    let format = dx10_format(
                        u32_le(data, 128),
                        u32_le(data, 132),
                        u32_le(data, 136),
                        u32_le(data, 140),
                        u32_le(data, 144),
                    )->Ok_0;
                    let needed = payload_size(width, height, format);
                    if n >= 148 + needed {
                        assert(t.subrange(148, 148 + needed) =~= data.subrange(148, 148 + needed));
                    }
                }
            },
            FourCc::Unknown => {},
        }
    }
}

} // verus!
