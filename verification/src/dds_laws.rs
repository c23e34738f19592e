//! Laws of DDS loading stated over the raw bytes of the stream: where the
//! image size comes from, and which header bits decide acceptance.

use vstd::prelude::*;

use crate::dds::{dds_parse, u32_le, DdsError, DdsImage, LoadError};

verus! {

/// The little-endian 32-bit field at byte offset `off`, as a number.
pub open spec fn field(data: Seq<u8>, off: int) -> int {
    data[off] + 256 * data[off + 1] + 65536 * data[off + 2] + 16777216 * data[off + 3]
}

/// The stream announces a DX10 extension header (FourCC `DX10`).
pub open spec fn announces_dx10(data: Seq<u8>) -> bool {
    data[84] == 0x44u8 && data[85] == 0x58u8 && data[86] == 0x31u8 && data[87] == 0x30u8
}

/// Two streams of one length that agree on every byte outside `[lo, hi)`.
pub open spec fn agree_outside(d1: Seq<u8>, d2: Seq<u8>, lo: int, hi: int) -> bool {
    &&& d1.len() == d2.len()
    &&& forall|i: int| 0 <= i < d1.len() && !(lo <= i < hi) ==> #[trigger] d1[i] == d2[i]
}

proof fn lemma_field_is_u32_le(data: Seq<u8>, off: int)
    requires
        0 <= off,
        off + 4 <= data.len(),
    ensures
        u32_le(data, off) as int == field(data, off),
        0 <= field(data, off) <= u32::MAX,
{
}

proof fn lemma_fourcc_bit(b0: u8, b1: u8, b2: u8, b3: u8)
    ensures
        (((b0 as u32 + b1 as u32 * 256 + b2 as u32 * 65536 + b3 as u32 * 16777216) as u32) & 4u32 == 0)
            <==> (b0 & 4u8 == 0),
{
    assert((((b0 as u32 + b1 as u32 * 256 + b2 as u32 * 65536 + b3 as u32 * 16777216) as u32) & 4u32
        == 0) <==> (b0 & 4u8 == 0)) by (bit_vector);
}

/// The pixel-format FourCC flag of a stream is the bit 0x4 of byte 80.
proof fn lemma_fourcc_flag(data: Seq<u8>)
    requires
        data.len() >= 84,
    ensures
        (u32_le(data, 80) & 4u32 == 0) <==> (data[80] & 4u8 == 0),
{
    lemma_fourcc_bit(data[80], data[81], data[82], data[83]);
    assert(u32_le(data, 80) == ((data[80] as u32 + data[81] as u32 * 256 + data[82] as u32 * 65536
        + data[83] as u32 * 16777216) as u32));
}

/// Fields below the changed range read the same in both streams.
proof fn lemma_same_fields(d1: Seq<u8>, d2: Seq<u8>, lo: int, hi: int, off: int)
    requires
        agree_outside(d1, d2, lo, hi),
        0 <= off,
        off + 4 <= d1.len(),
        off + 4 <= lo || hi <= off,
    ensures
        u32_le(d1, off) == u32_le(d2, off),
{
    assert(d1[off] == d2[off] && d1[off + 1] == d2[off + 1] && d1[off + 2] == d2[off + 2] && d1[off
        + 3] == d2[off + 3]);
}

/// A loaded image has the width and height written in the header (bytes
/// 16..20 and 12..16), whether its format comes from the FourCC code or from
/// the DX10 extension header.
pub proof fn lemma_dimensions_from_header(data: Seq<u8>)
    ensures
        dds_parse(data) matches Ok(image) ==> image.width as int == field(data, 16)
            && image.height as int == field(data, 12),
{
    if dds_parse(data) is Ok {
        lemma_field_is_u32_le(data, 12);
        lemma_field_is_u32_le(data, 16);
    }
}

/// A loaded image has the FourCC flag set in its pixel format.
pub proof fn lemma_loaded_has_fourcc_flag(data: Seq<u8>)
    ensures
        dds_parse(data) is Ok ==> data[80] & 4u8 != 0,
{
    if dds_parse(data) is Ok {
        lemma_fourcc_flag(data);
    }
}

/// Only the FourCC flag of the pixel format flags counts: two streams that
/// differ only in the pixel format flags (bytes 80..84) and agree on the bit
/// 0x4 load alike.
pub proof fn lemma_other_pixel_format_flags_ignored(d1: Seq<u8>, d2: Seq<u8>)
    requires
        agree_outside(d1, d2, 80, 84),
        d1.len() >= 84 ==> (d1[80] & 4u8) == (d2[80] & 4u8),
    ensures
        dds_parse(d1) == dds_parse(d2),
{
    if d1.len() >= 128 {
        lemma_fourcc_flag(d1);
        lemma_fourcc_flag(d2);
        lemma_same_parse_outside(d1, d2, 80, 84);
    } else {
        if d1.len() >= 80 {
            lemma_same_fields(d1, d2, 80, 84, 76);
        }
        if d1.len() >= 12 {
            lemma_same_fields(d1, d2, 80, 84, 8);
        }
        if d1.len() >= 8 {
            lemma_same_fields(d1, d2, 80, 84, 4);
        }
        if d1.len() >= 4 {
            assert(d1[0] == d2[0] && d1[1] == d2[1] && d1[2] == d2[2] && d1[3] == d2[3]);
        }
    }
}

/// The parts of loading that read neither `[lo, hi)` nor anything from byte
/// 148 onwards, when `[lo, hi)` is the pixel format flags or the DX10
/// `miscFlags2` field.
proof fn lemma_same_parse_outside(d1: Seq<u8>, d2: Seq<u8>, lo: int, hi: int)
    requires
        agree_outside(d1, d2, lo, hi),
        d1.len() >= 128,
        (lo == 80 && hi == 84) || (lo == 144 && hi == 148),
        lo == 144 ==> announces_dx10(d1),
        (u32_le(d1, 80) & 4u32 == 0) <==> (u32_le(d2, 80) & 4u32 == 0),
        lo == 144 && d1.len() >= 148 ==> (u32_le(d1, 144) > 4) == (u32_le(d2, 144) > 4),
        lo == 144 && d1.len() >= 148 && u32_le(d1, 144) > 4 ==> u32_le(d1, 144) == u32_le(
            d2,
            144,
        ),
    ensures
        dds_parse(d1) == dds_parse(d2),
{
    assert(d1[0] == d2[0] && d1[1] == d2[1] && d1[2] == d2[2] && d1[3] == d2[3]);
    assert(d1[84] == d2[84] && d1[85] == d2[85] && d1[86] == d2[86] && d1[87] == d2[87]);
    lemma_same_fields(d1, d2, lo, hi, 4);
    lemma_same_fields(d1, d2, lo, hi, 8);
    lemma_same_fields(d1, d2, lo, hi, 12);
    lemma_same_fields(d1, d2, lo, hi, 16);
    lemma_same_fields(d1, d2, lo, hi, 76);
    if lo == 144 {
        lemma_same_fields(d1, d2, lo, hi, 80);
    }
    if d1.len() >= 148 {
        lemma_same_fields(d1, d2, lo, hi, 128);
        lemma_same_fields(d1, d2, lo, hi, 132);
        lemma_same_fields(d1, d2, lo, hi, 136);
        lemma_same_fields(d1, d2, lo, hi, 140);
        if lo == 80 {
            lemma_same_fields(d1, d2, lo, hi, 144);
        }
    }
    assert forall|e: int| 148 <= e <= d1.len() implies #[trigger] d1.subrange(148, e)
        == d2.subrange(148, e) by {
        assert(d1.subrange(148, e) =~= d2.subrange(148, e));
    }
    if lo == 80 {
        assert forall|e: int| 128 <= e <= d1.len() implies #[trigger] d1.subrange(128, e)
            == d2.subrange(128, e) by {
            assert(d1.subrange(128, e) =~= d2.subrange(128, e));
        }
    }
}

/// A stream without the FourCC flag is refused as uncompressed: a stream
/// that loads, with bit 0x4 of its pixel format flags cleared, is refused
/// with `Uncompressed`.
pub proof fn lemma_cleared_fourcc_flag_is_uncompressed(d1: Seq<u8>, d2: Seq<u8>)
    requires
        dds_parse(d1) is Ok,
        agree_outside(d1, d2, 80, 84),
        d2[80] & 4u8 == 0,
    ensures
        dds_parse(d2) == Err::<DdsImage, LoadError>(LoadError::Uncompressed),
{
    assert(d1.len() >= 128);
    lemma_fourcc_flag(d2);
    assert(d1[0] == d2[0] && d1[1] == d2[1] && d1[2] == d2[2] && d1[3] == d2[3]);
    lemma_same_fields(d1, d2, 80, 84, 4);
    lemma_same_fields(d1, d2, 80, 84, 8);
    lemma_same_fields(d1, d2, 80, 84, 76);
}

/// Every alpha mode 0..=4 in the DX10 `miscFlags2` field (bytes 144..148) is
/// accepted alike: two DX10 streams that differ only in that field, both at
/// most 4, load alike.
pub proof fn lemma_alpha_modes_accepted(d1: Seq<u8>, d2: Seq<u8>)
    requires
        d1.len() >= 148,
        announces_dx10(d1),
        agree_outside(d1, d2, 144, 148),
        field(d1, 144) <= 4,
        field(d2, 144) <= 4,
    ensures
        dds_parse(d1) == dds_parse(d2),
{
    lemma_field_is_u32_le(d1, 144);
    lemma_field_is_u32_le(d2, 144);
    lemma_field_is_u32_le(d1, 80);
    lemma_field_is_u32_le(d2, 80);
    assert(d1[80] == d2[80] && d1[81] == d2[81] && d1[82] == d2[82] && d1[83] == d2[83]);
    lemma_same_parse_outside(d1, d2, 144, 148);
}

/// An alpha mode above 4 is refused: a DX10 stream that loads, with its
/// `miscFlags2` field (bytes 144..148) set to a value above 4, is refused
/// with `Dx10Flags` carrying that value.
pub proof fn lemma_alpha_mode_above_four_refused(d1: Seq<u8>, d2: Seq<u8>)
    requires
        dds_parse(d1) is Ok,
        announces_dx10(d1),
        agree_outside(d1, d2, 144, 148),
        field(d2, 144) > 4,
    ensures
        dds_parse(d2) == Err::<DdsImage, LoadError>(
            LoadError::Decoding(DdsError::Dx10Flags(field(d2, 144) as u32)),
        ),
{
    assert(d1.len() >= 148);
    lemma_field_is_u32_le(d2, 144);
    lemma_field_is_u32_le(d1, 80);
    lemma_field_is_u32_le(d2, 80);
    assert(d1[0] == d2[0] && d1[1] == d2[1] && d1[2] == d2[2] && d1[3] == d2[3]);
    assert(d1[80] == d2[80] && d1[81] == d2[81] && d1[82] == d2[82] && d1[83] == d2[83]);
    assert(d1[84] == d2[84] && d1[85] == d2[85] && d1[86] == d2[86] && d1[87] == d2[87]);
    lemma_same_fields(d1, d2, 144, 148, 4);
    lemma_same_fields(d1, d2, 144, 148, 8);
    lemma_same_fields(d1, d2, 144, 148, 12);
    lemma_same_fields(d1, d2, 144, 148, 16);
    lemma_same_fields(d1, d2, 144, 148, 76);
    lemma_same_fields(d1, d2, 144, 148, 128);
    lemma_same_fields(d1, d2, 144, 148, 132);
    lemma_same_fields(d1, d2, 144, 148, 136);
    lemma_same_fields(d1, d2, 144, 148, 140);
}

} // verus!
