//! Image metadata found by `gufo` in the raw bytes of an image: the Exif and
//! XMP blocks, key/value text, and the CICP colour description.

use vstd::prelude::*;

use crate::bc::buffer_views;

verus! {

/// What `gufo::RawMetadata::for_guessed` finds in the bytes of an image: its
/// Exif blocks, its XMP blocks and its key/value pairs in key order; `None`
/// when gufo does not recognise the image.
pub uninterp spec fn gufo_metadata(data: Seq<u8>) -> Option<
    (Seq<Seq<u8>>, Seq<Seq<u8>>, Seq<(Seq<char>, Seq<char>)>),
>;

/// The CICP code points (colour primaries, transfer characteristics, matrix
/// coefficients, full-range flag) that `gufo::Image::new` followed by
/// `cicp` finds in the bytes of an image; `None` when gufo does not recognise
/// the image or the image carries none.
pub uninterp spec fn gufo_cicp(data: Seq<u8>) -> Option<(u8, u8, u8, u8)>;

/// One chunk of a PNG file: its 4-byte type, its data and its 4-byte CRC.
pub struct PngChunk {
    pub kind: Seq<u8>,
    pub data: Seq<u8>,
    pub crc: Seq<u8>,
}

/// `n` as four big-endian bytes.
pub open spec fn be32(n: nat) -> Seq<u8> {
    seq![
        (n / 0x100_0000 % 0x100) as u8,
        (n / 0x1_0000 % 0x100) as u8,
        (n / 0x100 % 0x100) as u8,
        (n % 0x100) as u8,
    ]
}

/// The bytes of a chunk: length, type, data, CRC.
pub open spec fn chunk_bytes(c: PngChunk) -> Seq<u8> {
    be32(c.data.len()) + c.kind + c.data + c.crc
}

/// The bytes of consecutive chunks.
pub open spec fn chunks_bytes(cs: Seq<PngChunk>) -> Seq<u8>
    decreases cs.len(),
{
    if cs.len() == 0 {
        Seq::empty()
    } else {
        chunk_bytes(cs[0]) + chunks_bytes(cs.drop_first())
    }
}

/// A PNG file: the PNG signature followed by its chunks.
pub open spec fn png_file(cs: Seq<PngChunk>) -> Seq<u8> {
    seq![0x89u8, 0x50u8, 0x4Eu8, 0x47u8, 0x0Du8, 0x0Au8, 0x1Au8, 0x0Au8] + chunks_bytes(cs)
}

pub open spec fn kind_iend() -> Seq<u8> {
    seq![0x49u8, 0x45u8, 0x4Eu8, 0x44u8]
}

pub open spec fn kind_itxt() -> Seq<u8> {
    seq![0x69u8, 0x54u8, 0x58u8, 0x74u8]
}

pub open spec fn kind_text() -> Seq<u8> {
    seq![0x74u8, 0x45u8, 0x58u8, 0x74u8]
}

pub open spec fn kind_ztxt() -> Seq<u8> {
    seq![0x7Au8, 0x54u8, 0x58u8, 0x74u8]
}

pub open spec fn kind_exif() -> Seq<u8> {
    seq![0x65u8, 0x58u8, 0x49u8, 0x66u8]
}

pub open spec fn kind_cicp() -> Seq<u8> {
    seq![0x63u8, 0x49u8, 0x43u8, 0x50u8]
}

/// Chunks that make a PNG file: types and CRCs of 4 bytes, data lengths
/// that fit in 32 bits, and an `IEND` chunk last and nowhere else.
pub open spec fn png_chunks_valid(cs: Seq<PngChunk>) -> bool {
    &&& cs.len() >= 1
    &&& forall|i: int|
        0 <= i < cs.len() ==> (#[trigger] cs[i]).kind.len() == 4 && cs[i].crc.len() == 4
            && cs[i].data.len() <= u32::MAX
    &&& forall|i: int| 0 <= i < cs.len() - 1 ==> (#[trigger] cs[i]).kind != kind_iend()
    &&& cs.last().kind == kind_iend()
}

/// Chunk `i` is the first chunk of its type.
pub open spec fn first_of_kind(cs: Seq<PngChunk>, kind: Seq<u8>, i: int) -> bool {
    &&& 0 <= i < cs.len()
    &&& cs[i].kind == kind
    &&& forall|j: int| 0 <= j < i ==> (#[trigger] cs[j]).kind != kind
}

/// The keyword of XMP packets in `iTXt` chunks: `XML:com.adobe.xmp`.
pub open spec fn xmp_keyword() -> Seq<u8> {
    seq![
        0x58u8, 0x4Du8, 0x4Cu8, 0x3Au8, 0x63u8, 0x6Fu8, 0x6Du8, 0x2Eu8, 0x61u8, 0x64u8, 0x6Fu8,
        0x62u8, 0x65u8, 0x2Eu8, 0x78u8, 0x6Du8, 0x70u8,
    ]
}

/// The chunk data starts with the XMP keyword (up to the first zero byte).
pub open spec fn has_xmp_keyword(d: Seq<u8>) -> bool {
    d == xmp_keyword() || (d.len() > 17 && d.take(17) == xmp_keyword() && d[17] == 0u8)
}

/// All bytes are ASCII.
pub open spec fn is_ascii_bytes(b: Seq<u8>) -> bool {
    forall|t: int| 0 <= t < b.len() ==> #[trigger] b[t] < 0x80u8
}

/// The characters of ASCII bytes.
pub open spec fn ascii_chars(b: Seq<u8>) -> Seq<char> {
    b.map_values(|x: u8| x as char)
}

/// The text of an uncompressed `iTXt` XMP chunk with empty language and
/// translated keyword and an ASCII packet.
pub open spec fn plain_xmp_text(c: PngChunk) -> Option<Seq<u8>> {
    let d = c.data;
    if c.kind == kind_itxt() && d.len() >= 22 && d.take(17) == xmp_keyword() && d[17] == 0u8
        && d[18] != 1u8 && d[20] == 0u8 && d[21] == 0u8 && is_ascii_bytes(d.skip(22)) {
        Some(d.skip(22))
    } else {
        None
    }
}

/// The chunk is `tEXt` or `zTXt`, the kinds gufo reads key/value text from.
pub open spec fn is_textual(c: PngChunk) -> bool {
    c.kind == kind_text() || c.kind == kind_ztxt()
}

/// What gufo's metadata of a PNG file holds: the data of the first `eXIf`
/// chunk as first Exif block; the packet of the first XMP `iTXt` chunk as
/// first XMP block; no key/value pairs without textual chunks; and the key
/// and value of a lone ASCII `tEXt` chunk as the only pair.
pub open spec fn png_metadata_facts(
    data: Seq<u8>,
    meta: Option<(Seq<Seq<u8>>, Seq<Seq<u8>>, Seq<(Seq<char>, Seq<char>)>)>,
) -> bool {
    forall|cs: Seq<PngChunk>|
        png_chunks_valid(cs) && #[trigger] png_file(cs) == data ==> match meta {
            Some((exif, xmp, kv)) => png_chunk_metadata(cs, exif, xmp, kv),
            None => false,
        }
}

/// What gufo's metadata holds of the chunks of a PNG file (see
/// `png_metadata_facts`).
pub open spec fn png_chunk_metadata(
    cs: Seq<PngChunk>,
    exif: Seq<Seq<u8>>,
    xmp: Seq<Seq<u8>>,
    kv: Seq<(Seq<char>, Seq<char>)>,
) -> bool {
    &&& forall|i: int|
        #[trigger] first_of_kind(cs, kind_exif(), i) ==> exif.len() > 0 && exif[0] == cs[i].data
    &&& forall|i: int|
        #[trigger] first_plain_xmp(cs, i) ==> xmp.len() > 0 && xmp[0] == plain_xmp_text(cs[i])->0
    &&& (forall|i: int| 0 <= i < cs.len() ==> !is_textual(#[trigger] cs[i])) ==> kv.len() == 0
    &&& forall|i: int, k: int|
        #[trigger] lone_ascii_text(cs, i, k) ==> kv == seq![
            (ascii_chars(cs[i].data.take(k)), ascii_chars(cs[i].data.skip(k + 1))),
        ]
}

/// Chunk `i` is a plain XMP `iTXt` chunk and no earlier chunk is an `iTXt`
/// chunk with the XMP keyword.
pub open spec fn first_plain_xmp(cs: Seq<PngChunk>, i: int) -> bool {
    &&& 0 <= i < cs.len()
    &&& plain_xmp_text(cs[i]) is Some
    &&& forall|j: int|
        0 <= j < i ==> !((#[trigger] cs[j]).kind == kind_itxt() && has_xmp_keyword(cs[j].data))
}

/// Chunk `i` is the only textual chunk, a `tEXt` chunk whose data is an
/// ASCII key, a zero byte at `k`, and an ASCII value, with no other zero
/// byte.
pub open spec fn lone_ascii_text(cs: Seq<PngChunk>, i: int, k: int) -> bool {
    &&& 0 <= i < cs.len()
    &&& cs[i].kind == kind_text()
    &&& forall|j: int| 0 <= j < cs.len() && j != i ==> !is_textual(#[trigger] cs[j])
    &&& 0 <= k < cs[i].data.len()
    &&& cs[i].data[k] == 0u8
    &&& forall|t: int|
        0 <= t < cs[i].data.len() && t != k ==> 0u8 < #[trigger] cs[i].data[t] < 0x80u8
}

/// The CICP code points of a PNG file: those of the first `cICP` chunk when
/// its first four bytes are valid code points (full-range flag 0 or 1), and
/// none otherwise or without such a chunk.
pub open spec fn png_cicp_facts(data: Seq<u8>, cicp: Option<(u8, u8, u8, u8)>) -> bool {
    forall|cs: Seq<PngChunk>|
        png_chunks_valid(cs) && #[trigger] png_file(cs) == data ==> {
            &&& (forall|i: int| 0 <= i < cs.len() ==> (#[trigger] cs[i]).kind != kind_cicp())
                ==> cicp is None
            &&& forall|i: int|
                #[trigger] first_of_kind(cs, kind_cicp(), i) ==> cicp == (if cs[i].data.len() >= 4
                    && cs[i].data[3] <= 1 {
                    Some((cs[i].data[0], cs[i].data[1], cs[i].data[2], cs[i].data[3]))
                } else {
                    None
                })
        }
}

/// What the loader reports of a PNG file: the data of its first `eXIf`
/// chunk as Exif, the packet of its first XMP `iTXt` chunk as XMP, no
/// key/value pairs without `tEXt` or `zTXt` chunks, and the key and value of
/// a lone ASCII `tEXt` chunk as the only pair.
pub open spec fn png_reported(
    data: Seq<u8>,
    exif: Option<Seq<u8>>,
    xmp: Option<Seq<u8>>,
    kv: Option<Seq<(Seq<char>, Seq<char>)>>,
) -> bool {
    forall|cs: Seq<PngChunk>|
        png_chunks_valid(cs) && #[trigger] png_file(cs) == data ==> {
            &&& forall|i: int| #[trigger]
                first_of_kind(cs, kind_exif(), i) ==> exif == Some(cs[i].data)
            &&& forall|i: int| #[trigger]
                first_plain_xmp(cs, i) ==> xmp == Some(plain_xmp_text(cs[i])->0)
            &&& (forall|i: int| 0 <= i < cs.len() ==> !is_textual(#[trigger] cs[i])) ==> kv
                == Some(Seq::<(Seq<char>, Seq<char>)>::empty())
            &&& forall|i: int, k: int| #[trigger]
                lone_ascii_text(cs, i, k) ==> kv == Some(
                    seq![(ascii_chars(cs[i].data.take(k)), ascii_chars(cs[i].data.skip(k + 1)))],
                )
        }
}

/// The metadata of a `RawMetadata`, as gufo's metadata is described.
pub open spec fn raw_view(raw: Option<RawMetadata>) -> Option<
    (Seq<Seq<u8>>, Seq<Seq<u8>>, Seq<(Seq<char>, Seq<char>)>),
> {
    match raw {
        Some(m) => Some((buffer_views(m.exif@), buffer_views(m.xmp@), pair_views(m.key_value@))),
        None => None,
    }
}

/// The contents of key/value pairs of strings.
pub open spec fn pair_views(pairs: Seq<(String, String)>) -> Seq<(Seq<char>, Seq<char>)> {
    pairs.map_values(|p: (String, String)| (p.0@, p.1@))
}

/// The contents of an optional byte buffer.
pub open spec fn optional_bytes(b: Option<Vec<u8>>) -> Option<Seq<u8>> {
    match b {
        Some(v) => Some(v@),
        None => None,
    }
}

/// The contents of optional key/value pairs.
pub open spec fn optional_pairs(p: Option<Vec<(String, String)>>) -> Option<
    Seq<(Seq<char>, Seq<char>)>,
> {
    match p {
        Some(v) => Some(pair_views(v@)),
        None => None,
    }
}

/// The first element of a sequence, if any.
pub open spec fn first_of<T>(s: Seq<T>) -> Option<T> {
    if s.len() > 0 {
        Some(s[0])
    } else {
        None
    }
}

/// Every Exif block, XMP block and key/value pair gufo found.
pub struct RawMetadata {
    pub exif: Vec<Vec<u8>>,
    pub xmp: Vec<Vec<u8>>,
    pub key_value: Vec<(String, String)>,
}

/// Calls `gufo::RawMetadata::for_guessed` on the bytes and hands them back.
/// Trusted: the metadata found is the named value `gufo_metadata` of the
/// bytes (the key/value map is handed out in its key order), the bytes come
/// back unchanged whether gufo recognises the image or not, and for a PNG
/// file the metadata holds what `png_metadata_facts` says (gufo walks the
/// chunks up to `IEND`, takes the first `eXIf` chunk as first Exif block,
/// the first XMP `iTXt` chunk as first XMP block, and `tEXt`/`zTXt` chunks
/// as key/value pairs). Other formats and other PNG chunks are not
/// described.
#[verifier::external_body]
fn raw_metadata(data: Vec<u8>) -> (res: (Option<RawMetadata>, Vec<u8>))
    ensures
        res.1@ == data@,
        match res.0 {
            Some(m) => gufo_metadata(data@) == Some(
                (buffer_views(m.exif@), buffer_views(m.xmp@), pair_views(m.key_value@)),
            ),
            None => gufo_metadata(data@) is None,
        },
        png_metadata_facts(data@, raw_view(res.0)),
{
    match gufo::RawMetadata::for_guessed(data) {
        Ok((m, data)) => (
            Some(
                RawMetadata { exif: m.exif, xmp: m.xmp, key_value: m.key_value.into_iter().collect() },
            ),
            data,
        ),
        Err(err) => (None, err.into_inner()),
    }
}

/// Calls `gufo::Image::new` on the bytes, then `cicp` and `Cicp::to_bytes`,
/// and hands the bytes back. Trusted: the code points are the named value
/// `gufo_cicp` of the bytes, the bytes come back unchanged, and for a PNG
/// file the code points are those of its first `cICP` chunk as
/// `png_cicp_facts` says (gufo reads the first such chunk and keeps its
/// first four bytes when the full-range flag is 0 or 1).
#[verifier::external_body]
fn image_cicp(data: Vec<u8>) -> (res: (Option<(u8, u8, u8, u8)>, Vec<u8>))
    ensures
        res.0 == gufo_cicp(data@),
        res.1@ == data@,
        png_cicp_facts(data@, res.0),
{
    match gufo::Image::new(data) {
        Ok(image) => {
            let cicp = image.cicp().map(|c| c.to_bytes()).map(|b| (b[0], b[1], b[2], b[3]));
            (cicp, image.into_inner())
        },
        Err(err) => (None, err.into_inner()),
    }
}

/// What the loader reports besides the pixels, and the image bytes.
pub struct ImageMetadata {
    pub data: Vec<u8>,
    pub exif: Option<Vec<u8>>,
    pub xmp: Option<Vec<u8>>,
    pub key_value: Option<Vec<(String, String)>>,
    pub cicp: Option<(u8, u8, u8, u8)>,
}

/// Takes the first element out of a list.
fn take_first<T>(v: Vec<T>) -> (first: Option<T>)
    ensures
        first == first_of(v@),
{
    let mut v = v;
    if v.len() > 0 {
        Some(v.remove(0))
    } else {
        None
    }
}

/// The metadata of an image: the first Exif block, the first XMP block and
/// the key/value pairs when gufo recognises the image (nothing otherwise),
/// and the CICP code points; the bytes are handed back unchanged.
pub fn image_metadata(data: Vec<u8>) -> (m: ImageMetadata)
    ensures
        m.data@ == data@,
        m.cicp == gufo_cicp(data@),
        match gufo_metadata(data@) {
            Some((exif, xmp, kv)) => {
                &&& optional_bytes(m.exif) == first_of(exif)
                &&& optional_bytes(m.xmp) == first_of(xmp)
                &&& optional_pairs(m.key_value) == Some(kv)
            },
            None => m.exif is None && m.xmp is None && m.key_value is None,
        },
        png_reported(
            data@,
            optional_bytes(m.exif),
            optional_bytes(m.xmp),
            optional_pairs(m.key_value),
        ),
        png_cicp_facts(data@, m.cicp),
{
    let ghost input = data@;
    let (raw, data) = raw_metadata(data);
    let ghost found = raw_view(raw);
    let (exif, xmp, key_value) = match raw {
        Some(raw) => {
            let RawMetadata { exif, xmp, key_value } = raw;
            let ghost exif_views = buffer_views(exif@);
            let ghost xmp_views = buffer_views(xmp@);
            let first_exif = take_first(exif);
            let first_xmp = take_first(xmp);
            assert(optional_bytes(first_exif) == first_of(exif_views));
            assert(optional_bytes(first_xmp) == first_of(xmp_views));
            (first_exif, first_xmp, Some(key_value))
        },
        None => (None, None, None),
    };
    proof {
        assert forall|cs: Seq<PngChunk>|
            png_chunks_valid(cs) && #[trigger] png_file(cs) == input implies {
                &&& forall|i: int| #[trigger]
                    first_of_kind(cs, kind_exif(), i) ==> optional_bytes(exif) == Some(cs[i].data)
                &&& forall|i: int| #[trigger]
                    first_plain_xmp(cs, i) ==> optional_bytes(xmp) == Some(
                        plain_xmp_text(cs[i])->0,
                    )
                &&& (forall|i: int| 0 <= i < cs.len() ==> !is_textual(#[trigger] cs[i]))
                    ==> optional_pairs(key_value) == Some(
                    Seq::<(Seq<char>, Seq<char>)>::empty(),
                )
                &&& forall|i: int, k: int| #[trigger]
                    lone_ascii_text(cs, i, k) ==> optional_pairs(key_value) == Some(
                        seq![
                            (ascii_chars(cs[i].data.take(k)), ascii_chars(cs[i].data.skip(k + 1))),
                        ],
                    )
            } by {
            if let Some(t) = found {
                assert(png_chunk_metadata(cs, t.0, t.1, t.2));
            }
        }
    }
    let (cicp, data) = image_cicp(data);
    ImageMetadata { data, exif, xmp, key_value, cicp }
}

/// The chunks with `c` put just before the closing `IEND` chunk.
pub open spec fn with_chunk(cs: Seq<PngChunk>, c: PngChunk) -> Seq<PngChunk> {
    cs.insert(cs.len() - 1, c)
}

/// A chunk that can stand in a PNG file, of the given type.
pub open spec fn chunk_of_kind(c: PngChunk, kind: Seq<u8>) -> bool {
    c.kind == kind && c.crc.len() == 4 && c.data.len() <= u32::MAX
}

proof fn lemma_with_chunk_valid(cs: Seq<PngChunk>, c: PngChunk)
    requires
        png_chunks_valid(cs),
        c.kind.len() == 4,
        c.kind != kind_iend(),
        c.crc.len() == 4,
        c.data.len() <= u32::MAX,
    ensures
        png_chunks_valid(with_chunk(cs, c)),
        with_chunk(cs, c)[cs.len() - 1] == c,
        forall|j: int| 0 <= j < cs.len() - 1 ==> #[trigger] with_chunk(cs, c)[j] == cs[j],
        with_chunk(cs, c)[cs.len() as int] == cs.last(),
{
    let ws = with_chunk(cs, c);
    assert(ws.len() == cs.len() + 1);
    assert(ws.last() == cs.last());
    assert forall|i: int| 0 <= i < ws.len() implies (#[trigger] ws[i]).kind.len() == 4
        && ws[i].crc.len() == 4 && ws[i].data.len() <= u32::MAX by {
        if i < cs.len() - 1 {
            assert(ws[i] == cs[i]);
        } else if i > cs.len() - 1 {
            assert(ws[i] == cs[i - 1]);
        }
    }
    assert forall|i: int| 0 <= i < ws.len() - 1 implies (#[trigger] ws[i]).kind != kind_iend() by {
        if i < cs.len() - 1 {
            assert(ws[i] == cs[i]);
        }
    }
}

/// A PNG file that carries no XMP `iTXt` chunk, given an uncompressed XMP
/// `iTXt` chunk before its end, has that chunk's packet reported as its
/// XMP.
pub proof fn lemma_xmp_chunk_reported(
    cs: Seq<PngChunk>,
    c: PngChunk,
    exif: Option<Seq<u8>>,
    xmp: Option<Seq<u8>>,
    kv: Option<Seq<(Seq<char>, Seq<char>)>>,
)
    requires
        png_chunks_valid(cs),
        forall|j: int|
            0 <= j < cs.len() ==> !((#[trigger] cs[j]).kind == kind_itxt() && has_xmp_keyword(
                cs[j].data,
            )),
        chunk_of_kind(c, kind_itxt()),
        plain_xmp_text(c) is Some,
        png_reported(png_file(with_chunk(cs, c)), exif, xmp, kv),
    ensures
        xmp == Some(plain_xmp_text(c)->0),
{
    lemma_with_chunk_valid(cs, c);
    let ws = with_chunk(cs, c);
    assert(first_plain_xmp(ws, cs.len() - 1));
}

/// A PNG file without an `eXIf` chunk, given one before its end, has that
/// chunk's data reported as its Exif.
pub proof fn lemma_exif_chunk_reported(
    cs: Seq<PngChunk>,
    c: PngChunk,
    exif: Option<Seq<u8>>,
    xmp: Option<Seq<u8>>,
    kv: Option<Seq<(Seq<char>, Seq<char>)>>,
)
    requires
        png_chunks_valid(cs),
        forall|j: int| 0 <= j < cs.len() ==> (#[trigger] cs[j]).kind != kind_exif(),
        chunk_of_kind(c, kind_exif()),
        png_reported(png_file(with_chunk(cs, c)), exif, xmp, kv),
    ensures
        exif == Some(c.data),
{
    lemma_with_chunk_valid(cs, c);
    let ws = with_chunk(cs, c);
    assert(first_of_kind(ws, kind_exif(), cs.len() - 1));
}

/// A PNG file without `tEXt` or `zTXt` chunks, given one `tEXt` chunk with
/// an ASCII key and value before its end, reports exactly that key and
/// value.
pub proof fn lemma_text_chunk_reported(
    cs: Seq<PngChunk>,
    c: PngChunk,
    key: Seq<u8>,
    value: Seq<u8>,
    exif: Option<Seq<u8>>,
    xmp: Option<Seq<u8>>,
    kv: Option<Seq<(Seq<char>, Seq<char>)>>,
)
    requires
        png_chunks_valid(cs),
        forall|j: int| 0 <= j < cs.len() ==> !is_textual(#[trigger] cs[j]),
        chunk_of_kind(c, kind_text()),
        c.data == key + seq![0u8] + value,
        forall|t: int| 0 <= t < key.len() ==> 0u8 < #[trigger] key[t] < 0x80u8,
        forall|t: int| 0 <= t < value.len() ==> 0u8 < #[trigger] value[t] < 0x80u8,
        png_reported(png_file(with_chunk(cs, c)), exif, xmp, kv),
    ensures
        kv == Some(seq![(ascii_chars(key), ascii_chars(value))]),
{
    lemma_with_chunk_valid(cs, c);
    let ws = with_chunk(cs, c);
    let i = cs.len() - 1;
    let k = key.len() as int;
    assert(c.data.take(k) == key);
    assert(c.data.skip(k + 1) == value);
    assert forall|t: int| 0 <= t < c.data.len() && t != k implies 0u8 < #[trigger] c.data[t]
        < 0x80u8 by {
        if t < k {
            assert(c.data[t] == key[t]);
        } else {
            assert(c.data[t] == value[t - k - 1]);
        }
    }
    assert forall|j: int| 0 <= j < ws.len() && j != i implies !is_textual(#[trigger] ws[j]) by {
        if j < i {
            assert(ws[j] == cs[j]);
        } else {
            assert(ws[j] == cs[j - 1]);
        }
    }
    assert(lone_ascii_text(ws, i, k));
}

/// A PNG file without a `cICP` chunk reports no CICP code points; given a
/// `cICP` chunk with a valid full-range flag before its end, it reports
/// that chunk's four code points.
pub proof fn lemma_cicp_chunk_reported(
    cs: Seq<PngChunk>,
    c: PngChunk,
    before: Option<(u8, u8, u8, u8)>,
    after: Option<(u8, u8, u8, u8)>,
)
    requires
        png_chunks_valid(cs),
        forall|j: int| 0 <= j < cs.len() ==> (#[trigger] cs[j]).kind != kind_cicp(),
        chunk_of_kind(c, kind_cicp()),
        c.data.len() >= 4,
        c.data[3] <= 1,
        png_cicp_facts(png_file(cs), before),
        png_cicp_facts(png_file(with_chunk(cs, c)), after),
    ensures
        before is None,
        after == Some((c.data[0], c.data[1], c.data[2], c.data[3])),
{
    lemma_with_chunk_valid(cs, c);
    let ws = with_chunk(cs, c);
    assert(png_file(cs) == png_file(cs));
    assert(first_of_kind(ws, kind_cicp(), cs.len() - 1));
}

} // verus!
