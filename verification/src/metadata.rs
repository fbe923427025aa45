use vstd::prelude::*;
use vstd::slice::slice_subrange;

use crate::bytes::{be16_value, be32_value, extend_bytes, read_be16, read_be32};
use crate::dpi::{
    icc_chunk, icc_chunk_count, icc_identifier, icc_segment, icc_segments, inject_icc_spec,
    insert_pos_from, is_jpeg_soi, MAX_ICC_CHUNK,
};
use crate::bytes::be16_bytes;
use crate::error::AppError;
use crate::image_proc::{apply_transform, transformed, transformed_dims, ImageTransform};
use crate::imaging::image_dims;

verus! {

/// One `ICC_PROFILE` APP2 payload: its sequence number, the total number of
/// parts it claims, and the profile bytes it carries.
pub struct IccChunk {
    pub seq_no: u8,
    pub count: u8,
    pub bytes: Vec<u8>,
}

/// The abstract value of an [`IccChunk`].
pub open spec fn chunk_view(c: IccChunk) -> (u8, u8, Seq<u8>) {
    (c.seq_no, c.count, c.bytes@)
}

/// Abstract values of a list of chunks.
pub open spec fn chunk_views(v: Seq<IccChunk>) -> Seq<(u8, u8, Seq<u8>)> {
    v.map_values(|c: IccChunk| chunk_view(c))
}

/// First position at or after `pos` that does not hold a `0xFF` fill byte.
pub open spec fn skip_fill(data: Seq<u8>, pos: int) -> int
    decreases data.len() - pos,
{
    if 0 <= pos < data.len() && data[pos] == 0xFF {
        skip_fill(data, pos + 1)
    } else {
        pos
    }
}

/// An APP2 payload that carries a piece of an ICC profile.
pub open spec fn is_icc_payload(payload: Seq<u8>) -> bool {
    payload.len() > 14 && payload.subrange(0, 12) == icc_identifier()
}

/// The ICC pieces met while walking the JPEG marker segments from `pos`, in
/// file order. The walk stops at start-of-scan, end-of-image, or the first
/// malformed segment.
pub open spec fn icc_walk(data: Seq<u8>, pos: int) -> Seq<(u8, u8, Seq<u8>)>
    decreases data.len() - pos,
{
    if pos < 0 || pos + 4 > data.len() || data[pos] != 0xFF {
        seq![]
    } else {
        let m = skip_fill(data, pos);
        proof {
            lemma_skip_fill_bounds(data, pos);
        }
        if m >= data.len() {
            seq![]
        } else {
            let marker = data[m];
            let p = m + 1;
            if marker == 0xD9 || marker == 0xDA {
                seq![]
            } else if marker == 0x01 || (0xD0 <= marker && marker <= 0xD7) {
                icc_walk(data, p)
            } else if p + 2 > data.len() {
                seq![]
            } else {
                let seg_len = be16_value(data, p);
                let q = p + 2;
                if seg_len < 2 || q + seg_len - 2 > data.len() {
                    seq![]
                } else {
                    let payload = data.subrange(q, q + seg_len - 2);
                    let rest = icc_walk(data, q + seg_len - 2);
                    if marker == 0xE2 && is_icc_payload(payload) {
                        seq![(payload[12], payload[13], payload.subrange(14, payload.len() as int))]
                            + rest
                    } else {
                        rest
                    }
                }
            }
        }
    }
}

pub proof fn lemma_skip_fill_bounds(data: Seq<u8>, pos: int)
    ensures
        pos >= 0 ==> skip_fill(data, pos) >= pos,
        0 <= pos <= data.len() ==> skip_fill(data, pos) <= data.len(),
        0 <= skip_fill(data, pos) < data.len() ==> data[skip_fill(data, pos)] != 0xFF,
    decreases data.len() - pos,
{
    if 0 <= pos < data.len() && data[pos] == 0xFF {
        lemma_skip_fill_bounds(data, pos + 1);
    }
}

/// How many pieces carry sequence number `s`.
pub open spec fn seq_occurrences(chunks: Seq<(u8, u8, Seq<u8>)>, s: int) -> nat
    decreases chunks.len(),
{
    if chunks.len() == 0 {
        0
    } else {
        seq_occurrences(chunks.drop_last(), s) + if chunks.last().0 == s {
            1nat
        } else {
            0nat
        }
    }
}

/// Index of the first piece at or after `k` with sequence number `s`
/// (`chunks.len()` when there is none).
pub open spec fn first_with_seq(chunks: Seq<(u8, u8, Seq<u8>)>, s: int, k: int) -> int
    decreases chunks.len() - k,
{
    if k < 0 || k >= chunks.len() {
        chunks.len() as int
    } else if chunks[k].0 == s {
        k
    } else {
        first_with_seq(chunks, s, k + 1)
    }
}

/// The pieces form one complete profile: every piece claims the same total
/// `n` (the number of pieces) and each sequence number `1..=n` occurs once.
pub open spec fn chunks_complete(chunks: Seq<(u8, u8, Seq<u8>)>) -> bool {
    let n = chunks.len();
    &&& n >= 1
    &&& forall|k: int| 0 <= k < n ==> #[trigger] chunks[k].1 == n
    &&& forall|s: int| 1 <= s <= n ==> #[trigger] seq_occurrences(chunks, s) == 1
}

/// Concatenation of the pieces numbered `1..=upto`, in sequence order.
pub open spec fn assembled(chunks: Seq<(u8, u8, Seq<u8>)>, upto: int) -> Seq<u8>
    decreases upto,
{
    if upto <= 0 {
        seq![]
    } else {
        assembled(chunks, upto - 1) + chunks[first_with_seq(chunks, upto, 0)].2
    }
}

/// The profile that a list of ICC pieces describes, if it is complete.
pub open spec fn icc_from_chunks(chunks: Seq<(u8, u8, Seq<u8>)>) -> Option<Seq<u8>> {
    if chunks_complete(chunks) {
        Some(assembled(chunks, chunks.len() as int))
    } else {
        None
    }
}

/// The ICC profile embedded in a JPEG's APP2 segments.
pub open spec fn jpeg_icc_spec(data: Seq<u8>) -> Option<Seq<u8>> {
    icc_from_chunks(icc_walk(data, 2))
}

/// Collects, in file order, the ICC pieces of the APP2 segments that precede
/// the image data of a JPEG.
fn collect_icc_chunks(data: &[u8]) -> (chunks: Vec<IccChunk>)
    ensures
        chunk_views(chunks@) == icc_walk(data@, 2),
{
    let mut chunks: Vec<IccChunk> = Vec::new();
    let mut pos: usize = 2;
    loop
        invariant
            pos >= 2,
            chunk_views(chunks@) + icc_walk(data@, pos as int) == icc_walk(data@, 2),
        decreases data@.len() - pos,
    {
        let ghost start = pos as int;
        if pos > data.len() || data.len() - pos < 4 || data[pos] != 0xFF {
            assert(chunk_views(chunks@) + seq![] =~= chunk_views(chunks@));
            return chunks;
        }
        proof {
            lemma_skip_fill_bounds(data@, start);
        }
        while pos < data.len() && data[pos] == 0xFF
            invariant
                start <= pos <= data@.len(),
                skip_fill(data@, pos as int) == skip_fill(data@, start),
            decreases data@.len() - pos,
        {
            pos += 1;
        }
        assert(pos == skip_fill(data@, start));
        if pos >= data.len() {
            assert(chunk_views(chunks@) + seq![] =~= chunk_views(chunks@));
            return chunks;
        }
        let marker = data[pos];
        pos += 1;
        if marker == 0xD9 || marker == 0xDA {
            assert(chunk_views(chunks@) + seq![] =~= chunk_views(chunks@));
            return chunks;
        }
        if marker == 0x01 || (0xD0 <= marker && marker <= 0xD7) {
            continue;
        }
        if data.len() - pos < 2 {
            assert(chunk_views(chunks@) + seq![] =~= chunk_views(chunks@));
            return chunks;
        }
        let segment_len = read_be16(data, pos);
        pos += 2;
        if segment_len < 2 || segment_len - 2 > data.len() - pos {
            assert(chunk_views(chunks@) + seq![] =~= chunk_views(chunks@));
            return chunks;
        }
        let end = pos + (segment_len - 2);
        let payload = slice_subrange(data, pos, end);
        if marker == 0xE2 && payload_is_icc(payload) {
            let bytes = slice_subrange(payload, 14, payload.len());
            let mut owned: Vec<u8> = Vec::new();
            extend_bytes(&mut owned, bytes);
            let chunk = IccChunk { seq_no: payload[12], count: payload[13], bytes: owned };
            let ghost old_chunks = chunks@;
            chunks.push(chunk);
            assert(chunk_views(chunks@) =~= chunk_views(old_chunks) + seq![chunk_view(chunk)]);
        }
        pos = end;
    }
}

/// The payload starts with `ICC_PROFILE\0` and carries at least one profile byte.
fn payload_is_icc(payload: &[u8]) -> (r: bool)
    ensures
        r == is_icc_payload(payload@),
{
    if payload.len() <= 14 {
        return false;
    }
    let mut i: usize = 0;
    while i < 12
        invariant
            i <= 12,
            payload@.len() > 14,
            forall|j: int| 0 <= j < i ==> payload@[j] == icc_identifier()[j],
        decreases 12 - i,
    {
        let expected: u8 = if i == 0 {
            0x49
        } else if i == 1 {
            0x43
        } else if i == 2 {
            0x43
        } else if i == 3 {
            0x5F
        } else if i == 4 {
            0x50
        } else if i == 5 {
            0x52
        } else if i == 6 {
            0x4F
        } else if i == 7 {
            0x46
        } else if i == 8 {
            0x49
        } else if i == 9 {
            0x4C
        } else if i == 10 {
            0x45
        } else {
            0x00
        };
        assert(expected == icc_identifier()[i as int]);
        if payload[i] != expected {
            return false;
        }
        i += 1;
    }
    assert(payload@.subrange(0, 12) =~= icc_identifier());
    true
}

/// The ICC profile embedded in a JPEG, reassembled from its `ICC_PROFILE`
/// APP2 segments in sequence order; `None` when there is none or the pieces
/// do not form one complete profile.
fn extract_jpeg_icc(data: &[u8]) -> (icc: Option<Vec<u8>>)
    ensures
        match icc {
            Some(v) => jpeg_icc_spec(data@) == Some(v@),
            None => jpeg_icc_spec(data@) is None,
        },
{
    let chunks = collect_icc_chunks(data);
    let ghost cv = chunk_views(chunks@);
    let n = chunks.len();
    if n == 0 {
        return None;
    }
    let mut k: usize = 0;
    while k < n
        invariant
            n == chunks@.len(),
            cv == chunk_views(chunks@),
            cv == icc_walk(data@, 2),
            k <= n,
            forall|j: int| 0 <= j < k ==> #[trigger] cv[j].1 == n,
        decreases n - k,
    {
        if chunks[k].count as usize != n {
            assert(cv[k as int].1 != n);
            assert(!chunks_complete(cv));
            return None;
        }
        k += 1;
    }
    assert(cv[0].1 == n);
    let mut icc: Vec<u8> = Vec::new();
    let mut s: usize = 1;
    while s <= n
        invariant
            n == chunks@.len(),
            cv == chunk_views(chunks@),
            cv == icc_walk(data@, 2),
            1 <= n <= 255,
            1 <= s <= n + 1,
            forall|j: int| 0 <= j < n ==> #[trigger] cv[j].1 == n,
            forall|t: int| 1 <= t < s ==> #[trigger] seq_occurrences(cv, t) == 1,
            icc@ == assembled(cv, s - 1),
        decreases n + 1 - s,
    {
        let mut matches: usize = 0;
        let mut first: usize = 0;
        let mut j: usize = 0;
        while j < n
            invariant
                n == chunks@.len(),
                cv == chunk_views(chunks@),
                j <= n,
                matches <= j,
                matches == seq_occurrences(cv.take(j as int), s as int),
                matches == 0 ==> forall|i: int| 0 <= i < j ==> #[trigger] cv[i].0 != s,
                matches > 0 ==> first < j && first_with_seq(cv, s as int, 0) == first,
            decreases n - j,
        {
            assert(cv.take(j + 1).drop_last() =~= cv.take(j as int));
            if chunks[j].seq_no as usize == s {
                if matches == 0 {
                    first = j;
                    proof {
                        lemma_first_with_seq(cv, s as int, 0, j as int);
                    }
                }
                matches += 1;
            }
            j += 1;
        }
        assert(cv.take(n as int) =~= cv);
        if matches != 1 {
            assert(seq_occurrences(cv, s as int) != 1);
            assert(!chunks_complete(cv));
            return None;
        }
        extend_bytes(&mut icc, chunks[first].bytes.as_slice());
        s += 1;
    }
    assert(chunks_complete(cv));
    Some(icc)
}

proof fn lemma_first_with_seq(c: Seq<(u8, u8, Seq<u8>)>, s: int, from: int, k: int)
    requires
        0 <= from <= k < c.len(),
        c[k].0 == s,
        forall|i: int| from <= i < k ==> #[trigger] c[i].0 != s,
    ensures
        first_with_seq(c, s, from) == k,
    decreases k - from,
{
    if from < k {
        lemma_first_with_seq(c, s, from + 1, k);
    }
}

/// The bytes that zlib decompression yields for `data`, or `None` when the
/// stream is rejected as corrupt.
pub uninterp spec fn zlib_decompressed(data: Seq<u8>) -> Option<Seq<u8>>;

/// The value of the first component of the EXIF `Orientation` tag of the
/// primary image in a JPEG, TIFF, PNG, WebP or HEIF container, or `None` when
/// the container holds no readable EXIF data or no such tag.
pub uninterp spec fn exif_orientation_value(data: Seq<u8>) -> Option<u32>;

/// Decompresses a zlib stream with `flate2::read::ZlibDecoder` and
/// `std::io::Read::read_to_end`. Claimed: on success the output is
/// `zlib_decompressed(compressed)`, and an error comes exactly when that is
/// `None`.
#[verifier::external_body]
fn zlib_decompress(compressed: &[u8]) -> (r: Result<Vec<u8>, std::io::Error>)
    ensures
        match r {
            Ok(v) => zlib_decompressed(compressed@) == Some(v@),
            Err(_) => zlib_decompressed(compressed@) is None,
        },
{
    let mut decoder = flate2::read::ZlibDecoder::new(compressed);
    let mut out = Vec::new();
    match std::io::Read::read_to_end(&mut decoder, &mut out) {
        Ok(_) => Ok(out),
        Err(e) => Err(e),
    }
}

/// Reads the EXIF orientation with `exif::Reader::read_from_container` over a
/// `std::io::Cursor`, `Exif::get_field(Tag::Orientation, In::PRIMARY)` and
/// `Value::get_uint(0)`. Claimed: the result is `exif_orientation_value(data)`.
#[verifier::external_body]
fn exif_orientation(data: &[u8]) -> (r: Option<u32>)
    ensures
        r == exif_orientation_value(data@),
{
    let mut reader = std::io::Cursor::new(data);
    let exif = exif::Reader::new().read_from_container(&mut reader).ok()?;
    let field = exif.get_field(exif::Tag::Orientation, exif::In::PRIMARY)?;
    field.value.get_uint(0)
}

/// The EXIF orientation tag of an in-memory image file, truncated to 16 bits.
pub fn read_orientation_from_bytes(data: &[u8]) -> (r: Option<u16>)
    ensures
        r == match exif_orientation_value(data@) {
            Some(v) => Some(v as u16),
            None => None,
        },
{
    match exif_orientation(data) {
        Some(v) => Some(v as u16),
        None => None,
    }
}

/// The transform that undoes the EXIF orientation code (1 when absent); the
/// identity when auto-orientation is disabled or the code is not 2..=8.
pub open spec fn orientation_transform(orientation: Option<u16>, enabled: bool) -> ImageTransform {
    let code = match orientation {
        Some(o) => o,
        None => 1,
    };
    if !enabled {
        ImageTransform::Identity
    } else if code == 2 {
        ImageTransform::FlipHorizontal
    } else if code == 3 {
        ImageTransform::Rotate180
    } else if code == 4 {
        ImageTransform::FlipVertical
    } else if code == 5 {
        ImageTransform::FlipHorizontalThenRotate90
    } else if code == 6 {
        ImageTransform::Rotate90
    } else if code == 7 {
        ImageTransform::FlipHorizontalThenRotate270
    } else if code == 8 {
        ImageTransform::Rotate270
    } else {
        ImageTransform::Identity
    }
}

/// The transform that displays an image upright for its EXIF orientation.
pub fn exif_orientation_transform(orientation: Option<u16>, enabled: bool) -> (t: ImageTransform)
    ensures
        t == orientation_transform(orientation, enabled),
{
    if !enabled {
        return ImageTransform::Identity;
    }
    let code = match orientation {
        Some(o) => o,
        None => 1,
    };
    match code {
        2 => ImageTransform::FlipHorizontal,
        3 => ImageTransform::Rotate180,
        4 => ImageTransform::FlipVertical,
        5 => ImageTransform::FlipHorizontalThenRotate90,
        6 => ImageTransform::Rotate90,
        7 => ImageTransform::FlipHorizontalThenRotate270,
        8 => ImageTransform::Rotate270,
        _ => ImageTransform::Identity,
    }
}

/// Turns an image upright according to its EXIF orientation, when enabled.
pub fn apply_orientation(img: image::DynamicImage, orientation: Option<u16>, enabled: bool) -> (r: image::DynamicImage)
    ensures
        r == transformed(img, orientation_transform(orientation, enabled)),
        image_dims(r) == transformed_dims(image_dims(img), orientation_transform(orientation, enabled)),
{
    let t = exif_orientation_transform(orientation, enabled);
    apply_transform(img, t)
}

/// The eight-byte PNG file signature.
pub open spec fn png_signature() -> Seq<u8> {
    seq![0x89u8, 0x50, 0x4E, 0x47, 0x0D, 0x0A, 0x1A, 0x0A]
}

/// The chunk type `iCCP`.
pub open spec fn iccp_tag() -> Seq<u8> {
    seq![0x69u8, 0x43, 0x43, 0x50]
}

/// The data of the first `iCCP` chunk met while walking the PNG chunks from
/// `pos`; the walk stops at the first chunk that does not fit in the file.
pub open spec fn png_iccp_data(data: Seq<u8>, pos: int) -> Option<Seq<u8>>
    decreases data.len() - pos,
{
    if pos < 0 || pos + 12 > data.len() {
        None
    } else {
        let len = be32_value(data, pos);
        let p = pos + 4;
        if p + 4 + len + 4 > data.len() {
            None
        } else if data.subrange(p, p + 4) == iccp_tag() {
            Some(data.subrange(p + 4, p + 4 + len))
        } else {
            png_iccp_data(data, p + 4 + len + 4)
        }
    }
}

/// Index of the first zero byte of `s` at or after `k` (`None` when there is none).
pub open spec fn first_zero(s: Seq<u8>, k: int) -> Option<int>
    decreases s.len() - k,
{
    if k < 0 || k >= s.len() {
        None
    } else if s[k] == 0 {
        Some(k)
    } else {
        first_zero(s, k + 1)
    }
}

/// The ICC profile of a PNG file: `Ok(None)` when there is no usable `iCCP`
/// chunk, `Err(())` when its zlib stream cannot be decompressed.
pub open spec fn png_icc_spec(data: Seq<u8>) -> Result<Option<Seq<u8>>, ()> {
    match png_iccp_data(data, 8) {
        None => Ok(None),
        Some(chunk) => match first_zero(chunk, 0) {
            None => Ok(None),
            Some(z) => if z + 2 > chunk.len() || chunk[z + 1] != 0 {
                Ok(None)
            } else {
                match zlib_decompressed(chunk.subrange(z + 2, chunk.len() as int)) {
                    Some(icc) => Ok(Some(icc)),
                    None => Err(()),
                }
            },
        },
    }
}

/// The ICC profile embedded in an image file: from the APP2 segments of a
/// JPEG, from the `iCCP` chunk of a PNG, none for any other data.
pub open spec fn icc_profile_spec(data: Seq<u8>) -> Result<Option<Seq<u8>>, ()> {
    if data.len() >= 2 && data[0] == 0xFF && data[1] == 0xD8 {
        Ok(jpeg_icc_spec(data))
    } else if data.len() >= 8 && data.subrange(0, 8) == png_signature() {
        png_icc_spec(data)
    } else {
        Ok(None)
    }
}

/// Relates an extracted profile to its abstract value.
pub open spec fn icc_result_matches(
    r: Result<Option<Vec<u8>>, AppError>,
    spec: Result<Option<Seq<u8>>, ()>,
) -> bool {
    match r {
        Ok(Some(v)) => spec == Ok::<Option<Seq<u8>>, ()>(Some(v@)),
        Ok(None) => spec == Ok::<Option<Seq<u8>>, ()>(None),
        Err(e) => spec is Err && e is Io,
    }
}

/// The ICC profile embedded in a JPEG or PNG file held in memory. A PNG whose
/// compressed profile cannot be decompressed gives an I/O error.
pub fn extract_icc_profile_from_bytes(data: &[u8]) -> (r: Result<Option<Vec<u8>>, AppError>)
    ensures
        icc_result_matches(r, icc_profile_spec(data@)),
{
    if data.len() >= 2 && data[0] == 0xFF && data[1] == 0xD8 {
        return Ok(extract_jpeg_icc(data));
    }
    if data.len() >= 8 && data[0] == 0x89 && data[1] == 0x50 && data[2] == 0x4E && data[3] == 0x47
        && data[4] == 0x0D && data[5] == 0x0A && data[6] == 0x1A && data[7] == 0x0A {
        assert(data@.subrange(0, 8) =~= png_signature());
        return extract_png_icc(data);
    }
    proof {
        if data@.len() >= 8 && data@.subrange(0, 8) == png_signature() {
            assert(data@[0] == data@.subrange(0, 8)[0]);
            assert(data@[1] == data@.subrange(0, 8)[1]);
            assert(data@[2] == data@.subrange(0, 8)[2]);
            assert(data@[3] == data@.subrange(0, 8)[3]);
            assert(data@[4] == data@.subrange(0, 8)[4]);
            assert(data@[5] == data@.subrange(0, 8)[5]);
            assert(data@[6] == data@.subrange(0, 8)[6]);
            assert(data@[7] == data@.subrange(0, 8)[7]);
        }
    }
    Ok(None)
}

/// The ICC profile of a PNG file held in memory.
fn extract_png_icc(data: &[u8]) -> (r: Result<Option<Vec<u8>>, AppError>)
    requires
        data@.len() >= 8,
    ensures
        icc_result_matches(r, png_icc_spec(data@)),
{
    let mut pos: usize = 8;
    let mut found: Option<&[u8]> = None;
    while found.is_none()
        invariant
            pos >= 8,
            match found {
                None => png_iccp_data(data@, pos as int) == png_iccp_data(data@, 8),
                Some(c) => png_iccp_data(data@, 8) == Some(c@),
            },
        decreases data@.len() - pos, (if found is None { 1int } else { 0int }),
    {
        if pos > data.len() || data.len() - pos < 12 {
            return Ok(None);
        }
        let len = read_be32(data, pos);
        pos += 4;
        if len > data.len() - pos || data.len() - pos - len < 8 {
            return Ok(None);
        }
        let is_iccp = data[pos] == 0x69 && data[pos + 1] == 0x43 && data[pos + 2] == 0x43
            && data[pos + 3] == 0x50;
        assert(data@.subrange(pos as int, pos + 4) =~= seq![
            data@[pos as int],
            data@[pos + 1],
            data@[pos + 2],
            data@[pos + 3],
        ]);
        let chunk_data = slice_subrange(data, pos + 4, pos + 4 + len);
        if is_iccp {
            found = Some(chunk_data);
        } else {
            pos = pos + 4 + len + 4;
        }
    }
    let chunk = match found {
        Some(c) => c,
        None => return Ok(None),
    };
    let mut z: usize = 0;
    while z < chunk.len() && chunk[z] != 0
        invariant
            z <= chunk@.len(),
            first_zero(chunk@, z as int) == first_zero(chunk@, 0),
        decreases chunk@.len() - z,
    {
        z += 1;
    }
    if z >= chunk.len() {
        return Ok(None);
    }
    if chunk.len() - z < 2 || chunk[z + 1] != 0 {
        return Ok(None);
    }
    let compressed = slice_subrange(chunk, z + 2, chunk.len());
    match zlib_decompress(compressed) {
        Ok(icc) => Ok(Some(icc)),
        Err(e) => Err(AppError::Io(e)),
    }
}

// ---------------------------------------------------------------------------
// Embedding a profile and reading it back
// ---------------------------------------------------------------------------

/// The pieces `(k+1 .. n)` of a profile split into `n` parts, as the JPEG walk
/// reports them.
pub open spec fn icc_entries(icc: Seq<u8>, n: int, k: int) -> Seq<(u8, u8, Seq<u8>)> {
    Seq::new((n - k) as nat, |i: int| ((k + i + 1) as u8, n as u8, icc_chunk(icc, k + i)))
}

proof fn lemma_skip_fill_one(x: Seq<u8>, p: int)
    requires
        0 <= p,
        p + 1 < x.len(),
        x[p] == 0xFF,
        x[p + 1] != 0xFF,
    ensures
        skip_fill(x, p) == p + 1,
{
    assert(skip_fill(x, p + 1) == p + 1);
}

/// `x` from `px` on holds the same bytes as `y` from `py` on.
pub open spec fn same_tail(x: Seq<u8>, y: Seq<u8>, px: int, py: int) -> bool {
    &&& 0 <= px <= x.len()
    &&& 0 <= py <= y.len()
    &&& x.len() - px == y.len() - py
    &&& x.subrange(px, x.len() as int) == y.subrange(py, y.len() as int)
}

proof fn lemma_same_tail_at(x: Seq<u8>, y: Seq<u8>, px: int, py: int, d: int)
    requires
        same_tail(x, y, px, py),
        0 <= d,
        px + d < x.len(),
    ensures
        x[px + d] == y[py + d],
        same_tail(x, y, px + d + 1, py + d + 1),
{
    assert(x.subrange(px, x.len() as int)[d] == y.subrange(py, y.len() as int)[d]);
    assert(x.subrange(px + d + 1, x.len() as int) =~= x.subrange(px, x.len() as int).subrange(
        d + 1,
        x.len() - px,
    ));
    assert(y.subrange(py + d + 1, y.len() as int) =~= y.subrange(py, y.len() as int).subrange(
        d + 1,
        y.len() - py,
    ));
}

/// Both walks see the same bytes from their starting points on.
proof fn lemma_skip_fill_shift(x: Seq<u8>, y: Seq<u8>, px: int, py: int)
    requires
        same_tail(x, y, px, py),
    ensures
        skip_fill(x, px) - px == skip_fill(y, py) - py,
    decreases x.len() - px,
{
    if px < x.len() {
        lemma_same_tail_at(x, y, px, py, 0);
        if x[px] == 0xFF {
            lemma_skip_fill_shift(x, y, px + 1, py + 1);
        }
    }
}

/// The JPEG walk only depends on the bytes from its starting point on.
proof fn lemma_walk_shift(x: Seq<u8>, y: Seq<u8>, px: int, py: int)
    requires
        same_tail(x, y, px, py),
    ensures
        icc_walk(x, px) == icc_walk(y, py),
    decreases x.len() - px,
{
    if px + 4 > x.len() {
    } else {
        lemma_same_tail_at(x, y, px, py, 0);
        if x[px] == 0xFF {
            lemma_skip_fill_shift(x, y, px, py);
            lemma_skip_fill_bounds(x, px);
            lemma_skip_fill_bounds(y, py);
            let m = skip_fill(x, px);
            let d = m - px;
            if m < x.len() {
                lemma_same_tail_at(x, y, px, py, d);
                let p = m + 1;
                let marker = x[m];
                if marker == 0xD9 || marker == 0xDA {
                } else if marker == 0x01 || (0xD0 <= marker && marker <= 0xD7) {
                    lemma_walk_shift(x, y, p, py + d + 1);
                } else if p + 2 > x.len() {
                } else {
                    lemma_same_tail_at(x, y, px, py, d + 1);
                    lemma_same_tail_at(x, y, px, py, d + 2);
                    let seg_len = be16_value(x, p);
                    let q = p + 2;
                    if seg_len < 2 || q + seg_len - 2 > x.len() {
                    } else {
                        let qy = py + d + 3;
                        assert(x.subrange(q, q + seg_len - 2) =~= y.subrange(qy, qy + seg_len - 2))
                            by {
                            assert forall|j: int| 0 <= j < seg_len - 2 implies #[trigger] x.subrange(
                                q,
                                q + seg_len - 2,
                            )[j] == y.subrange(qy, qy + seg_len - 2)[j] by {
                                lemma_same_tail_at(x, y, px, py, d + 3 + j);
                            }
                        }
                        let e = q + seg_len - 2;
                        if e < x.len() {
                            lemma_same_tail_at(x, y, px, py, e - px - 1);
                        } else {
                            assert(x.subrange(e, x.len() as int) =~= seq![]);
                            assert(y.subrange(qy + seg_len - 2, y.len() as int) =~= seq![]);
                        }
                        lemma_walk_shift(x, y, e, qy + seg_len - 2);
                    }
                }
            }
        }
    }
}

/// The leading APP0/APP1 segments contribute no ICC pieces: the walk from a
/// position in that run equals the walk from the end of the run, in any data
/// that agrees with `d` up to the end of the run.
proof fn lemma_walk_app_run(d: Seq<u8>, x: Seq<u8>, pos: int)
    requires
        0 <= pos <= d.len(),
        insert_pos_from(d, pos) <= x.len(),
        x.subrange(0, insert_pos_from(d, pos)) == d.subrange(0, insert_pos_from(d, pos)),
    ensures
        pos <= insert_pos_from(d, pos),
        icc_walk(x, pos) == icc_walk(x, insert_pos_from(d, pos)),
    decreases d.len() - pos,
{
    crate::dpi::lemma_insert_pos_bounds(d, pos);
    if pos + 4 <= d.len() && d[pos] == 0xFF && (d[pos + 1] == 0xE0 || d[pos + 1] == 0xE1) {
        let len = be16_value(d, pos + 2);
        if len < 2 || pos + 2 + len > d.len() {
        } else {
            lemma_walk_app_run(d, x, pos + 2 + len);
            let at = insert_pos_from(d, pos);
            assert(x.subrange(0, at)[pos] == d.subrange(0, at)[pos]);
            assert(x.subrange(0, at)[pos + 1] == d.subrange(0, at)[pos + 1]);
            assert(x.subrange(0, at)[pos + 2] == d.subrange(0, at)[pos + 2]);
            assert(x.subrange(0, at)[pos + 3] == d.subrange(0, at)[pos + 3]);
            lemma_skip_fill_one(x, pos);
            assert(be16_value(x, pos + 2) == len);
        }
    }
}

proof fn lemma_be16_roundtrip(v: u16)
    ensures
        be16_value(be16_bytes(v), 0) == v,
{
}

/// Walking over one `ICC_PROFILE` segment reports its piece and continues after it.
proof fn lemma_walk_icc_segment(x: Seq<u8>, p: int, chunk: Seq<u8>, seq_no: int, count: int)
    requires
        0 <= p,
        1 <= chunk.len() <= MAX_ICC_CHUNK,
        p + chunk.len() + 18 <= x.len(),
        x.subrange(p, p + chunk.len() + 18) == icc_segment(chunk, seq_no, count),
    ensures
        icc_walk(x, p) == seq![(seq_no as u8, count as u8, chunk)] + icc_walk(
            x,
            p + chunk.len() + 18,
        ),
{
    let seg = icc_segment(chunk, seq_no, count);
    let len16 = (chunk.len() + 16) as u16;
    assert(seg[0] == 0xFF);
    assert(seg[1] == 0xE2);
    assert(x[p] == seg[0]);
    assert(x[p + 1] == seg[1]);
    lemma_skip_fill_one(x, p);
    assert(x[p + 2] == seg[2]);
    assert(x[p + 3] == seg[3]);
    lemma_be16_roundtrip(len16);
    assert(be16_value(x, p + 2) == be16_value(be16_bytes(len16), 0));
    let q = p + 4;
    let payload = x.subrange(q, q + chunk.len() + 14);
    assert(payload =~= seg.subrange(4, seg.len() as int));
    assert(payload.subrange(0, 12) =~= icc_identifier());
    assert(payload.subrange(14, payload.len() as int) =~= chunk);
}

/// The first `m` segments are a prefix of the first `n` segments.
proof fn lemma_segments_prefix(icc: Seq<u8>, count: int, m: int, n: int)
    requires
        0 <= m <= n,
    ensures
        icc_segments(icc, count, m).len() <= icc_segments(icc, count, n).len(),
        icc_segments(icc, count, n).subrange(0, icc_segments(icc, count, m).len() as int)
            == icc_segments(icc, count, m),
    decreases n,
{
    if m < n {
        lemma_segments_prefix(icc, count, m, n - 1);
        let a = icc_segments(icc, count, n - 1);
        let b = icc_segment(icc_chunk(icc, n - 1), n, count);
        assert((a + b).subrange(0, icc_segments(icc, count, m).len() as int) =~= a.subrange(
            0,
            icc_segments(icc, count, m).len() as int,
        ));
    } else {
        assert(icc_segments(icc, count, n).subrange(0, icc_segments(icc, count, n).len() as int)
            =~= icc_segments(icc, count, n));
    }
}

proof fn lemma_chunk_shape(icc: Seq<u8>, n: int, k: int)
    requires
        n == icc_chunk_count(icc.len()),
        1 <= n,
        0 <= k < n,
        (n - 1) * MAX_ICC_CHUNK < icc.len() <= n * MAX_ICC_CHUNK,
    ensures
        1 <= icc_chunk(icc, k).len() <= MAX_ICC_CHUNK,
        k * MAX_ICC_CHUNK < icc.len(),
{
    assert(k * MAX_ICC_CHUNK <= (n - 1) * MAX_ICC_CHUNK) by (nonlinear_arith)
        requires
            k <= n - 1,
    ;
    assert(0 <= k * MAX_ICC_CHUNK) by (nonlinear_arith)
        requires
            k >= 0,
    ;
}

/// Walking over segments `k+1 ..= n` reports pieces `k+1 ..= n`.
proof fn lemma_walk_segments(x: Seq<u8>, at: int, icc: Seq<u8>, n: int, k: int)
    requires
        0 <= at,
        n == icc_chunk_count(icc.len()),
        1 <= n <= 255,
        (n - 1) * MAX_ICC_CHUNK < icc.len() <= n * MAX_ICC_CHUNK,
        0 <= k <= n,
        at + icc_segments(icc, n, n).len() <= x.len(),
        x.subrange(at, at + icc_segments(icc, n, n).len()) == icc_segments(icc, n, n),
    ensures
        icc_walk(x, at + icc_segments(icc, n, k).len()) == icc_entries(icc, n, k) + icc_walk(
            x,
            at + icc_segments(icc, n, n).len(),
        ),
    decreases n - k,
{
    if k == n {
        assert(icc_entries(icc, n, k) =~= seq![]);
        assert(icc_entries(icc, n, k) + icc_walk(x, at + icc_segments(icc, n, n).len())
            =~= icc_walk(x, at + icc_segments(icc, n, n).len()));
    } else {
        lemma_walk_segments(x, at, icc, n, k + 1);
        lemma_segments_prefix(icc, n, k + 1, n);
        lemma_chunk_shape(icc, n, k);
        let all = icc_segments(icc, n, n);
        let before = icc_segments(icc, n, k);
        let chunk = icc_chunk(icc, k);
        let seg = icc_segment(chunk, k + 1, n);
        assert(icc_segments(icc, n, k + 1) == before + seg);
        let p = at + before.len();
        assert(x.subrange(p, p + chunk.len() + 18) =~= seg) by {
            assert forall|j: int| 0 <= j < chunk.len() + 18 implies #[trigger] x.subrange(
                p,
                p + chunk.len() + 18,
            )[j] == seg[j] by {
                assert(x.subrange(at, at + all.len())[before.len() + j] == all[before.len() + j]);
                assert(all.subrange(0, (before + seg).len() as int)[before.len() + j] == (before
                    + seg)[before.len() + j]);
            }
        }
        lemma_walk_icc_segment(x, p, chunk, k + 1, n);
        assert(icc_entries(icc, n, k) =~= seq![((k + 1) as u8, n as u8, chunk)] + icc_entries(
            icc,
            n,
            k + 1,
        ));
    }
}

proof fn lemma_entries_occurrences(icc: Seq<u8>, n: int, m: int, s: int)
    requires
        0 <= m <= n,
        n <= 255,
    ensures
        seq_occurrences(icc_entries(icc, n, 0).take(m), s) == if 1 <= s <= m {
            1nat
        } else {
            0nat
        },
    decreases m,
{
    let e = icc_entries(icc, n, 0);
    if m > 0 {
        lemma_entries_occurrences(icc, n, m - 1, s);
        assert(e.take(m).drop_last() =~= e.take(m - 1));
        assert(e.take(m).last() == e[m - 1]);
    } else {
        assert(e.take(0).len() == 0);
    }
}

proof fn lemma_entries_assembled(icc: Seq<u8>, n: int, m: int)
    requires
        n == icc_chunk_count(icc.len()),
        1 <= n <= 255,
        (n - 1) * MAX_ICC_CHUNK < icc.len() <= n * MAX_ICC_CHUNK,
        0 <= m <= n,
    ensures
        assembled(icc_entries(icc, n, 0), m) == icc.subrange(
            0,
            if m * MAX_ICC_CHUNK <= icc.len() {
                m * MAX_ICC_CHUNK
            } else {
                icc.len() as int
            },
        ),
    decreases m,
{
    let e = icc_entries(icc, n, 0);
    if m == 0 {
        assert(icc.subrange(0, 0) =~= seq![]);
    } else {
        lemma_entries_assembled(icc, n, m - 1);
        lemma_chunk_shape(icc, n, m - 1);
        assert forall|i: int| 0 <= i < m - 1 implies #[trigger] e[i].0 != m by {}
        lemma_first_with_seq(e, m, 0, m - 1);
        assert((m - 1) * MAX_ICC_CHUNK + MAX_ICC_CHUNK == m * MAX_ICC_CHUNK) by (nonlinear_arith);
        assert(assembled(e, m) =~= icc.subrange(
            0,
            if m * MAX_ICC_CHUNK <= icc.len() {
                m * MAX_ICC_CHUNK
            } else {
                icc.len() as int
            },
        ));
    }
}

/// Reading back an embedded profile: when a JPEG carries no ICC pieces before
/// its image data, embedding a non-empty profile (of at most 255 segments)
/// and extracting it again gives back exactly that profile.
pub proof fn law_icc_embed_then_extract(data: Seq<u8>, icc: Seq<u8>)
    requires
        is_jpeg_soi(data),
        icc.len() > 0,
        icc_chunk_count(icc.len()) <= 255,
        icc_walk(data, 2).len() == 0,
    ensures
        jpeg_icc_spec(inject_icc_spec(data, Some(icc))) == Some(icc),
{
    let n = icc_chunk_count(icc.len()) as int;
    crate::dpi::lemma_chunk_count(icc.len());
    let at = insert_pos_from(data, 2);
    crate::dpi::lemma_insert_pos_bounds(data, 2);
    let segs = icc_segments(icc, n, n);
    let out = data.subrange(0, at) + segs + data.subrange(at, data.len() as int);
    assert(out == inject_icc_spec(data, Some(icc)));
    assert(out.subrange(0, at) =~= data.subrange(0, at));
    lemma_walk_app_run(data, data, 2);
    lemma_walk_app_run(data, out, 2);
    lemma_segments_prefix(icc, n, 0, n);
    assert(out.subrange(at, at + segs.len()) =~= segs);
    lemma_walk_segments(out, at, icc, n, 0);
    assert(icc_segments(icc, n, 0).len() == 0);
    assert(out.subrange(at + segs.len(), out.len() as int) =~= data.subrange(at, data.len() as int));
    lemma_walk_shift(out, data, at + segs.len(), at);
    let e = icc_entries(icc, n, 0);
    assert(icc_walk(out, 2) =~= e);
    assert forall|k: int| 0 <= k < n implies #[trigger] e[k].1 == n by {}
    assert forall|s: int| 1 <= s <= n implies #[trigger] seq_occurrences(e, s) == 1 by {
        lemma_entries_occurrences(icc, n, n, s);
        assert(e.take(n) =~= e);
    }
    lemma_entries_assembled(icc, n, n);
    assert(icc.subrange(0, icc.len() as int) =~= icc);
}

} // verus!
