use vstd::prelude::*;

use vstd::slice::slice_subrange;
use crate::bytes::{be16_bytes, be16_value, extend_bytes, read_be16};

verus! {

/// Largest ICC payload carried by one APP2 segment.
pub const MAX_ICC_CHUNK: usize = 65_533 - 14;

/// `data` begins with a JPEG start-of-image marker and holds at least 4 bytes.
pub open spec fn is_jpeg_soi(data: Seq<u8>) -> bool {
    data.len() >= 4 && data[0] == 0xFF && data[1] == 0xD8
}

/// The identifier `JFIF\0` of a JFIF APP0 segment.
pub open spec fn jfif_identifier() -> Seq<u8> {
    seq![0x4Au8, 0x46, 0x49, 0x46, 0x00]
}

/// The identifier `ICC_PROFILE\0` of an ICC APP2 segment.
pub open spec fn icc_identifier() -> Seq<u8> {
    seq![0x49u8, 0x43, 0x43, 0x5F, 0x50, 0x52, 0x4F, 0x46, 0x49, 0x4C, 0x45, 0x00]
}

/// A complete JFIF APP0 segment starts at `pos`.
pub open spec fn jfif_app0_at(data: Seq<u8>, pos: int) -> bool {
    &&& 0 <= pos
    &&& pos + 18 <= data.len()
    &&& data[pos] == 0xFF
    &&& data[pos + 1] == 0xE0
    &&& be16_value(data, pos + 2) >= 16
    &&& pos + 4 + be16_value(data, pos + 2) - 2 <= data.len()
    &&& data.subrange(pos + 4, pos + 9) == jfif_identifier()
}

/// The 18-byte JFIF APP0 segment that declares `dpi` dots per inch on both axes.
pub open spec fn jfif_segment(dpi: u16) -> Seq<u8> {
    seq![0xFFu8, 0xE0, 0x00, 0x10] + jfif_identifier() + seq![0x01u8, 0x01, 0x01] + be16_bytes(dpi)
        + be16_bytes(dpi) + seq![0x00u8, 0x00]
}

/// What [`inject_dpi_into_jpeg`] returns.
pub open spec fn inject_dpi_spec(data: Seq<u8>, dpi: u16) -> Seq<u8> {
    if !is_jpeg_soi(data) {
        data
    } else if jfif_app0_at(data, 2) {
        data.update(13, 1u8).update(14, (dpi / 256) as u8).update(15, (dpi % 256) as u8).update(
            16,
            (dpi / 256) as u8,
        ).update(17, (dpi % 256) as u8)
    } else {
        data.subrange(0, 2) + jfif_segment(dpi) + data.subrange(2, data.len() as int)
    }
}

/// Position after the run of APP0/APP1 segments that starts at `pos`.
pub open spec fn insert_pos_from(data: Seq<u8>, pos: int) -> int
    decreases data.len() - pos,
{
    if 0 <= pos && pos + 4 <= data.len() && data[pos] == 0xFF && (data[pos + 1] == 0xE0
        || data[pos + 1] == 0xE1) {
        let len = be16_value(data, pos + 2);
        if len < 2 || pos + 2 + len > data.len() {
            pos
        } else {
            insert_pos_from(data, pos + 2 + len)
        }
    } else {
        pos
    }
}

/// The run of APP0/APP1 segments ends between its start and the end of the data.
pub proof fn lemma_insert_pos_bounds(data: Seq<u8>, pos: int)
    requires
        0 <= pos <= data.len(),
    ensures
        pos <= insert_pos_from(data, pos) <= data.len(),
    decreases data.len() - pos,
{
    if pos + 4 <= data.len() && data[pos] == 0xFF && (data[pos + 1] == 0xE0 || data[pos + 1]
        == 0xE1) {
        let len = be16_value(data, pos + 2);
        if len >= 2 && pos + 2 + len <= data.len() {
            lemma_insert_pos_bounds(data, pos + 2 + len);
        }
    }
}

/// Number of APP2 segments needed for an ICC profile of `len` bytes.
pub open spec fn icc_chunk_count(len: nat) -> nat {
    ((len + MAX_ICC_CHUNK - 1) / (MAX_ICC_CHUNK as int)) as nat
}

/// The `i`-th slice (from 0) of an ICC profile cut into APP2-sized chunks.
pub open spec fn icc_chunk(icc: Seq<u8>, i: int) -> Seq<u8> {
    let start = i * MAX_ICC_CHUNK;
    let end = if start + MAX_ICC_CHUNK <= icc.len() {
        start + MAX_ICC_CHUNK
    } else {
        icc.len() as int
    };
    icc.subrange(start, end)
}

/// The APP2 segment that carries `chunk` as part `seq_no` of `count`.
pub open spec fn icc_segment(chunk: Seq<u8>, seq_no: int, count: int) -> Seq<u8> {
    seq![0xFFu8, 0xE2] + be16_bytes((chunk.len() + 16) as u16) + icc_identifier() + seq![
        seq_no as u8,
        count as u8,
    ] + chunk
}

/// The first `n` APP2 segments of an ICC profile split into `count` parts.
pub open spec fn icc_segments(icc: Seq<u8>, count: int, n: int) -> Seq<u8>
    decreases n,
{
    if n <= 0 {
        seq![]
    } else {
        icc_segments(icc, count, n - 1) + icc_segment(icc_chunk(icc, n - 1), n, count)
    }
}

/// What [`inject_icc_into_jpeg`] returns.
pub open spec fn inject_icc_spec(data: Seq<u8>, icc: Option<Seq<u8>>) -> Seq<u8> {
    match icc {
        None => data,
        Some(icc) => {
            let count = icc_chunk_count(icc.len());
            if icc.len() == 0 || !is_jpeg_soi(data) || count > 255 {
                data
            } else {
                let at = insert_pos_from(data, 2);
                data.subrange(0, at) + icc_segments(icc, count as int, count as int)
                    + data.subrange(at, data.len() as int)
            }
        },
    }
}

/// Writes `dpi` into the JFIF header of a JPEG: an existing JFIF APP0 segment
/// right after the start-of-image marker gets its density fields rewritten,
/// otherwise a new JFIF segment is inserted there. Data that does not start
/// with a start-of-image marker is returned unchanged.
pub fn inject_dpi_into_jpeg(data: Vec<u8>, dpi: u16) -> (out: Vec<u8>)
    ensures
        out@ == inject_dpi_spec(data@, dpi),
{
    if data.len() < 4 || data[0] != 0xFF || data[1] != 0xD8 {
        return data;
    }
    let hi = (dpi / 256) as u8;
    let lo = (dpi % 256) as u8;
    if has_jfif_app0_at(&data, 2) {
        let mut data = data;
        data.set(13, 1);
        data.set(14, hi);
        data.set(15, lo);
        data.set(16, hi);
        data.set(17, lo);
        return data;
    }
    let mut segment: Vec<u8> = Vec::with_capacity(18);
    segment.push(0xFF);
    segment.push(0xE0);
    segment.push(0x00);
    segment.push(0x10);
    segment.push(0x4A);
    segment.push(0x46);
    segment.push(0x49);
    segment.push(0x46);
    segment.push(0x00);
    segment.push(0x01);
    segment.push(0x01);
    segment.push(0x01);
    segment.push(hi);
    segment.push(lo);
    segment.push(hi);
    segment.push(lo);
    segment.push(0x00);
    segment.push(0x00);
    assert(segment@ == jfif_segment(dpi));
    let mut out: Vec<u8> = Vec::new();
    extend_bytes(&mut out, slice_subrange(data.as_slice(), 0, 2));
    extend_bytes(&mut out, segment.as_slice());
    extend_bytes(&mut out, slice_subrange(data.as_slice(), 2, data.len()));
    out
}

/// Embeds an ICC profile into a JPEG as a series of `ICC_PROFILE` APP2
/// segments, inserted after the leading APP0/APP1 segments. The data is
/// returned unchanged when there is no profile, the profile is empty, the data
/// is not a JPEG, or the profile would need more than 255 segments.
pub fn inject_icc_into_jpeg(data: Vec<u8>, icc_profile: Option<&[u8]>) -> (out: Vec<u8>)
    ensures
        out@ == inject_icc_spec(
            data@,
            match icc_profile {
                Some(icc) => Some(icc@),
                None => None,
            },
        ),
{
    let icc = match icc_profile {
        Some(icc) => icc,
        None => return data,
    };
    if icc.len() == 0 || data.len() < 4 || data[0] != 0xFF || data[1] != 0xD8 {
        return data;
    }
    let chunk_count = icc.len() / MAX_ICC_CHUNK + if icc.len() % MAX_ICC_CHUNK == 0 {
        0
    } else {
        1
    };
    proof {
        lemma_chunk_count(icc@.len());
    }
    if chunk_count == 0 || chunk_count > 255 {
        return data;
    }
    let insert_at = metadata_insert_position(&data);
    let mut segments: Vec<u8> = Vec::new();
    let mut idx: usize = 0;
    while idx < chunk_count
        invariant
            idx <= chunk_count,
            chunk_count == icc_chunk_count(icc@.len()),
            1 <= chunk_count <= 255,
            (chunk_count - 1) * MAX_ICC_CHUNK < icc@.len() <= chunk_count * MAX_ICC_CHUNK,
            segments@ == icc_segments(icc@, chunk_count as int, idx as int),
        decreases chunk_count - idx,
    {
        proof {
            lemma_chunk_start(idx as int, chunk_count as int, icc@.len() as int);
        }
        let start = idx * MAX_ICC_CHUNK;
        let end = if icc.len() - start >= MAX_ICC_CHUNK {
            start + MAX_ICC_CHUNK
        } else {
            icc.len()
        };
        let chunk = slice_subrange(icc, start, end);
        assert(chunk@ == icc_chunk(icc@, idx as int));
        push_icc_segment(&mut segments, chunk, (idx + 1) as u8, chunk_count as u8);
        idx += 1;
    }
    let mut out: Vec<u8> = Vec::new();
    extend_bytes(&mut out, slice_subrange(data.as_slice(), 0, insert_at));
    extend_bytes(&mut out, segments.as_slice());
    extend_bytes(&mut out, slice_subrange(data.as_slice(), insert_at, data.len()));
    out
}

pub proof fn lemma_chunk_count(len: nat)
    ensures
        icc_chunk_count(len) == len / (MAX_ICC_CHUNK as nat) + if len % (MAX_ICC_CHUNK as nat) == 0 {
            0int
        } else {
            1int
        },
        len > 0 ==> icc_chunk_count(len) >= 1,
        len > 0 ==> (icc_chunk_count(len) - 1) * MAX_ICC_CHUNK < len,
        len <= icc_chunk_count(len) * MAX_ICC_CHUNK,
{
    let m = MAX_ICC_CHUNK as int;
    let q = len as int / m;
    let r = len as int % m;
    assert(len as int == q * m + r) by (nonlinear_arith)
        requires
            m > 0,
            q == len as int / m,
            r == len as int % m,
    ;
    assert(0 <= r < m);
    if r == 0 {
        assert((len + m - 1) / m == q) by (nonlinear_arith)
            requires
                len as int == q * m,
                m > 0,
        ;
    } else {
        assert((len + m - 1) / m == q + 1) by (nonlinear_arith)
            requires
                len as int == q * m + r,
                0 < r < m,
        ;
    }
    assert(q * m <= len) by (nonlinear_arith)
        requires
            len as int == q * m + r,
            r >= 0,
    ;
    assert((q + 1) * m == q * m + m) by (nonlinear_arith);
}

proof fn lemma_chunk_start(idx: int, count: int, len: int)
    requires
        0 <= idx < count,
        (count - 1) * MAX_ICC_CHUNK < len,
    ensures
        idx * MAX_ICC_CHUNK < len,
        0 <= idx * MAX_ICC_CHUNK,
{
    assert(idx * MAX_ICC_CHUNK <= (count - 1) * MAX_ICC_CHUNK) by (nonlinear_arith)
        requires
            idx <= count - 1,
    ;
    assert(0 <= idx * MAX_ICC_CHUNK) by (nonlinear_arith)
        requires
            idx >= 0,
    ;
}

/// Tells whether a complete JFIF APP0 segment starts at `pos`.
fn has_jfif_app0_at(data: &[u8], pos: usize) -> (r: bool)
    ensures
        r == jfif_app0_at(data@, pos as int),
{
    if data.len() < 18 || pos > data.len() - 18 || data[pos] != 0xFF || data[pos + 1] != 0xE0 {
        return false;
    }
    let len = read_be16(data, pos + 2);
    if len < 16 || len - 2 > data.len() - pos - 4 {
        return false;
    }
    assert(data@.subrange(pos + 4, pos + 9) =~= seq![
        data@[pos + 4],
        data@[pos + 5],
        data@[pos + 6],
        data@[pos + 7],
        data@[pos + 8],
    ]);
    data[pos + 4] == 0x4A && data[pos + 5] == 0x46 && data[pos + 6] == 0x49 && data[pos + 7] == 0x46
        && data[pos + 8] == 0x00
}

/// Position where metadata segments are inserted: after the APP0/APP1
/// segments that directly follow the start-of-image marker.
fn metadata_insert_position(data: &[u8]) -> (pos: usize)
    requires
        data@.len() >= 2,
    ensures
        pos == insert_pos_from(data@, 2),
        2 <= pos <= data@.len(),
{
    let mut pos: usize = 2;
    loop
        invariant
            2 <= pos <= data@.len(),
            insert_pos_from(data@, pos as int) == insert_pos_from(data@, 2),
        decreases data@.len() - pos,
    {
        if data.len() - pos < 4 || data[pos] != 0xFF {
            return pos;
        }
        let marker = data[pos + 1];
        if marker != 0xE0 && marker != 0xE1 {
            return pos;
        }
        let len = read_be16(data, pos + 2);
        if len < 2 || len > data.len() - pos - 2 {
            return pos;
        }
        pos += 2 + len;
    }
}

/// Appends one `ICC_PROFILE` APP2 segment carrying `chunk` as part `seq_no` of `count`.
fn push_icc_segment(segments: &mut Vec<u8>, chunk: &[u8], seq_no: u8, count: u8)
    requires
        chunk@.len() + 16 <= 65535,
    ensures
        final(segments)@ == old(segments)@ + icc_segment(chunk@, seq_no as int, count as int),
{
    let segment_len = (chunk.len() + 16) as u16;
    let mut header: Vec<u8> = Vec::new();
    header.push(0xFF);
    header.push(0xE2);
    header.push((segment_len / 256) as u8);
    header.push((segment_len % 256) as u8);
    header.push(0x49);
    header.push(0x43);
    header.push(0x43);
    header.push(0x5F);
    header.push(0x50);
    header.push(0x52);
    header.push(0x4F);
    header.push(0x46);
    header.push(0x49);
    header.push(0x4C);
    header.push(0x45);
    header.push(0x00);
    header.push(seq_no);
    header.push(count);
    assert(header@ =~= seq![0xFFu8, 0xE2] + be16_bytes(segment_len) + icc_identifier() + seq![
        seq_no,
        count,
    ]);
    extend_bytes(segments, header.as_slice());
    extend_bytes(segments, chunk);
    assert(segments@ =~= old(segments)@ + icc_segment(chunk@, seq_no as int, count as int));
}

/// After the density is written into a JPEG, the JPEG starts with a JFIF
/// APP0 segment whose density unit is "dots per inch" and whose horizontal and
/// vertical densities both read back as `dpi`.
pub proof fn law_dpi_reads_back(data: Seq<u8>, dpi: u16)
    requires
        is_jpeg_soi(data),
    ensures
        ({
            let out = inject_dpi_spec(data, dpi);
            &&& is_jpeg_soi(out)
            &&& jfif_app0_at(out, 2)
            &&& out[13] == 1
            &&& be16_value(out, 14) == dpi
            &&& be16_value(out, 16) == dpi
        }),
{
    let out = inject_dpi_spec(data, dpi);
    if jfif_app0_at(data, 2) {
        assert(out.subrange(6, 11) =~= data.subrange(6, 11));
    } else {
        assert(out.subrange(6, 11) =~= jfif_identifier());
    }
}

/// Writing a density twice is the same as writing only the second one.
pub proof fn law_dpi_last_write_wins(data: Seq<u8>, first: u16, second: u16)
    ensures
        inject_dpi_spec(inject_dpi_spec(data, first), second) == inject_dpi_spec(data, second),
{
    let once = inject_dpi_spec(data, first);
    if is_jpeg_soi(data) {
        law_dpi_reads_back(data, first);
        if jfif_app0_at(data, 2) {
            assert(inject_dpi_spec(once, second) =~= inject_dpi_spec(data, second));
        } else {
            assert(inject_dpi_spec(once, second) =~= inject_dpi_spec(data, second));
        }
    }
}

/// A JPEG is left as it is when no ICC profile, or an empty one, is given.
pub proof fn law_icc_absent_keeps_data(data: Seq<u8>)
    ensures
        inject_icc_spec(data, None) == data,
        inject_icc_spec(data, Some(Seq::<u8>::empty())) == data,
{
}

} // verus!
