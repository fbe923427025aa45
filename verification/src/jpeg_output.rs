use vstd::prelude::*;

use crate::bytes::{be16_bytes, be16_value};
use crate::dpi::{
    icc_chunk_count, icc_segments, inject_icc_spec, insert_pos_from, is_jpeg_soi, jfif_app0_at,
    jfif_identifier, MAX_ICC_CHUNK,
};
use crate::error::AppError;
use crate::imaging::image_dims;
use crate::metadata::{icc_walk, jpeg_icc_spec, law_icc_embed_then_extract, lemma_skip_fill_bounds, skip_fill};
use crate::text::push_str;

verus! {

/// The JFIF APP0 segment that the JPEG encoder writes: version 1.2, density
/// unit "dots per inch", `dpi` on both axes, no thumbnail.
pub open spec fn encoder_jfif_segment(dpi: u16) -> Seq<u8> {
    seq![0xFFu8, 0xE0, 0x00, 0x10] + jfif_identifier() + seq![0x01u8, 0x02, 0x01] + be16_bytes(dpi)
        + be16_bytes(dpi) + seq![0x00u8, 0x00]
}

/// The APP2 segments that carry an ICC profile: none for an empty profile,
/// else the profile cut into chunks of at most [`MAX_ICC_CHUNK`] bytes.
pub open spec fn encoder_icc_segments(icc: Seq<u8>) -> Seq<u8> {
    if icc.len() == 0 {
        seq![]
    } else {
        let n = icc_chunk_count(icc.len()) as int;
        icc_segments(icc, n, n)
    }
}

/// The bytes an encoded JPEG starts with: the start-of-image marker, the JFIF
/// header, then the ICC segments when a profile is given.
pub open spec fn encoded_head(dpi: u16, icc: Option<Seq<u8>>) -> Seq<u8> {
    seq![0xFFu8, 0xD8] + encoder_jfif_segment(dpi) + match icc {
        Some(p) => encoder_icc_segments(p),
        None => seq![],
    }
}

/// `t` starts with a run of well-formed frame, quantisation-table and
/// Huffman-table segments (markers SOF0, DQT, DHT) that ends at a
/// start-of-scan marker.
pub open spec fn frame_segments(t: Seq<u8>) -> bool
    decreases t.len(),
{
    if t.len() < 4 || t[0] != 0xFF {
        false
    } else if t[1] == 0xDA {
        true
    } else if !(t[1] == 0xC0 || t[1] == 0xDB || t[1] == 0xC4) {
        false
    } else {
        let len = be16_value(t, 2);
        if len < 2 || 2 + len > t.len() {
            false
        } else {
            frame_segments(t.subrange(2 + len, t.len() as int))
        }
    }
}

/// The profile, if any, fits in the 255 APP2 segments a JPEG can number.
pub open spec fn icc_fits(icc: Option<Seq<u8>>) -> bool {
    match icc {
        Some(p) => p.len() <= MAX_ICC_CHUNK * 255,
        None => true,
    }
}

/// An image of these dimensions, with this profile, can be encoded as a
/// JPEG: both sides between 1 and 65535 pixels and the profile fits.
pub open spec fn jpeg_encodable(dims: (u32, u32), icc: Option<Seq<u8>>) -> bool {
    &&& 1 <= dims.0 <= 65535
    &&& 1 <= dims.1 <= 65535
    &&& icc_fits(icc)
}

/// `b` is a baseline JPEG as the encoder lays it out: [`encoded_head`], then
/// the frame and table segments up to the scan, and the end-of-image marker
/// last.
pub open spec fn is_encoded_jpeg(b: Seq<u8>, dpi: u16, icc: Option<Seq<u8>>) -> bool {
    let head = encoded_head(dpi, icc);
    &&& icc_fits(icc)
    &&& head.len() + 2 <= b.len()
    &&& b.subrange(0, head.len() as int) == head
    &&& frame_segments(b.subrange(head.len() as int, b.len() as int))
    &&& b[b.len() - 2] == 0xFF
    &&& b[b.len() - 1] == 0xD9
}

/// The bytes of an optional profile.
pub open spec fn icc_view(icc: Option<&[u8]>) -> Option<Seq<u8>> {
    match icc {
        Some(p) => Some(p@),
        None => None,
    }
}

/// Encodes an image as a JPEG with `image::codecs::jpeg::JpegEncoder`
/// (`new_with_quality`, `set_pixel_density(PixelDensity::dpi(..))`,
/// `ImageEncoder::set_icc_profile`, `encode_image`) into a `Vec`. Claimed, as
/// the encoder's source shows: `set_icc_profile` always succeeds;
/// `encode_image` fails exactly when a side is 0 or above 65535 or the
/// profile needs more than 255 APP2 segments; otherwise the output is SOI,
/// the JFIF header, the ICC segments, the SOF0/DQT/DHT/SOS segments, the scan
/// and EOI. The compressed scan data is not stated.
#[verifier::external_body]
fn jpeg_with_icc(img: &image::DynamicImage, quality: u8, dpi: u16, icc: &[u8]) -> (r: Result<Vec<u8>, Result<String, image::ImageError>>)
    ensures
        (r is Ok) == jpeg_encodable(image_dims(*img), Some(icc@)),
        r matches Ok(b) ==> is_encoded_jpeg(b@, dpi, Some(icc@)),
        r matches Err(x) ==> x is Err,
{
    let mut jpeg = Vec::new();
    {
        let mut encoder = image::codecs::jpeg::JpegEncoder::new_with_quality(&mut jpeg, quality);
        encoder.set_pixel_density(image::codecs::jpeg::PixelDensity::dpi(dpi));
        image::ImageEncoder::set_icc_profile(&mut encoder, icc.to_vec()).map_err(|e| Ok(e.to_string()))?;
        encoder.encode_image(img).map_err(Err)?;
    }
    Ok(jpeg)
}

/// Encodes an image as a JPEG with `image::codecs::jpeg::JpegEncoder`
/// (`new_with_quality`, `set_pixel_density(PixelDensity::dpi(..))`,
/// `encode_image`) into a `Vec`, without an ICC profile. Claimed, as the
/// encoder's source shows: it fails exactly when a side is 0 or above 65535;
/// otherwise the output is SOI, the JFIF header, the SOF0/DQT/DHT/SOS
/// segments, the scan and EOI. The compressed scan data is not stated.
#[verifier::external_body]
fn jpeg_without_icc(img: &image::DynamicImage, quality: u8, dpi: u16) -> (r: Result<Vec<u8>, image::ImageError>)
    ensures
        (r is Ok) == jpeg_encodable(image_dims(*img), None),
        r matches Ok(b) ==> is_encoded_jpeg(b@, dpi, None),
{
    let mut jpeg = Vec::new();
    {
        let mut encoder = image::codecs::jpeg::JpegEncoder::new_with_quality(&mut jpeg, quality);
        encoder.set_pixel_density(image::codecs::jpeg::PixelDensity::dpi(dpi));
        encoder.encode_image(img)?;
    }
    Ok(jpeg)
}

/// Encodes the output image as a JPEG of the given quality and density,
/// embedding the ICC profile when there is one. It succeeds exactly when the
/// image and profile can be encoded; the result is laid out as
/// [`is_encoded_jpeg`] states. A failure is the encoder's error.
pub fn encode_jpeg(img: &image::DynamicImage, quality: u8, dpi: u16, icc: Option<&[u8]>) -> (r: Result<Vec<u8>, AppError>)
    ensures
        (r is Ok) == jpeg_encodable(image_dims(*img), icc_view(icc)),
        r matches Ok(b) ==> is_encoded_jpeg(b@, dpi, icc_view(icc)),
        r matches Err(e) ==> e is Image,
{
    match icc {
        Some(profile) => match jpeg_with_icc(img, quality, dpi, profile) {
            Ok(bytes) => Ok(bytes),
            Err(Ok(detail)) => {
                let mut m = String::from_str("write ICC profile failed: ");
                push_str(&mut m, detail.as_str());
                Err(AppError::Processing(m))
            },
            Err(Err(e)) => Err(AppError::Image(e)),
        },
        None => match jpeg_without_icc(img, quality, dpi) {
            Ok(bytes) => Ok(bytes),
            Err(e) => Err(AppError::Image(e)),
        },
    }
}

/// The ICC walk finds nothing in a run of frame and table segments that ends
/// at the scan.
proof fn lemma_frame_walk(x: Seq<u8>, p: int, t: Seq<u8>)
    requires
        0 <= p <= x.len(),
        x.subrange(p, x.len() as int) == t,
        frame_segments(t),
    ensures
        icc_walk(x, p) == Seq::<(u8, u8, Seq<u8>)>::empty(),
    decreases t.len(),
{
    assert(x[p] == t[0] && x[p + 1] == t[1] && x[p + 2] == t[2] && x[p + 3] == t[3]);
    assert(skip_fill(x, p + 1) == p + 1);
    assert(skip_fill(x, p) == p + 1);
    lemma_skip_fill_bounds(x, p);
    if t[1] != 0xDA {
        let len = be16_value(t, 2);
        assert(be16_value(x, p + 2) == len);
        let t2 = t.subrange(2 + len, t.len() as int);
        assert(x.subrange(p + 2 + len, x.len() as int) =~= t2);
        lemma_frame_walk(x, p + 2 + len, t2);
    }
}

/// The JFIF header of an encoded JPEG is skipped by the ICC walk.
proof fn lemma_walk_past_jfif(x: Seq<u8>, dpi: u16)
    requires
        x.len() >= 24,
        x.subrange(0, 20) == seq![0xFFu8, 0xD8] + encoder_jfif_segment(dpi),
    ensures
        icc_walk(x, 2) == icc_walk(x, 20),
{
    let h = seq![0xFFu8, 0xD8] + encoder_jfif_segment(dpi);
    assert(h[2] == 0xFF && h[3] == 0xE0 && h[4] == 0 && h[5] == 0x10);
    assert forall|k: int| 0 <= k < 20 implies x[k] == h[k] by {
        assert(x.subrange(0, 20)[k] == x[k]);
    }
    assert(x[2] == 0xFF && x[3] == 0xE0 && x[4] == 0 && x[5] == 0x10);
    assert(skip_fill(x, 3) == 3);
    assert(skip_fill(x, 2) == 3);
    lemma_skip_fill_bounds(x, 2);
    assert(be16_value(x, 4) == 16);
}

/// An encoded JPEG declares `dpi` dots per inch in the JFIF header right after
/// its start-of-image marker, and carries exactly the given ICC profile:
/// extracting it gives the profile back, and nothing when no profile or an
/// empty one was given.
pub proof fn law_encoded_jpeg_reads_back(b: Seq<u8>, dpi: u16, icc: Option<Seq<u8>>)
    requires
        is_encoded_jpeg(b, dpi, icc),
    ensures
        is_jpeg_soi(b),
        jfif_app0_at(b, 2),
        b[13] == 1,
        be16_value(b, 14) == dpi,
        be16_value(b, 16) == dpi,
        jpeg_icc_spec(b) == match icc {
            Some(p) => if p.len() > 0 {
                Some(p)
            } else {
                None
            },
            None => None,
        },
{
    let head = encoded_head(dpi, icc);
    let segs = match icc {
        Some(p) => encoder_icc_segments(p),
        None => seq![],
    };
    let jfif = seq![0xFFu8, 0xD8] + encoder_jfif_segment(dpi);
    assert(jfif.len() == 20);
    assert(head =~= jfif + segs);
    let t = b.subrange(head.len() as int, b.len() as int);
    assert(b.subrange(0, 20) =~= jfif) by {
        assert(b.subrange(0, 20) =~= b.subrange(0, head.len() as int).subrange(0, 20));
        assert(head.subrange(0, 20) =~= jfif);
    }
    assert forall|k: int| 0 <= k < 20 implies b[k] == jfif[k] by {
        assert(b.subrange(0, 20)[k] == b[k]);
    }
    assert(b.subrange(6, 11) =~= jfif_identifier());
    assert(t.len() >= 4) by {
        reveal_with_fuel(frame_segments, 1);
    }
    lemma_walk_past_jfif(b, dpi);
    let none_given = match icc {
        Some(p) => p.len() == 0,
        None => true,
    };
    if none_given {
        assert(segs.len() == 0);
        lemma_frame_walk(b, 20, t);
    } else {
        let p = icc->0;
        let n = icc_chunk_count(p.len());
        crate::dpi::lemma_chunk_count(p.len());
        assert(n <= 255) by (nonlinear_arith)
            requires
                (n - 1) * MAX_ICC_CHUNK < p.len(),
                p.len() <= MAX_ICC_CHUNK * 255,
                MAX_ICC_CHUNK > 0,
        ;
        let data = jfif + t;
        assert(data.subrange(20, data.len() as int) =~= t);
        assert(data.subrange(0, 20) =~= jfif);
        assert forall|k: int| 0 <= k < 20 implies data[k] == jfif[k] by {}
        lemma_walk_past_jfif(data, dpi);
        lemma_frame_walk(data, 20, t);
        assert(data[20] == 0xFF && data[21] == t[1]);
        assert(insert_pos_from(data, 20) == 20);
        assert(be16_value(data, 4) == 16);
        assert(insert_pos_from(data, 2) == 20);
        assert(b =~= data.subrange(0, 20) + segs + data.subrange(20, data.len() as int)) by {
            assert(b.subrange(0, head.len() as int) == head);
            assert forall|k: int| 0 <= k < b.len() implies b[k] == (jfif + segs + t)[k] by {
                if k < head.len() {
                    assert(b.subrange(0, head.len() as int)[k] == b[k]);
                } else {
                    assert(t[k - head.len()] == b[k]);
                }
            }
            assert(b =~= jfif + segs + t);
        }
        assert(inject_icc_spec(data, Some(p)) == b);
        law_icc_embed_then_extract(data, p);
    }
}

} // verus!
