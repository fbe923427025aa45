use vstd::prelude::*;

use crate::error::AppError;
use crate::text::{
    concat2, ascii_lower_equals, ascii_lower_seq, decimal_digits, digit_char, push_char, push_decimal, push_str,
};

verus! {

/// Largest RGBA working buffer that decoding may allocate: 2 GiB.
pub const DECODE_MAX_ALLOC_BYTES: u64 = 2 * 1024 * 1024 * 1024;

/// Bytes of one RGBA pixel.
pub const RGBA_BYTES_PER_PIXEL: u64 = 4;

/// `bytes` expressed in GiB, in hundredths, rounded to the nearest with ties
/// to even.
pub open spec fn gib_hundredths(bytes: int) -> int {
    let unit = 1073741824int;
    let q = (bytes * 100) / unit;
    let r = (bytes * 100) % unit;
    if 2 * r > unit || (2 * r == unit && q % 2 == 1) {
        q + 1
    } else {
        q
    }
}

/// A number of hundredths written with two decimals, such as `2.13`.
pub open spec fn two_decimals(hundredths: int) -> Seq<char> {
    decimal_digits((hundredths / 100) as nat) + seq!['.', digit_char((hundredths % 100) / 10),
        digit_char(hundredths % 10)]
}

/// The message for an RGBA buffer above the safety limit.
pub open spec fn rgba_limit_message(label: Seq<char>, bytes: int) -> Seq<char> {
    label + " requires "@ + two_decimals(gib_hundredths(bytes))
        + "GB RGBA memory, above the 2.00GB safety limit"@
}

/// Appends `hundredths / 100` with two decimals.
pub(crate) fn push_two_decimals(s: &mut String, hundredths: u64)
    ensures
        final(s)@ == old(s)@ + two_decimals(hundredths as int),
{
    push_decimal(s, hundredths / 100);
    push_char(s, '.');
    let tens = ((hundredths % 100) / 10) as u8;
    let ones = (hundredths % 10) as u8;
    push_char(s, (48 + tens) as char);
    push_char(s, (48 + ones) as char);
    assert(final(s)@ =~= old(s)@ + two_decimals(hundredths as int));
}

/// Rejects an 8-bit RGBA image of `width` x `height` whose pixel buffer would
/// exceed 2 GiB.
pub fn ensure_rgba_allocation_safe(width: u32, height: u32, label: &str) -> (r: Result<(), AppError>)
    ensures
        width * height * 4 <= DECODE_MAX_ALLOC_BYTES ==> r is Ok,
        width * height * 4 > DECODE_MAX_ALLOC_BYTES ==> (r matches Err(AppError::Processing(msg))
            && msg@ == rgba_limit_message(label@, width * height * 4)),
{
    proof {
        assert(width as u128 * height as u128 <= 4294967295u128 * 4294967295u128) by (nonlinear_arith)
            requires
                width <= 4294967295u128,
                height <= 4294967295u128,
        ;
    }
    let bytes = width as u128 * height as u128 * RGBA_BYTES_PER_PIXEL as u128;
    if bytes > DECODE_MAX_ALLOC_BYTES as u128 {
        let unit: u128 = 1073741824;
        let q = (bytes * 100) / unit;
        let rem = (bytes * 100) % unit;
        let h = if 2 * rem > unit || (2 * rem == unit && q % 2 == 1) {
            q + 1
        } else {
            q
        };
        let mut msg = String::from_str(label);
        push_str(&mut msg, " requires ");
        push_two_decimals(&mut msg, h as u64);
        push_str(&mut msg, "GB RGBA memory, above the 2.00GB safety limit");
        return Err(AppError::Processing(msg));
    }
    Ok(())
}

/// The extension names a JPEG file (`jpg` or `jpeg`, in any ASCII case).
pub fn is_jpeg_extension(extension: &str) -> (r: bool)
    ensures
        r == (ascii_lower_seq(extension@) == "jpg"@ || ascii_lower_seq(extension@) == "jpeg"@),
{
    let chars = str_chars(extension);
    ascii_lower_equals(chars.as_slice(), "jpg") || ascii_lower_equals(chars.as_slice(), "jpeg")
}

/// The extension names a HEIF file (`heic` or `heif`, in any ASCII case).
pub fn is_heif_extension(extension: &str) -> (r: bool)
    ensures
        r == (ascii_lower_seq(extension@) == "heic"@ || ascii_lower_seq(extension@) == "heif"@),
{
    let chars = str_chars(extension);
    ascii_lower_equals(chars.as_slice(), "heic") || ascii_lower_equals(chars.as_slice(), "heif")
}

/// The characters of a string.
pub fn str_chars(s: &str) -> (r: Vec<char>)
    ensures
        r@ == s@,
{
    let n = s.unicode_len();
    let mut r: Vec<char> = Vec::new();
    let mut i: usize = 0;
    while i < n
        invariant
            n == s@.len(),
            i <= n,
            r@ == s@.subrange(0, i as int),
        decreases n - i,
    {
        r.push(s.get_char(i));
        i += 1;
        assert(r@ =~= s@.subrange(0, i as int));
    }
    assert(s@.subrange(0, n as int) =~= s@);
    r
}

/// Little-endian bytes of a sequence of 16-bit samples.
pub open spec fn le_bytes_of(samples: Seq<u16>) -> Seq<u8> {
    Seq::new(samples.len() * 2, |i: int| if i % 2 == 0 {
        (samples[i / 2] % 256) as u8
    } else {
        (samples[i / 2] / 256) as u8
    })
}

/// Packs 16-bit RGB samples as little-endian bytes (R lo, R hi, G lo, ...).
pub fn rgb16_samples_to_le_bytes(samples: &[u16]) -> (out: Vec<u8>)
    ensures
        out@ == le_bytes_of(samples@),
{
    let mut out: Vec<u8> = Vec::new();
    let mut i: usize = 0;
    while i < samples.len()
        invariant
            i <= samples@.len(),
            out@ == le_bytes_of(samples@.subrange(0, i as int)),
        decreases samples@.len() - i,
    {
        let v = samples[i];
        out.push((v % 256) as u8);
        out.push((v / 256) as u8);
        i += 1;
        assert(out@ =~= le_bytes_of(samples@.subrange(0, i as int)));
    }
    assert(samples@.subrange(0, samples@.len() as int) =~= samples@);
    out
}

/// The R, G and B samples of 16-bit RGBA pixels (alpha dropped).
pub open spec fn rgb_of_rgba(samples: Seq<u16>) -> Seq<u16> {
    Seq::new((samples.len() / 4) * 3, |i: int| samples[(i / 3) * 4 + i % 3])
}

/// Packs the colour samples of 16-bit RGBA pixels as little-endian RGB bytes.
pub fn rgba16_samples_to_rgb_le_bytes(samples: &[u16]) -> (out: Vec<u8>)
    ensures
        out@ == le_bytes_of(rgb_of_rgba(samples@)),
{
    let pixels = samples.len() / 4;
    let mut rgb: Vec<u16> = Vec::new();
    let mut p: usize = 0;
    while p < pixels
        invariant
            pixels == samples@.len() / 4,
            p <= pixels,
            rgb@ == rgb_of_rgba(samples@.subrange(0, (p * 4) as int)),
        decreases pixels - p,
    {
        let ghost before = rgb@;
        proof {
            assert(p * 4 + 3 < samples.len()) by (nonlinear_arith)
                requires
                    p < pixels,
                    pixels == samples.len() / 4,
            ;
        }
        rgb.push(samples[p * 4]);
        rgb.push(samples[p * 4 + 1]);
        rgb.push(samples[p * 4 + 2]);
        p += 1;
        assert(rgb@ =~= rgb_of_rgba(samples@.subrange(0, (p * 4) as int)));
    }
    assert(rgb@ =~= rgb_of_rgba(samples@));
    rgb16_samples_to_le_bytes(rgb.as_slice())
}

/// RGBA bytes of the whole RGB pixels of `raw`, alpha 255.
pub open spec fn rgba_of_full_pixels(raw: Seq<u8>, pixels: int) -> Seq<u8> {
    Seq::new(
        (pixels * 4) as nat,
        |i: int|
            if i % 4 == 3 {
                255u8
            } else {
                raw[(i / 4) * 3 + i % 4]
            },
    )
}

/// RGBA bytes from packed RGB bytes: every group of three bytes is followed by
/// an alpha of 255, a trailing group of one or two bytes too.
pub open spec fn rgba_of_rgb(raw: Seq<u8>) -> Seq<u8> {
    let full = raw.len() / 3;
    rgba_of_full_pixels(raw, full as int) + if raw.len() % 3 == 0 {
        Seq::<u8>::empty()
    } else {
        raw.subrange((full * 3) as int, raw.len() as int).push(255u8)
    }
}

/// Converts packed 8-bit RGB bytes to RGBA bytes with alpha 255.
pub fn rgb8_to_rgba8(raw: &[u8]) -> (out: Vec<u8>)
    ensures
        out@ == rgba_of_rgb(raw@),
{
    let full = raw.len() / 3;
    let mut out: Vec<u8> = Vec::new();
    let mut p: usize = 0;
    while p < full
        invariant
            full == raw@.len() / 3,
            p <= full,
            out@ == rgba_of_full_pixels(raw@, p as int),
        decreases full - p,
    {
        proof {
            assert(p * 3 + 2 < raw.len()) by (nonlinear_arith)
                requires
                    p < full,
                    full == raw.len() / 3,
            ;
        }
        out.push(raw[p * 3]);
        out.push(raw[p * 3 + 1]);
        out.push(raw[p * 3 + 2]);
        out.push(255);
        p += 1;
        assert(out@ =~= rgba_of_full_pixels(raw@, p as int));
    }
    if raw.len() % 3 != 0 {
        let ghost before = out@;
        let mut j = full * 3;
        while j < raw.len()
            invariant
                full == raw@.len() / 3,
                full * 3 <= j <= raw@.len(),
                out@ == before + raw@.subrange(full * 3, j as int),
            decreases raw@.len() - j,
        {
            out.push(raw[j]);
            j += 1;
            assert(out@ =~= before + raw@.subrange(full * 3, j as int));
        }
        out.push(255);
        assert(out@ =~= rgba_of_rgb(raw@));
    } else {
        assert(out@ =~= rgba_of_rgb(raw@));
    }
    out
}

/// Largest HEIC file that is decoded: 256 MiB.
pub const HEIC_DECODE_MAX_FILE_BYTES: u64 = 256 * 1024 * 1024;

/// `bytes` expressed in MiB, in tenths, rounded to the nearest with ties to
/// even.
pub open spec fn mib_tenths(bytes: int) -> int {
    let unit = 1048576int;
    let q = (bytes * 10) / unit;
    let r = (bytes * 10) % unit;
    if 2 * r > unit || (2 * r == unit && q % 2 == 1) {
        q + 1
    } else {
        q
    }
}

/// A number of tenths written with one decimal, such as `300.5`.
pub open spec fn one_decimal(tenths: int) -> Seq<char> {
    decimal_digits((tenths / 10) as nat) + seq!['.', digit_char(tenths % 10)]
}

/// The message for a HEIC file above the size limit.
pub open spec fn heic_size_message(path_display: Seq<char>, bytes: int) -> Seq<char> {
    "HEIC file "@ + path_display + " is "@ + one_decimal(mib_tenths(bytes))
        + "MB, above the 256.0MB safety limit"@
}

/// Rejects a HEIC file larger than 256 MiB.
pub fn check_heic_file_size(len: u64, path_display: &str) -> (r: Result<(), AppError>)
    ensures
        len <= HEIC_DECODE_MAX_FILE_BYTES ==> r is Ok,
        len > HEIC_DECODE_MAX_FILE_BYTES ==> (r matches Err(AppError::Processing(msg)) && msg@
            == heic_size_message(path_display@, len as int)),
{
    if len <= HEIC_DECODE_MAX_FILE_BYTES {
        return Ok(());
    }
    let unit: u128 = 1048576;
    let scaled = len as u128 * 10;
    let q = scaled / unit;
    let rem = scaled % unit;
    let t = if 2 * rem > unit || (2 * rem == unit && q % 2 == 1) {
        q + 1
    } else {
        q
    };
    let mut msg = String::from_str("HEIC file ");
    push_str(&mut msg, path_display);
    push_str(&mut msg, " is ");
    push_decimal(&mut msg, (t / 10) as u64);
    push_char(&mut msg, '.');
    push_char(&mut msg, (48 + (t % 10) as u8) as char);
    push_str(&mut msg, "MB, above the 256.0MB safety limit");
    assert(msg@ =~= heic_size_message(path_display@, len as int));
    Err(AppError::Processing(msg))
}

/// The message for a decode that ran out of its memory budget.
pub open spec fn decode_memory_message(path_display: Seq<char>) -> Seq<char> {
    "image decode memory exceeds the safety limit (about 2GB): "@ + path_display
        + ". Reduce tile/final size or image count."@
}

/// Tells whether a decode error is `ImageError::Limits` of kind
/// `LimitErrorKind::InsufficientMemory`. Nothing is claimed beyond what the
/// two variants tell apart.
#[verifier::external_body]
fn is_insufficient_memory(err: &image::ImageError) -> bool {
    match err {
        image::ImageError::Limits(limit) => matches!(limit.kind(), image::error::LimitErrorKind::InsufficientMemory),
        _ => false,
    }
}

/// The error reported for a failed decode: an actionable message when the
/// decoder ran out of its memory budget, else the decoder's own error.
pub fn decode_error_for(path_display: &str, err: image::ImageError, out_of_memory: bool) -> (e: AppError)
    ensures
        out_of_memory ==> (e matches AppError::Processing(m) && m@ == decode_memory_message(path_display@)),
        !out_of_memory ==> e == AppError::Image(err),
{
    if out_of_memory {
        let mut msg = String::from_str("image decode memory exceeds the safety limit (about 2GB): ");
        push_str(&mut msg, path_display);
        push_str(&mut msg, ". Reduce tile/final size or image count.");
        AppError::Processing(msg)
    } else {
        AppError::Image(err)
    }
}

/// Maps a decode error of the image at `path_display`: the memory message for
/// an exhausted memory budget, else the decoder's error unchanged.
pub fn map_decode_error(path_display: &str, err: image::ImageError) -> (e: AppError)
    ensures
        (e matches AppError::Processing(m) && m@ == decode_memory_message(path_display@)) || e
            == AppError::Image(err),
{
    let oom = is_insufficient_memory(&err);
    decode_error_for(path_display, err, oom)
}

/// The warnings for a JPEG decoded without EXIF orientation or ICC profile.
pub fn jpeg_load_warnings(has_orientation: bool, has_icc: bool) -> (w: Vec<String>)
    ensures
        w@.map_values(|s: String| s@) == (if has_orientation {
            seq![]
        } else {
            seq!["no EXIF orientation in JPEG; auto-rotate disabled"@]
        }) + (if has_icc {
            seq![]
        } else {
            seq!["no ICC profile in JPEG; processing as sRGB"@]
        }),
{
    let mut w: Vec<String> = Vec::new();
    if !has_orientation {
        w.push(String::from_str("no EXIF orientation in JPEG; auto-rotate disabled"));
    }
    if !has_icc {
        w.push(String::from_str("no ICC profile in JPEG; processing as sRGB"));
    }
    proof {
        let expected = (if has_orientation {
            seq![]
        } else {
            seq!["no EXIF orientation in JPEG; auto-rotate disabled"@]
        }) + (if has_icc {
            seq![]
        } else {
            seq!["no ICC profile in JPEG; processing as sRGB"@]
        });
        assert(w@.map_values(|s: String| s@) =~= expected);
    }
    w
}

/// The warnings for a decoded HEIC file named `file_name`: for an HDR source
/// the tone-mapping note and, when computed, the gain map note; then a
/// missing EXIF orientation; then, for an HDR source, a missing ICC profile.
pub open spec fn heic_warnings_spec(
    file_name: Seq<char>,
    bit_depth: nat,
    is_hdr: bool,
    gain_map_computed: bool,
    has_orientation: bool,
    has_icc: bool,
) -> Seq<Seq<char>> {
    let hdr = if is_hdr {
        seq![file_name + ": "@ + decimal_digits(bit_depth) + "-bit HDR HEIC tone-mapped to 8-bit SDR via Reinhard"@]
            + if gain_map_computed {
            seq![file_name + ": Ultra HDR gain map computed (ready for HDR output)"@]
        } else {
            seq![]
        }
    } else {
        seq![]
    };
    let orient = if has_orientation {
        seq![]
    } else {
        seq![file_name + ": no EXIF orientation found"@]
    };
    let icc = if !has_icc && is_hdr {
        seq![file_name + ": no ICC profile in HEIC; processing as sRGB"@]
    } else {
        seq![]
    };
    hdr + orient + icc
}

/// Builds the warnings of a decoded HEIC file.
pub fn heic_load_warnings(
    file_name: &str,
    bit_depth: u32,
    is_hdr: bool,
    gain_map_computed: bool,
    has_orientation: bool,
    has_icc: bool,
) -> (w: Vec<String>)
    ensures
        w@.map_values(|s: String| s@) == heic_warnings_spec(
            file_name@,
            bit_depth as nat,
            is_hdr,
            gain_map_computed,
            has_orientation,
            has_icc,
        ),
{
    let mut w: Vec<String> = Vec::new();
    let ghost mut expected: Seq<Seq<char>> = seq![];
    if is_hdr {
        let mut m = String::from_str(file_name);
        push_str(&mut m, ": ");
        push_decimal(&mut m, bit_depth as u64);
        push_str(&mut m, "-bit HDR HEIC tone-mapped to 8-bit SDR via Reinhard");
        proof {
            expected = expected.push(m@);
        }
        w.push(m);
        if gain_map_computed {
            let m2 = concat2(file_name, ": Ultra HDR gain map computed (ready for HDR output)");
            proof {
                expected = expected.push(m2@);
            }
            w.push(m2);
        }
    }
    if !has_orientation {
        let m = concat2(file_name, ": no EXIF orientation found");
        proof {
            expected = expected.push(m@);
        }
        w.push(m);
    }
    if !has_icc && is_hdr {
        let m = concat2(file_name, ": no ICC profile in HEIC; processing as sRGB");
        proof {
            expected = expected.push(m@);
        }
        w.push(m);
    }
    proof {
        assert(w@.map_values(|s: String| s@) =~= expected);
        assert(expected =~= heic_warnings_spec(
            file_name@,
            bit_depth as nat,
            is_hdr,
            gain_map_computed,
            has_orientation,
            has_icc,
        ));
    }
    w
}

} // verus!
