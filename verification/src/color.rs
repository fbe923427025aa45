use vstd::prelude::*;

use crate::config::{RenderingIntent, TargetProfileMode};
use crate::error::AppError;
use crate::image_proc::{transformed, transformed_dims};
use crate::imaging::{image_dims, rgba_size_fits};
use crate::metadata::{apply_orientation, orientation_transform};
use crate::text::{concat2, push_str};

verus! {

/// The colour profile that output images are converted to.
#[derive(Debug, Clone)]
pub struct TargetColorProfile {
    pub enabled: bool,
    pub icc: Option<Vec<u8>>,
    pub is_srgb: bool,
}

/// What lcms2 makes of an ICC profile: `None` when `Profile::new_icc` cannot
/// parse it, else whether its colour space is RGB.
pub uninterp spec fn icc_rgb_check(icc: Seq<u8>) -> Option<bool>;

/// The 8-bit RGBA image that an lcms2 `Transform::<u8, u8>` (both formats
/// `PixelFormat::RGBA_8`) from `input_icc` to `target_icc`, perceptual or
/// relative colorimetric, makes of `img` converted by `DynamicImage::to_rgba8`.
pub uninterp spec fn lcms_converted(img: image::DynamicImage, input_icc: Seq<u8>, target_icc: Seq<u8>, perceptual: bool) -> image::DynamicImage;

/// At which step an lcms2 conversion of 8-bit RGBA pixels from `input_icc` to
/// `target_icc` fails: 0 parsing the input profile, 1 parsing the target
/// profile, 2 creating the transform; `None` when it does not fail.
pub uninterp spec fn lcms_transform_failure(input_icc: Seq<u8>, target_icc: Seq<u8>, perceptual: bool) -> Option<u8>;

/// Creates lcms2's built-in sRGB profile (`Profile::new_srgb`) and serialises
/// it with `Profile::icc`, the error as its `Display` text. Claimed: bytes it
/// gives are an RGB profile that lcms2 parses back (`icc_rgb_check` is
/// `Some(true)`). The bytes themselves are not stated: lcms2 stamps the
/// profile header with the creation time.
#[verifier::external_body]
fn srgb_icc_bytes() -> (r: Result<Vec<u8>, String>)
    ensures
        r matches Ok(b) ==> icc_rgb_check(b@) == Some(true),
{
    lcms2::Profile::new_srgb().icc().map_err(|e| e.to_string())
}

/// Parses an ICC profile with `lcms2::Profile::new_icc` and tells whether
/// `Profile::color_space` is `ColorSpaceSignature::RgbData`; the parse error
/// as its `Display` text. Claimed: the outcome is `icc_rgb_check(icc)`.
#[verifier::external_body]
fn check_rgb_profile(icc: &[u8]) -> (r: Result<bool, String>)
    ensures
        (r is Ok) == (icc_rgb_check(icc@) is Some),
        r matches Ok(b) ==> icc_rgb_check(icc@) == Some(b),
{
    match lcms2::Profile::new_icc(icc) {
        Ok(profile) => Ok(profile.color_space() == lcms2::ColorSpaceSignature::RgbData),
        Err(e) => Err(e.to_string()),
    }
}

/// Converts an image to 8-bit RGBA and transforms its pixels in place with an
/// lcms2 `Transform::<u8, u8>` from `input_icc` to `target_icc` (both
/// `PixelFormat::RGBA_8`, perceptual or relative colorimetric intent). On
/// failure it gives the failing step and lcms2's error text. Claimed: the
/// step is `lcms_transform_failure(..)`, and a converted image is
/// `lcms_converted(..)` and keeps its dimensions.
#[verifier::external_body]
fn lcms_convert_rgba8(img: image::DynamicImage, input_icc: &[u8], target_icc: &[u8], perceptual: bool) -> (r: Result<
    image::DynamicImage,
    (u8, String),
>)
    requires
        rgba_size_fits(image_dims(img).0 as int, image_dims(img).1 as int),
    ensures
        (r is Ok) == (lcms_transform_failure(input_icc@, target_icc@, perceptual) is None),
        r matches Err((step, _)) ==> lcms_transform_failure(input_icc@, target_icc@, perceptual) == Some(step),
        r matches Ok(out) ==> out == lcms_converted(img, input_icc@, target_icc@, perceptual),
        r matches Ok(out) ==> image_dims(out) == image_dims(img),
{
    let input = lcms2::Profile::new_icc(input_icc).map_err(|e| (0u8, e.to_string()))?;
    let target = lcms2::Profile::new_icc(target_icc).map_err(|e| (1u8, e.to_string()))?;
    let intent = if perceptual { lcms2::Intent::Perceptual } else { lcms2::Intent::RelativeColorimetric };
    let rgba8 = lcms2::PixelFormat::RGBA_8;
    let transform = lcms2::Transform::<u8, u8>::new(&input, rgba8, &target, rgba8, intent)
        .map_err(|e| (2u8, e.to_string()))?;
    let mut rgba = img.to_rgba8();
    transform.transform_in_place(rgba.as_mut());
    Ok(image::DynamicImage::ImageRgba8(rgba))
}

/// `m` is `prefix` followed by some detail text.
pub open spec fn message_with_detail(m: Seq<char>, prefix: Seq<char>) -> bool {
    m.len() >= prefix.len() && m.take(prefix.len() as int) == prefix
}

/// The message for a profile that is not RGB.
pub open spec fn not_rgb_message(label: Seq<char>) -> Seq<char> {
    label + " \u{4e0d}\u{662f} RGB profile\u{ff0c}\u{672c}\u{7248}\u{672c}\u{4e0d}\u{652f}\u{6301} CMYK/\u{7070}\u{5ea6}\u{8f93}\u{51fa}"@
}

/// The prefix of the message for a profile that lcms2 cannot parse.
pub open spec fn unparsable_prefix(label: Seq<char>) -> Seq<char> {
    label + " \u{65e0}\u{6cd5}\u{89e3}\u{6790}: "@
}

fn detail_error(prefix: String, detail: &str) -> (e: AppError)
    ensures
        e matches AppError::Processing(m) && message_with_detail(m@, prefix@),
{
    let mut m = prefix;
    let ghost p = m@;
    push_str(&mut m, detail);
    assert(m@.take(p.len() as int) =~= p);
    AppError::Processing(m)
}

/// Accepts an ICC profile that lcms2 parses and whose colour space is RGB.
pub fn validate_rgb_profile(icc: &[u8], label: &str) -> (r: Result<(), AppError>)
    ensures
        icc_rgb_check(icc@) == Some(true) ==> r is Ok,
        icc_rgb_check(icc@) == Some(false) ==> (r matches Err(AppError::Processing(m)) && m@
            == not_rgb_message(label@)),
        icc_rgb_check(icc@) is None ==> (r matches Err(AppError::Processing(m)) && message_with_detail(
            m@,
            unparsable_prefix(label@),
        )),
{
    match check_rgb_profile(icc) {
        Ok(true) => Ok(()),
        Ok(false) => Err(
            AppError::Processing(
                concat2(
                    label,
                    " \u{4e0d}\u{662f} RGB profile\u{ff0c}\u{672c}\u{7248}\u{672c}\u{4e0d}\u{652f}\u{6301} CMYK/\u{7070}\u{5ea6}\u{8f93}\u{51fa}",
                ),
            ),
        ),
        Err(detail) => Err(detail_error(concat2(label, " \u{65e0}\u{6cd5}\u{89e3}\u{6790}: "), detail.as_str())),
    }
}

/// The message prefix of each failing step of a conversion.
pub open spec fn conversion_failure_prefix(step: u8) -> Seq<char> {
    if step == 0 {
        "\u{89e3}\u{6790}\u{8f93}\u{5165} ICC profile \u{5931}\u{8d25}: "@
    } else if step == 1 {
        "\u{89e3}\u{6790}\u{76ee}\u{6807} ICC profile \u{5931}\u{8d25}: "@
    } else {
        "\u{521b}\u{5efa} ICC \u{8272}\u{5f69}\u{8f6c}\u{6362}\u{5931}\u{8d25}: "@
    }
}

/// Converts an image from the input profile to the target profile with the
/// rendering intent; the error names the step that failed.
pub fn convert_to_target(img: image::DynamicImage, input_icc: &[u8], target_icc: &[u8], intent: RenderingIntent) -> (r:
    Result<image::DynamicImage, AppError>)
    requires
        rgba_size_fits(image_dims(img).0 as int, image_dims(img).1 as int),
    ensures
        match lcms_transform_failure(input_icc@, target_icc@, intent == RenderingIntent::Perceptual) {
            None => r matches Ok(out) && out == lcms_converted(
                img,
                input_icc@,
                target_icc@,
                intent == RenderingIntent::Perceptual,
            ) && image_dims(out) == image_dims(img),
            Some(step) => r matches Err(AppError::Processing(m)) && message_with_detail(
                m@,
                conversion_failure_prefix(step),
            ),
        },
{
    let perceptual = match intent {
        RenderingIntent::Perceptual => true,
        RenderingIntent::RelativeColorimetric => false,
    };
    match lcms_convert_rgba8(img, input_icc, target_icc, perceptual) {
        Ok(out) => Ok(out),
        Err((step, detail)) => {
            let prefix = if step == 0 {
                String::from_str("\u{89e3}\u{6790}\u{8f93}\u{5165} ICC profile \u{5931}\u{8d25}: ")
            } else if step == 1 {
                String::from_str("\u{89e3}\u{6790}\u{76ee}\u{6807} ICC profile \u{5931}\u{8d25}: ")
            } else {
                String::from_str("\u{521b}\u{5efa} ICC \u{8272}\u{5f69}\u{8f6c}\u{6362}\u{5931}\u{8d25}: ")
            };
            Err(detail_error(prefix, detail.as_str()))
        },
    }
}

/// Byte-wise equality of two profiles.
fn same_bytes(a: &[u8], b: &[u8]) -> (r: bool)
    ensures
        r == (a@ == b@),
{
    if a.len() != b.len() {
        return false;
    }
    let mut i: usize = 0;
    while i < a.len()
        invariant
            a@.len() == b@.len(),
            i <= a@.len(),
            forall|j: int| 0 <= j < i ==> a@[j] == b@[j],
        decreases a@.len() - i,
    {
        if a[i] != b[i] {
            return false;
        }
        i += 1;
    }
    assert(a@ =~= b@);
    true
}

/// `r` is what converting `img` from the `input` profile to the `target`
/// profile gives: `img` itself when the two profiles are the same bytes,
/// else lcms2's conversion, or an error that names the failing step.
pub open spec fn conversion_result(
    r: Result<image::DynamicImage, AppError>,
    img: image::DynamicImage,
    input: Seq<u8>,
    target: Seq<u8>,
    perceptual: bool,
) -> bool {
    if input == target {
        r == Ok::<image::DynamicImage, AppError>(img)
    } else {
        match lcms_transform_failure(input, target, perceptual) {
            None => r == Ok::<image::DynamicImage, AppError>(lcms_converted(img, input, target, perceptual)),
            Some(step) => r matches Err(AppError::Processing(m)) && message_with_detail(
                m@,
                conversion_failure_prefix(step),
            ),
        }
    }
}

/// Converts an image from the input profile to the target profile, unless
/// the two profiles are the same bytes.
pub fn convert_from_input(img: image::DynamicImage, input_icc: &[u8], target_icc: &[u8], intent: RenderingIntent) -> (r:
    Result<image::DynamicImage, AppError>)
    requires
        rgba_size_fits(image_dims(img).0 as int, image_dims(img).1 as int),
    ensures
        conversion_result(r, img, input_icc@, target_icc@, intent == RenderingIntent::Perceptual),
        r matches Ok(out) ==> image_dims(out) == image_dims(img),
{
    if same_bytes(input_icc, target_icc) {
        return Ok(img);
    }
    convert_to_target(img, input_icc, target_icc, intent)
}

/// The result of a preparation without its warnings.
pub open spec fn without_warnings(r: Result<(image::DynamicImage, Vec<String>), AppError>) -> Result<
    image::DynamicImage,
    AppError,
> {
    match r {
        Ok((img, _)) => Ok(img),
        Err(e) => Err(e),
    }
}

/// The prefix of the message for a failure to create the sRGB profile.
pub open spec fn srgb_failure_prefix() -> Seq<char> {
    "\u{521b}\u{5efa} sRGB ICC profile \u{5931}\u{8d25}: "@
}

/// A target profile of the given bytes: accepted when lcms2 parses them as
/// an RGB profile, else the error that says why not.
pub fn target_profile_from_icc(icc: Vec<u8>, is_srgb: bool) -> (r: Result<TargetColorProfile, AppError>)
    ensures
        icc_rgb_check(icc@) == Some(true) ==> r == Ok::<TargetColorProfile, AppError>(
            (TargetColorProfile { enabled: true, icc: Some(icc), is_srgb }),
        ),
        icc_rgb_check(icc@) == Some(false) ==> (r matches Err(AppError::Processing(m)) && m@
            == not_rgb_message("\u{76ee}\u{6807} ICC profile"@)),
        icc_rgb_check(icc@) is None ==> (r matches Err(AppError::Processing(m)) && message_with_detail(
            m@,
            unparsable_prefix("\u{76ee}\u{6807} ICC profile"@),
        )),
{
    let label = "\u{76ee}\u{6807} ICC profile";
    proof {
        reveal_strlit("\u{76ee}\u{6807} ICC profile");
    }
    let checked = validate_rgb_profile(icc.as_slice(), label);
    match checked {
        Ok(_) => {},
        Err(e) => return Err(e),
    }
    Ok(TargetColorProfile { enabled: true, icc: Some(icc), is_srgb })
}

/// An enabled sRGB target whose profile lcms2 parses as RGB.
pub open spec fn is_srgb_target(t: TargetColorProfile) -> bool {
    &&& t.enabled
    &&& t.is_srgb
    &&& t.icc is Some
    &&& icc_rgb_check(t.icc->Some_0@) == Some(true)
}

/// The target profile of a job: disabled colour management gives none; sRGB
/// uses lcms2's built-in profile; a custom target uses the profile file's
/// bytes (`custom_profile` is `None` when no file is configured, else the
/// result of reading it). The profile must be an RGB profile; the bytes are
/// checked by [`target_profile_from_icc`].
pub fn load_target_profile(
    enabled: bool,
    mode: TargetProfileMode,
    custom_profile: Option<Result<Vec<u8>, AppError>>,
) -> (r: Result<TargetColorProfile, AppError>)
    ensures
        !enabled ==> r == Ok::<TargetColorProfile, AppError>(
            (TargetColorProfile { enabled: false, icc: None, is_srgb: false }),
        ),
        (enabled && mode == TargetProfileMode::Custom) ==> match custom_profile {
            None => r matches Err(AppError::Processing(m)) && m@
                == "\u{8bf7}\u{9009}\u{62e9}\u{76ee}\u{6807} ICC profile \u{6587}\u{4ef6}"@,
            Some(Err(e)) => r == Err::<TargetColorProfile, AppError>(e),
            Some(Ok(bytes)) => match icc_rgb_check(bytes@) {
                Some(true) => r == Ok::<TargetColorProfile, AppError>(
                    (TargetColorProfile { enabled: true, icc: Some(bytes), is_srgb: false }),
                ),
                Some(false) => r matches Err(AppError::Processing(m)) && m@ == not_rgb_message(
                    "\u{76ee}\u{6807} ICC profile"@,
                ),
                None => r matches Err(AppError::Processing(m)) && message_with_detail(
                    m@,
                    unparsable_prefix("\u{76ee}\u{6807} ICC profile"@),
                ),
            },
        },
        (enabled && mode == TargetProfileMode::Srgb) ==> match r {
            Ok(t) => is_srgb_target(t),
            Err(e) => e matches AppError::Processing(m) && message_with_detail(m@, srgb_failure_prefix()),
        },
{
    if !enabled {
        return Ok(TargetColorProfile { enabled: false, icc: None, is_srgb: false });
    }
    match mode {
        TargetProfileMode::Srgb => match srgb_icc_bytes() {
            Ok(bytes) => target_profile_from_icc(bytes, true),
            Err(detail) => Err(
                detail_error(
                    String::from_str("\u{521b}\u{5efa} sRGB ICC profile \u{5931}\u{8d25}: "),
                    detail.as_str(),
                ),
            ),
        },
        TargetProfileMode::Custom => match custom_profile {
            None => Err(
                AppError::Processing(
                    String::from_str("\u{8bf7}\u{9009}\u{62e9}\u{76ee}\u{6807} ICC profile \u{6587}\u{4ef6}"),
                ),
            ),
            Some(Err(e)) => Err(e),
            Some(Ok(bytes)) => target_profile_from_icc(bytes, false),
        },
    }
}

/// Turns an image upright (when `auto_orient`) and converts it to the target
/// profile: nothing more when colour management is off, when an image
/// without a profile goes to an sRGB target, or when the input and target
/// profiles are the same bytes; an image without a profile is taken as sRGB
/// (lcms2's built-in profile, whose bytes [`convert_from_input`] takes).
pub fn prepare_image_with_metadata(
    img: image::DynamicImage,
    orientation: Option<u16>,
    auto_orient: bool,
    input_icc: Option<Vec<u8>>,
    target: &TargetColorProfile,
    intent: RenderingIntent,
) -> (r: Result<(image::DynamicImage, Vec<String>), AppError>)
    requires
        rgba_size_fits(image_dims(img).0 as int, image_dims(img).1 as int),
    ensures
        r matches Ok((out, warnings)) ==> warnings@.len() == 0 && image_dims(out) == transformed_dims(
            image_dims(img),
            orientation_transform(orientation, auto_orient),
        ),
        !target.enabled ==> without_warnings(r) == Ok::<image::DynamicImage, AppError>(
            transformed(img, orientation_transform(orientation, auto_orient)),
        ),
        target.enabled && target.icc is None ==> (r matches Err(AppError::Processing(m)) && m@
            == "\u{76ee}\u{6807} ICC profile \u{672a}\u{521d}\u{59cb}\u{5316}"@),
        (target.enabled && target.icc is Some) ==> ({
            let oriented = transformed(img, orientation_transform(orientation, auto_orient));
            let t = target.icc->Some_0@;
            let p = intent == RenderingIntent::Perceptual;
            match input_icc {
                Some(icc) => match icc_rgb_check(icc@) {
                    Some(true) => conversion_result(without_warnings(r), oriented, icc@, t, p),
                    Some(false) => r matches Err(AppError::Processing(m)) && m@ == not_rgb_message(
                        "\u{8f93}\u{5165} ICC profile"@,
                    ),
                    None => r matches Err(AppError::Processing(m)) && message_with_detail(
                        m@,
                        unparsable_prefix("\u{8f93}\u{5165} ICC profile"@),
                    ),
                },
                None => if target.is_srgb {
                    without_warnings(r) == Ok::<image::DynamicImage, AppError>(oriented)
                } else {
                    (r matches Err(AppError::Processing(m)) && message_with_detail(m@, srgb_failure_prefix()))
                        || exists|srgb: Seq<u8>|
                        icc_rgb_check(srgb) == Some(true) && conversion_result(
                            without_warnings(r),
                            oriented,
                            srgb,
                            t,
                            p,
                        )
                },
            }
        }),
{
    let oriented = apply_orientation(img, orientation, auto_orient);
    proof {
        let (w, h) = image_dims(img);
        assert(h * w * 4 == w * h * 4) by (nonlinear_arith);
    }
    let warnings: Vec<String> = Vec::new();
    if !target.enabled {
        return Ok((oriented, warnings));
    }
    let target_icc = match &target.icc {
        Some(t) => t,
        None => {
            return Err(
                AppError::Processing(
                    String::from_str("\u{76ee}\u{6807} ICC profile \u{672a}\u{521d}\u{59cb}\u{5316}"),
                ),
            );
        },
    };
    let input = match input_icc {
        Some(icc) => {
            proof {
                reveal_strlit("\u{8f93}\u{5165} ICC profile");
            }
            let checked = validate_rgb_profile(icc.as_slice(), "\u{8f93}\u{5165} ICC profile");
            match checked {
                Ok(_) => {},
                Err(e) => return Err(e),
            }
            icc
        },
        None => {
            if target.is_srgb {
                return Ok((oriented, warnings));
            }
            match srgb_icc_bytes() {
                Ok(bytes) => bytes,
                Err(detail) => {
                    return Err(
                        detail_error(
                            String::from_str("\u{521b}\u{5efa} sRGB ICC profile \u{5931}\u{8d25}: "),
                            detail.as_str(),
                        ),
                    );
                },
            }
        },
    };
    let converted = convert_from_input(oriented, input.as_slice(), target_icc.as_slice(), intent);
    proof {
        assert(icc_rgb_check(input@) == Some(true));
    }
    match converted {
        Ok(c) => Ok((c, warnings)),
        Err(e) => Err(e),
    }
}

} // verus!
