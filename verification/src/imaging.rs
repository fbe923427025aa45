//! Declaration of the `image` crate's decoded-image type and the few of its
//! operations that the library calls, with what their contracts claim.
use vstd::prelude::*;

verus! {

/// Declaration of `image::DynamicImage`.
#[verifier::external_type_specification]
#[verifier::external_body]
pub struct ExDynamicImage(image::DynamicImage);

/// Width and height of a decoded image.
pub uninterp spec fn image_dims(img: image::DynamicImage) -> (u32, u32);

/// What `DynamicImage::rotate90` returns for `img`.
pub uninterp spec fn rotated90(img: image::DynamicImage) -> image::DynamicImage;

/// What `DynamicImage::rotate180` returns for `img`.
pub uninterp spec fn rotated180(img: image::DynamicImage) -> image::DynamicImage;

/// What `DynamicImage::rotate270` returns for `img`.
pub uninterp spec fn rotated270(img: image::DynamicImage) -> image::DynamicImage;

/// What `DynamicImage::fliph` returns for `img`.
pub uninterp spec fn flipped_h(img: image::DynamicImage) -> image::DynamicImage;

/// What `DynamicImage::flipv` returns for `img`.
pub uninterp spec fn flipped_v(img: image::DynamicImage) -> image::DynamicImage;

/// `img` converted to 8-bit RGBA by `DynamicImage::into_rgba8` (held as
/// `DynamicImage::ImageRgba8`).
pub uninterp spec fn rgba8_of(img: image::DynamicImage) -> image::DynamicImage;

/// The `width` x `height` 8-bit RGBA image of which every pixel is `rgba`,
/// as `ImageBuffer::from_pixel` builds it.
pub uninterp spec fn rgba_fill(width: u32, height: u32, rgba: Seq<u8>) -> image::DynamicImage;

/// `bottom` after `imageops::overlay` has blended `top` onto it with its
/// top-left corner at `(x, y)`.
pub uninterp spec fn overlaid(bottom: image::DynamicImage, top: image::DynamicImage, x: i64, y: i64) -> image::DynamicImage;

/// An 8-bit RGBA buffer of these dimensions can be allocated without its
/// byte length overflowing `usize`.
pub open spec fn rgba_size_fits(width: int, height: int) -> bool {
    width * height * 4 <= usize::MAX
}

/// Width and height of an image, from `DynamicImage::width` and
/// `DynamicImage::height`.
#[verifier::external_body]
pub(crate) fn dims_of(img: &image::DynamicImage) -> (dims: (u32, u32))
    ensures
        dims == image_dims(*img),
{
    (img.width(), img.height())
}

/// `DynamicImage::rotate90`: a clockwise quarter turn. Claimed: the result
/// is `rotated90(img)`, and width and height swap.
#[verifier::external_body]
pub(crate) fn rotate90(img: &image::DynamicImage) -> (r: image::DynamicImage)
    ensures
        r == rotated90(*img),
        image_dims(r) == (image_dims(*img).1, image_dims(*img).0),
{
    img.rotate90()
}

/// `DynamicImage::rotate180`: a half turn. Claimed: the result is
/// `rotated180(img)`, and the dimensions stay.
#[verifier::external_body]
pub(crate) fn rotate180(img: &image::DynamicImage) -> (r: image::DynamicImage)
    ensures
        r == rotated180(*img),
        image_dims(r) == image_dims(*img),
{
    img.rotate180()
}

/// `DynamicImage::rotate270`: a counter-clockwise quarter turn. Claimed: the
/// result is `rotated270(img)`, and width and height swap.
#[verifier::external_body]
pub(crate) fn rotate270(img: &image::DynamicImage) -> (r: image::DynamicImage)
    ensures
        r == rotated270(*img),
        image_dims(r) == (image_dims(*img).1, image_dims(*img).0),
{
    img.rotate270()
}

/// `DynamicImage::fliph`: a horizontal mirror. Claimed: the result is
/// `flipped_h(img)`, and the dimensions stay.
#[verifier::external_body]
pub(crate) fn fliph(img: &image::DynamicImage) -> (r: image::DynamicImage)
    ensures
        r == flipped_h(*img),
        image_dims(r) == image_dims(*img),
{
    img.fliph()
}

/// `DynamicImage::flipv`: a vertical mirror. Claimed: the result is
/// `flipped_v(img)`, and the dimensions stay.
#[verifier::external_body]
pub(crate) fn flipv(img: &image::DynamicImage) -> (r: image::DynamicImage)
    ensures
        r == flipped_v(*img),
        image_dims(r) == image_dims(*img),
{
    img.flipv()
}

/// `DynamicImage::into_rgba8`, wrapped back as `DynamicImage::ImageRgba8`:
/// converts to 8-bit RGBA. Claimed: the result is `rgba8_of(img)`, and the
/// dimensions stay. The conversion panics when the RGBA byte length
/// overflows `usize`, which `requires` rules out.
#[verifier::external_body]
pub(crate) fn into_rgba8(img: image::DynamicImage) -> (r: image::DynamicImage)
    requires
        rgba_size_fits(image_dims(img).0 as int, image_dims(img).1 as int),
    ensures
        r == rgba8_of(img),
        image_dims(r) == image_dims(img),
{
    image::DynamicImage::ImageRgba8(img.into_rgba8())
}

/// `ImageBuffer::from_pixel` for `Rgba<u8>`, wrapped as
/// `DynamicImage::ImageRgba8`: a `width` x `height` image filled with one
/// colour. Claimed: the result is `rgba_fill(width, height, rgba)`, and its
/// dimensions are the given ones. It panics when the byte length overflows
/// `usize`, which `requires` rules out.
#[verifier::external_body]
pub(crate) fn rgba_filled(width: u32, height: u32, rgba: [u8; 4]) -> (r: image::DynamicImage)
    requires
        rgba_size_fits(width as int, height as int),
    ensures
        r == rgba_fill(width, height, rgba@),
        image_dims(r) == (width, height),
{
    image::DynamicImage::ImageRgba8(image::RgbaImage::from_pixel(width, height, image::Rgba(rgba)))
}

/// `imageops::overlay`: alpha-blends `top` onto `bottom` with its top-left
/// corner at `(x, y)`, clipped to `bottom`. Claimed: `bottom` becomes
/// `overlaid(bottom, top, x, y)`, and its dimensions stay.
#[verifier::external_body]
pub(crate) fn overlay(bottom: &mut image::DynamicImage, top: &image::DynamicImage, x: i64, y: i64)
    ensures
        *final(bottom) == overlaid(*old(bottom), *top, x, y),
        image_dims(*final(bottom)) == image_dims(*old(bottom)),
{
    image::imageops::overlay(bottom, top, x, y)
}

} // verus!
