use vstd::prelude::*;

use crate::border::{resolve_outer_border, scaled_border_spec};
use crate::collage::{
    extent_overflow_message, grid_cols_of, grid_dimensions, grid_rows_of, grid_shape,
    jpeg_limit_error, jpeg_limit_message, spaced_extent_value,
};
use crate::config::{ColorManagementConfig, ResolvedLayout, TargetProfileMode};
use crate::collage::ProcessedTile;
use crate::error::AppError;
use crate::image_loader::{gib_hundredths, push_two_decimals, two_decimals};
use crate::progress::FailedImage;
use crate::text::{
    concat2, decimal_digits, lemma_trimmed_len, push_decimal, push_str, trim_chars, trimmed,
};

verus! {

/// Above this many images a memory warning is given.
pub const RECOMMENDED_MAX_IMAGES: usize = 40;

/// The largest number of images a job may have.
pub const HARD_MAX_IMAGES: usize = 500;

/// `out` is `old` with `msg` appended.
pub open spec fn pushed_message(out: Seq<String>, old: Seq<String>, msg: Seq<char>) -> bool {
    &&& out.len() == old.len() + 1
    &&& out.take(old.len() as int) == old
    &&& out[old.len() as int]@ == msg
}

/// `r` is a processing error whose message is `msg`.
pub open spec fn is_processing_error(r: Result<(), AppError>, msg: Seq<char>) -> bool {
    r matches Err(AppError::Processing(m)) && m@ == msg
}

/// The message for too many images.
pub open spec fn too_many_images_message(count: nat) -> Seq<char> {
    "image count cannot exceed 500; got "@ + decimal_digits(count)
}

/// The warning for a large number of images.
pub open spec fn many_images_warning(count: nat) -> Seq<char> {
    decimal_digits(count) + " images selected; high resolution settings may use substantial memory"@
}

fn push_message(warnings: &mut Vec<String>, msg: String)
    ensures
        pushed_message(final(warnings)@, old(warnings)@, msg@),
{
    warnings.push(msg);
    assert(final(warnings)@.take(old(warnings)@.len() as int) =~= old(warnings)@);
}

/// Checks the number of selected images: at least one, at most 500; more
/// than 40 adds a memory warning.
pub fn validate_image_count(count: usize, warnings: &mut Vec<String>) -> (r: Result<(), AppError>)
    ensures
        count == 0 ==> is_processing_error(r, "select at least one image"@),
        count > HARD_MAX_IMAGES ==> is_processing_error(r, too_many_images_message(count as nat)),
        1 <= count <= HARD_MAX_IMAGES ==> r is Ok,
        (1 <= count <= HARD_MAX_IMAGES && count > RECOMMENDED_MAX_IMAGES) ==> pushed_message(
            final(warnings)@,
            old(warnings)@,
            many_images_warning(count as nat),
        ),
        !(1 <= count <= HARD_MAX_IMAGES && count > RECOMMENDED_MAX_IMAGES) ==> final(warnings)@
            == old(warnings)@,
{
    if count == 0 {
        return Err(AppError::Processing(String::from_str("select at least one image")));
    }
    if count > HARD_MAX_IMAGES {
        let mut msg = String::from_str("image count cannot exceed 500; got ");
        push_decimal(&mut msg, count as u64);
        return Err(AppError::Processing(msg));
    }
    if count > RECOMMENDED_MAX_IMAGES {
        let mut msg = String::new();
        push_decimal(&mut msg, count as u64);
        push_str(&mut msg, " images selected; high resolution settings may use substantial memory");
        assert(msg@ =~= many_images_warning(count as nat));
        push_message(warnings, msg);
    }
    Ok(())
}

/// A per-image rotation setting: how the image path reads, the rotation in
/// degrees, and whether the path is one of the selected images.
#[derive(Debug, Clone)]
pub struct RotationEntry {
    pub path_display: String,
    pub degrees: u16,
    pub selected: bool,
}

/// What is wrong with a rotation setting, if anything.
pub open spec fn rotation_entry_error(e: RotationEntry) -> Option<Seq<char>> {
    if !(e.degrees == 0 || e.degrees == 90 || e.degrees == 180 || e.degrees == 270) {
        Some(
            "image rotation must be 0, 90, 180, or 270 degrees: "@ + e.path_display@ + " = "@
                + decimal_digits(e.degrees as nat),
        )
    } else if !e.selected {
        Some("rotation config contains an unselected image: "@ + e.path_display@)
    } else {
        None
    }
}

/// Checks one rotation setting.
pub fn validate_rotation_entry(e: &RotationEntry) -> (r: Result<(), AppError>)
    ensures
        match rotation_entry_error(*e) {
            None => r is Ok,
            Some(msg) => is_processing_error(r, msg),
        },
{
    if !(e.degrees == 0 || e.degrees == 90 || e.degrees == 180 || e.degrees == 270) {
        let mut msg = String::from_str("image rotation must be 0, 90, 180, or 270 degrees: ");
        push_str(&mut msg, e.path_display.as_str());
        push_str(&mut msg, " = ");
        push_decimal(&mut msg, e.degrees as u64);
        return Err(AppError::Processing(msg));
    }
    if !e.selected {
        return Err(
            AppError::Processing(
                concat2("rotation config contains an unselected image: ", e.path_display.as_str()),
            ),
        );
    }
    Ok(())
}

/// Checks the rotation settings in order: the first one that is wrong gives
/// the error.
pub fn validate_rotations(entries: &[RotationEntry]) -> (r: Result<(), AppError>)
    ensures
        r is Ok <==> forall|i: int|
            0 <= i < entries@.len() ==> (#[trigger] rotation_entry_error(entries@[i])) is None,
        r is Err ==> exists|i: int|
            #![trigger entries@[i]]
            {
                &&& 0 <= i < entries@.len()
                &&& forall|j: int|
                    0 <= j < i ==> (#[trigger] rotation_entry_error(entries@[j])) is None
                &&& rotation_entry_error(entries@[i]) matches Some(msg) && is_processing_error(r, msg)
            },
{
    let mut i: usize = 0;
    while i < entries.len()
        invariant
            i <= entries@.len(),
            forall|j: int| 0 <= j < i ==> (#[trigger] rotation_entry_error(entries@[j])) is None,
        decreases entries@.len() - i,
    {
        let r = validate_rotation_entry(&entries[i]);
        if r.is_err() {
            assert(rotation_entry_error(entries@[i as int]) is Some);
            return r;
        }
        i += 1;
    }
    Ok(())
}

/// Characters of the Unicode control category (`char::is_control`).
pub open spec fn is_control_char(c: char) -> bool {
    (c as u32) <= 0x1f || (0x7f <= (c as u32) && (c as u32) <= 0x9f)
}

/// Characters that file names may not contain.
pub open spec fn is_reserved_filename_char(c: char) -> bool {
    c == '<' || c == '>' || c == ':' || c == '"' || c == '/' || c == '\\' || c == '|' || c == '?'
        || c == '*'
}

/// What is wrong with an output file name prefix, if anything.
pub open spec fn prefix_error(prefix: Seq<char>) -> Option<Seq<char>> {
    if trimmed(prefix).len() == 0 {
        Some("output filename prefix cannot be empty"@)
    } else if trimmed(prefix) != prefix {
        Some("output filename prefix cannot contain leading or trailing whitespace"@)
    } else if exists|i: int|
        0 <= i < prefix.len() && (is_control_char(#[trigger] prefix[i]) || is_reserved_filename_char(
            prefix[i],
        )) {
        Some("output filename prefix contains illegal filename characters"@)
    } else {
        None
    }
}

/// Checks the output file name prefix: not blank, no surrounding whitespace,
/// no control or reserved characters.
pub fn validate_prefix(prefix: &str) -> (r: Result<(), AppError>)
    ensures
        match prefix_error(prefix@) {
            None => r is Ok,
            Some(msg) => is_processing_error(r, msg),
        },
{
    let t = trim_chars(prefix);
    proof {
        lemma_trimmed_len(prefix@);
    }
    if t.len() == 0 {
        return Err(AppError::Processing(String::from_str("output filename prefix cannot be empty")));
    }
    let n = prefix.unicode_len();
    if t.len() != n {
        return Err(
            AppError::Processing(
                String::from_str(
                    "output filename prefix cannot contain leading or trailing whitespace",
                ),
            ),
        );
    }
    assert(trimmed(prefix@) == prefix@);
    let mut i: usize = 0;
    while i < n
        invariant
            n == prefix@.len(),
            i <= n,
            trimmed(prefix@) == prefix@,
            trimmed(prefix@).len() != 0,
            forall|j: int|
                0 <= j < i ==> !(is_control_char(#[trigger] prefix@[j]) || is_reserved_filename_char(
                    prefix@[j],
                )),
        decreases n - i,
    {
        let c = prefix.get_char(i);
        let code = c as u32;
        if code <= 0x1f || (0x7f <= code && code <= 0x9f) || c == '<' || c == '>' || c == ':' || c
            == '"' || c == '/' || c == '\\' || c == '|' || c == '?' || c == '*' {
            assert(is_control_char(prefix@[i as int]) || is_reserved_filename_char(prefix@[i as int]));
            return Err(
                AppError::Processing(
                    String::from_str("output filename prefix contains illegal filename characters"),
                ),
            );
        }
        i += 1;
    }
    Ok(())
}

/// A text is blank when nothing but whitespace is left after trimming.
pub fn is_blank(text: &str) -> (r: bool)
    ensures
        r == (trimmed(text@).len() == 0),
{
    trim_chars(text).len() == 0
}

/// What is wrong with the text and weight of a text block, if anything.
pub open spec fn text_block_basic_error(text: Seq<char>, font_weight: u16) -> Option<Seq<char>> {
    if trimmed(text).len() == 0 {
        Some("text block cannot be empty"@)
    } else if !(1 <= font_weight && font_weight <= 999) {
        Some("text block font weight must be between 1 and 999"@)
    } else {
        None
    }
}

/// Checks that a text block has text and a font weight from 1 to 999.
pub fn validate_text_block_basics(text: &str, font_weight: u16) -> (r: Result<(), AppError>)
    ensures
        match text_block_basic_error(text@, font_weight) {
            None => r is Ok,
            Some(msg) => is_processing_error(r, msg),
        },
{
    if is_blank(text) {
        return Err(AppError::Processing(String::from_str("text block cannot be empty")));
    }
    if !(1 <= font_weight && font_weight <= 999) {
        return Err(
            AppError::Processing(String::from_str("text block font weight must be between 1 and 999")),
        );
    }
    Ok(())
}

/// A text block is shown when its text is not blank.
pub fn has_text_block(text: Option<&str>) -> (r: bool)
    ensures
        r == (text matches Some(t) && trimmed(t@).len() != 0),
{
    match text {
        Some(t) => !is_blank(t),
        None => false,
    }
}

/// The output gets an overlay when it has a watermark or a visible text block.
pub fn has_overlay(has_watermark: bool, text: Option<&str>) -> (r: bool)
    ensures
        r == (has_watermark || (text matches Some(t) && trimmed(t@).len() != 0)),
{
    has_watermark || has_text_block(text)
}

/// The file name of the output image.
pub open spec fn output_file_name_spec(prefix: Seq<char>, with_overlay: bool) -> Seq<char> {
    if with_overlay {
        prefix + "_collage_final_watermarked.jpg"@
    } else {
        prefix + "_collage_final.jpg"@
    }
}

/// `<prefix>_collage_final_watermarked.jpg` with an overlay, else
/// `<prefix>_collage_final.jpg`.
pub fn output_file_name(prefix: &str, with_overlay: bool) -> (name: String)
    ensures
        name@ == output_file_name_spec(prefix@, with_overlay),
{
    if with_overlay {
        concat2(prefix, "_collage_final_watermarked.jpg")
    } else {
        concat2(prefix, "_collage_final.jpg")
    }
}

/// The number of image worker threads: the available CPUs, capped at 4 for
/// large tiles (content long edge from 3500 px, falling back to the resample
/// size) or more than 20 images, else at 8; at least 1.
pub open spec fn thread_count_spec(cpus: int, content_long_edge_px: int, image_count: int) -> int {
    let cap = if content_long_edge_px >= 3500 || image_count > 20 {
        4
    } else {
        8
    };
    let n = if cpus < cap {
        cpus
    } else {
        cap
    };
    if n < 1 {
        1
    } else {
        n
    }
}

/// Chooses how many worker threads process images.
pub fn processing_thread_count(
    cpus: usize,
    layout: Option<ResolvedLayout>,
    resample_size: u32,
    image_count: usize,
) -> (n: usize)
    ensures
        n == thread_count_spec(
            cpus as int,
            match layout {
                Some(l) => l.content_long_edge_px as int,
                None => resample_size as int,
            },
            image_count as int,
        ),
        1 <= n <= 8,
{
    let content_long_edge_px = match layout {
        Some(l) => l.content_long_edge_px,
        None => resample_size,
    };
    let cap: usize = if content_long_edge_px >= 3500 || image_count > 20 {
        4
    } else {
        8
    };
    let n = if cpus < cap {
        cpus
    } else {
        cap
    };
    if n < 1 {
        1
    } else {
        n
    }
}

/// Checks that a custom target profile, when colour management asks for one,
/// has been chosen.
pub fn validate_custom_profile_selected(cm: &ColorManagementConfig) -> (r: Result<(), AppError>)
    ensures
        (cm.enabled && cm.target_profile == TargetProfileMode::Custom
            && cm.target_profile_path is None) ==> is_processing_error(
            r,
            "select a target ICC profile file"@,
        ),
        !(cm.enabled && cm.target_profile == TargetProfileMode::Custom
            && cm.target_profile_path is None) ==> r is Ok,
{
    if cm.enabled && cm.target_profile == TargetProfileMode::Custom
        && cm.target_profile_path.is_none() {
        return Err(AppError::Processing(String::from_str("select a target ICC profile file")));
    }
    Ok(())
}

/// The numbers of a job that the layout checks read.
#[derive(Debug, Clone, Copy)]
pub struct LayoutInputs {
    /// Number of selected images.
    pub image_count: u32,
    /// Long edge of the output, in pixels.
    pub final_size: u32,
    /// The resolved layout, or `None` when resolving it overflowed.
    pub layout: Option<ResolvedLayout>,
    /// A tile border was given in pixels or as a percentage.
    pub tile_border_configured: bool,
    /// The legacy tile size, used when no tile border is given.
    pub border_size: u32,
    pub dpi: u32,
    pub jpeg_quality: u8,
    /// The outer border given explicitly (in pixels or as a percentage).
    pub explicit_outer_border_px: Option<u32>,
}

/// The layout numbers that passed the checks.
#[derive(Debug, Clone, Copy)]
pub struct CheckedLayout {
    pub layout: ResolvedLayout,
    pub grid_cols: u32,
    pub grid_rows: u32,
    pub collage_width: u32,
    pub collage_height: u32,
    pub outer_border: u32,
}

/// The outer border that a job gets: the explicit one, else the dynamic one
/// for its column count and output size.
pub open spec fn outer_border_of(i: LayoutInputs) -> int {
    match i.explicit_outer_border_px {
        Some(px) => px as int,
        None => scaled_border_spec(grid_cols_of(i.image_count as int), i.final_size as int),
    }
}

/// What the grid checks find wrong, once the plain numbers passed.
pub open spec fn grid_error(i: LayoutInputs, l: ResolvedLayout) -> Option<Seq<char>> {
    let cols = grid_cols_of(i.image_count as int);
    let rows = grid_rows_of(i.image_count as int);
    let w = spaced_extent_value(cols, l.tile_size_px as int, l.gap_x_px as int);
    let h = spaced_extent_value(rows, l.tile_size_px as int, l.gap_y_px as int);
    let double_border = 2 * outer_border_of(i);
    if w > u32::MAX {
        Some(extent_overflow_message(cols, l.tile_size_px as int, l.gap_x_px as int, "collage width"@))
    } else if h > u32::MAX {
        Some(
            extent_overflow_message(rows, l.tile_size_px as int, l.gap_y_px as int, "collage height"@),
        )
    } else if w > 65535 || h > 65535 {
        Some(jpeg_limit_message("collage dimensions "@, w, h))
    } else if double_border > u32::MAX {
        Some("outer border calculation overflowed"@)
    } else if i.final_size <= double_border {
        Some(
            "final image size "@ + decimal_digits(i.final_size as nat)
                + " px is too small; current image count requires more than "@ + decimal_digits(
                double_border as nat,
            ) + " px"@,
        )
    } else {
        None
    }
}

/// What the layout checks find wrong, in the order they are made.
pub open spec fn layout_error(i: LayoutInputs) -> Option<Seq<char>> {
    if i.final_size == 0 {
        Some("final image size must be greater than 0"@)
    } else if i.layout is None {
        Some("layout size calculation overflowed"@)
    } else {
        let l = i.layout->0;
        if l.tile_size_px == 0 {
            Some("tile size must be greater than 0"@)
        } else if l.content_long_edge_px == 0 {
            Some("content long edge must be greater than 0"@)
        } else if !i.tile_border_configured && i.border_size == 0 {
            Some("legacy tile border size must be greater than 0"@)
        } else if l.content_long_edge_px > l.tile_size_px {
            Some(
                "resample size "@ + decimal_digits(l.content_long_edge_px as nat)
                    + " px cannot exceed tile border size "@ + decimal_digits(
                    l.tile_size_px as nat,
                ) + " px"@,
            )
        } else if i.final_size > 65535 {
            Some(
                "final image size "@ + decimal_digits(i.final_size as nat)
                    + " px exceeds JPEG limit 65535 px"@,
            )
        } else if i.dpi == 0 || i.dpi > 65535 {
            Some("DPI must be between 1 and 65535; got "@ + decimal_digits(i.dpi as nat))
        } else if !(1 <= i.jpeg_quality && i.jpeg_quality <= 100) {
            Some(
                "JPEG quality must be between 1 and 100; got "@ + decimal_digits(
                    i.jpeg_quality as nat,
                ),
            )
        } else {
            grid_error(i, l)
        }
    }
}

/// The same job with another JPEG quality.
pub open spec fn with_quality(i: LayoutInputs, q: u8) -> LayoutInputs {
    LayoutInputs { jpeg_quality: q, ..i }
}

/// `m` is a JPEG-quality complaint: it starts with `JPEG quality`.
pub open spec fn is_quality_complaint(m: Seq<char>) -> bool {
    m.len() >= 12 && m.take(12) == "JPEG quality"@
}

/// Every JPEG quality from 1 to 100 is accepted: for such a quality the
/// checks never complain about it, and changing it to another quality of the
/// range changes nothing in their outcome. A job that passes the checks with
/// some quality passes them with exactly the qualities 1 to 100, and with any
/// other quality it is refused with a complaint about the quality.
pub proof fn law_jpeg_quality_range(i: LayoutInputs, q: u8, valid: u8)
    requires
        1 <= valid <= 100,
    ensures
        1 <= i.jpeg_quality <= 100 ==> !(layout_error(i) matches Some(m) && is_quality_complaint(m)),
        (1 <= i.jpeg_quality <= 100 && 1 <= q <= 100) ==> layout_error(with_quality(i, q)) == layout_error(i),
        layout_error(with_quality(i, valid)) is None ==> ((layout_error(with_quality(i, q)) is None) == (1
            <= q <= 100)),
        (layout_error(with_quality(i, valid)) is None && !(1 <= q <= 100)) ==> (layout_error(
            with_quality(i, q),
        ) matches Some(m) && is_quality_complaint(m)),
{
    reveal_strlit("JPEG quality");
    reveal_strlit("JPEG quality must be between 1 and 100; got ");
    let j = with_quality(i, q);
    let v = with_quality(i, valid);
    assert(outer_border_of(j) == outer_border_of(i));
    assert(outer_border_of(v) == outer_border_of(i));
    if i.layout is Some {
        assert(grid_error(j, i.layout->0) == grid_error(i, i.layout->0));
        assert(grid_error(v, i.layout->0) == grid_error(i, i.layout->0));
    }
    let qm = "JPEG quality must be between 1 and 100; got "@ + decimal_digits(q as nat);
    assert(qm.take(12) =~= "JPEG quality"@);
    if 1 <= i.jpeg_quality <= 100 {
        if layout_error(i) matches Some(m) {
            lemma_not_quality_complaint(i);
        }
    }
}

/// For a job whose quality is in range, the message of the check that fails,
/// if any, does not start with `J`.
proof fn lemma_not_quality_complaint(i: LayoutInputs)
    requires
        1 <= i.jpeg_quality <= 100,
        layout_error(i) is Some,
    ensures
        !is_quality_complaint(layout_error(i)->0),
{
    reveal_strlit("JPEG quality");
    reveal_strlit("final image size must be greater than 0");
    reveal_strlit("layout size calculation overflowed");
    reveal_strlit("tile size must be greater than 0");
    reveal_strlit("content long edge must be greater than 0");
    reveal_strlit("legacy tile border size must be greater than 0");
    reveal_strlit("resample size ");
    reveal_strlit("final image size ");
    reveal_strlit("DPI must be between 1 and 65535; got ");
    reveal_strlit("collage width");
    reveal_strlit("collage height");
    reveal_strlit("collage dimensions ");
    reveal_strlit("outer border calculation overflowed");
    let m = layout_error(i)->0;
    assert("JPEG quality"@[0] == 'J');
    if m.len() >= 12 && m.take(12) == "JPEG quality"@ {
        assert(m[0] == m.take(12)[0]);
        assert(m[0] == 'J');
        let l = i.layout->0;
        if i.final_size == 0 || i.layout is None || l.tile_size_px == 0 || l.content_long_edge_px == 0
            || (!i.tile_border_configured && i.border_size == 0) {
        } else if l.content_long_edge_px > l.tile_size_px {
            let a = "resample size "@;
            assert(m[0] == a[0]);
        } else if i.final_size > 65535 {
            let a = "final image size "@;
            assert(m[0] == a[0]);
        } else if i.dpi == 0 || i.dpi > 65535 {
            let a = "DPI must be between 1 and 65535; got "@;
            assert(m[0] == a[0]);
        } else {
            let cols = grid_cols_of(i.image_count as int);
            let rows = grid_rows_of(i.image_count as int);
            let w = spaced_extent_value(cols, l.tile_size_px as int, l.gap_x_px as int);
            let h = spaced_extent_value(rows, l.tile_size_px as int, l.gap_y_px as int);
            let double_border = 2 * outer_border_of(i);
            if w > u32::MAX {
                let a = "collage width"@;
                assert(m[0] == a[0]);
            } else if h > u32::MAX {
                let a = "collage height"@;
                assert(m[0] == a[0]);
            } else if w > 65535 || h > 65535 {
                let a = "collage dimensions "@;
                assert(m[0] == a[0]);
            } else if double_border > u32::MAX {
            } else {
                let a = "final image size "@;
                assert(m[0] == a[0]);
            }
        }
    }
}

fn processing_error(msg: String) -> (r: Result<CheckedLayout, AppError>)
    ensures
        r matches Err(AppError::Processing(m)) && m == msg,
{
    Err(AppError::Processing(msg))
}

/// Checks the pixel sizes, DPI, JPEG quality, collage size and outer border
/// of a job, in the order the pipeline checks them; on success, gives the
/// grid, the collage size and the outer border.
pub fn validate_layout_numbers(i: &LayoutInputs) -> (r: Result<CheckedLayout, AppError>)
    ensures
        match layout_error(*i) {
            Some(msg) => r matches Err(AppError::Processing(m)) && m@ == msg,
            None => r matches Ok(c) && {
                &&& Some(c.layout) == i.layout
                &&& c.grid_cols == grid_cols_of(i.image_count as int)
                &&& c.grid_rows == grid_rows_of(i.image_count as int)
                &&& c.collage_width == spaced_extent_value(
                    c.grid_cols as int,
                    c.layout.tile_size_px as int,
                    c.layout.gap_x_px as int,
                )
                &&& c.collage_height == spaced_extent_value(
                    c.grid_rows as int,
                    c.layout.tile_size_px as int,
                    c.layout.gap_y_px as int,
                )
                &&& c.collage_width <= 65535 && c.collage_height <= 65535
                &&& c.outer_border == outer_border_of(*i)
                &&& 2 * c.outer_border < i.final_size
            },
        },
{
    if i.final_size == 0 {
        return processing_error(String::from_str("final image size must be greater than 0"));
    }
    let l = match i.layout {
        Some(l) => l,
        None => return processing_error(String::from_str("layout size calculation overflowed")),
    };
    if l.tile_size_px == 0 {
        return processing_error(String::from_str("tile size must be greater than 0"));
    }
    if l.content_long_edge_px == 0 {
        return processing_error(String::from_str("content long edge must be greater than 0"));
    }
    if !i.tile_border_configured && i.border_size == 0 {
        return processing_error(String::from_str("legacy tile border size must be greater than 0"));
    }
    if l.content_long_edge_px > l.tile_size_px {
        let mut msg = String::from_str("resample size ");
        push_decimal(&mut msg, l.content_long_edge_px as u64);
        push_str(&mut msg, " px cannot exceed tile border size ");
        push_decimal(&mut msg, l.tile_size_px as u64);
        push_str(&mut msg, " px");
        return processing_error(msg);
    }
    if i.final_size > 65535 {
        let mut msg = String::from_str("final image size ");
        push_decimal(&mut msg, i.final_size as u64);
        push_str(&mut msg, " px exceeds JPEG limit 65535 px");
        return processing_error(msg);
    }
    if i.dpi == 0 || i.dpi > 65535 {
        let mut msg = String::from_str("DPI must be between 1 and 65535; got ");
        push_decimal(&mut msg, i.dpi as u64);
        return processing_error(msg);
    }
    if !(1 <= i.jpeg_quality && i.jpeg_quality <= 100) {
        let mut msg = String::from_str("JPEG quality must be between 1 and 100; got ");
        push_decimal(&mut msg, i.jpeg_quality as u64);
        return processing_error(msg);
    }
    let (cols, rows) = grid_shape(i.image_count);
    let (w, h) = match grid_dimensions(cols, rows, l.tile_size_px, l.gap_x_px, l.gap_y_px) {
        Ok(dims) => dims,
        Err(e) => return Err(e),
    };
    if w > 65535 || h > 65535 {
        return Err(jpeg_limit_error("collage dimensions ", w, h));
    }
    let outer_border = resolve_outer_border(i.explicit_outer_border_px, cols, i.final_size);
    let double_border = match outer_border.checked_mul(2) {
        Some(d) => d,
        None => return processing_error(String::from_str("outer border calculation overflowed")),
    };
    if i.final_size <= double_border {
        let mut msg = String::from_str("final image size ");
        push_decimal(&mut msg, i.final_size as u64);
        push_str(&mut msg, " px is too small; current image count requires more than ");
        push_decimal(&mut msg, double_border as u64);
        push_str(&mut msg, " px");
        return processing_error(msg);
    }
    Ok(
        CheckedLayout {
            layout: l,
            grid_cols: cols,
            grid_rows: rows,
            collage_width: w,
            collage_height: h,
            outer_border,
        },
    )
}

/// One image that went through the per-image steps.
pub struct ProcessedImage {
    pub tile: ProcessedTile,
    pub warnings: Vec<String>,
    pub missing_icc: bool,
}

/// The tiles, failures and warnings gathered from the per-image results.
pub struct CollectedImages {
    pub tiles: Vec<ProcessedTile>,
    pub failed_images: Vec<FailedImage>,
    pub warnings: Vec<String>,
}

/// The tiles of the images that succeeded, in order.
pub open spec fn ok_tiles(rs: Seq<Result<ProcessedImage, FailedImage>>) -> Seq<ProcessedTile>
    decreases rs.len(),
{
    if rs.len() == 0 {
        seq![]
    } else {
        let prev = ok_tiles(rs.drop_last());
        match rs.last() {
            Ok(p) => prev.push(p.tile),
            Err(_) => prev,
        }
    }
}

/// The images that failed, in order.
pub open spec fn failures(rs: Seq<Result<ProcessedImage, FailedImage>>) -> Seq<FailedImage>
    decreases rs.len(),
{
    if rs.len() == 0 {
        seq![]
    } else {
        let prev = failures(rs.drop_last());
        match rs.last() {
            Ok(_) => prev,
            Err(f) => prev.push(f),
        }
    }
}

/// The warnings of the images that succeeded, in order.
pub open spec fn image_warnings(rs: Seq<Result<ProcessedImage, FailedImage>>) -> Seq<String>
    decreases rs.len(),
{
    if rs.len() == 0 {
        seq![]
    } else {
        let prev = image_warnings(rs.drop_last());
        match rs.last() {
            Ok(p) => prev + p.warnings@,
            Err(_) => prev,
        }
    }
}

/// How many of the images that succeeded carried no ICC profile.
pub open spec fn missing_icc_count(rs: Seq<Result<ProcessedImage, FailedImage>>) -> nat
    decreases rs.len(),
{
    if rs.len() == 0 {
        0
    } else {
        let prev = missing_icc_count(rs.drop_last());
        match rs.last() {
            Ok(p) => if p.missing_icc {
                prev + 1
            } else {
                prev
            },
            Err(_) => prev,
        }
    }
}

/// The summary warning for images without an ICC profile.
pub open spec fn missing_icc_warning(count: nat) -> Seq<char> {
    decimal_digits(count) + " \u{5f20}\u{56fe}\u{7247}\u{672a}\u{5305}\u{542b} ICC profile\u{ff0c}\u{5df2}\u{6309} sRGB \u{5904}\u{7406}"@
}

/// The summary warning for images that failed.
pub open spec fn partial_failure_warning(failed: nat, processed: nat) -> Seq<char> {
    decimal_digits(failed) + " image(s) failed; continued with "@ + decimal_digits(processed)
        + " successfully processed image(s)"@
}

/// The warnings a job ends with: those given before, those of each image that
/// succeeded, then the summary of missing ICC profiles and of failures.
pub open spec fn collected_warnings(
    before: Seq<String>,
    rs: Seq<Result<ProcessedImage, FailedImage>>,
) -> Seq<Seq<char>> {
    let all = (before + image_warnings(rs)).map_values(|w: String| w@);
    let with_icc = if missing_icc_count(rs) > 0 {
        all.push(missing_icc_warning(missing_icc_count(rs)))
    } else {
        all
    };
    if failures(rs).len() > 0 {
        with_icc.push(partial_failure_warning(failures(rs).len(), ok_tiles(rs).len()))
    } else {
        with_icc
    }
}

proof fn lemma_counts_bounded(rs: Seq<Result<ProcessedImage, FailedImage>>)
    ensures
        ok_tiles(rs).len() + failures(rs).len() == rs.len(),
        missing_icc_count(rs) <= ok_tiles(rs).len(),
    decreases rs.len(),
{
    if rs.len() > 0 {
        lemma_counts_bounded(rs.drop_last());
    }
}

fn push_all(out: &mut Vec<String>, ws: Vec<String>)
    ensures
        final(out)@ == old(out)@ + ws@,
{
    let mut ws = ws;
    let ghost w0 = ws@;
    let mut rest: Vec<String> = Vec::new();
    while ws.len() > 0
        invariant
            rest@ + ws@.reverse() =~= w0.reverse(),
        decreases ws@.len(),
    {
        let w = ws.pop().unwrap();
        rest.push(w);
    }
    let ghost o0 = out@;
    while rest.len() > 0
        invariant
            out@ + rest@.reverse() =~= o0 + w0,
        decreases rest@.len(),
    {
        let w = rest.pop().unwrap();
        out.push(w);
    }
}

/// Gathers the per-image results in order: successful tiles, failed images
/// and the warnings, adding one summary warning for images without an ICC
/// profile and one for failures; an error when no image succeeded.
pub fn collect_processed_images(
    results: Vec<Result<ProcessedImage, FailedImage>>,
    warnings: Vec<String>,
) -> (r: Result<CollectedImages, AppError>)
    ensures
        ok_tiles(results@).len() == 0 ==> r matches Err(AppError::NoImagesProcessed),
        ok_tiles(results@).len() > 0 ==> (r matches Ok(c) && {
            &&& c.tiles@ == ok_tiles(results@)
            &&& c.failed_images@ == failures(results@)
            &&& c.warnings@.map_values(|w: String| w@) == collected_warnings(warnings@, results@)
        }),
{
    let ghost rs = results@;
    let ghost before = warnings@;
    let mut tiles: Vec<ProcessedTile> = Vec::new();
    let mut failed_images: Vec<FailedImage> = Vec::new();
    let mut warnings = warnings;
    let mut missing: u64 = 0;
    let mut results = results;
    let mut pending: Vec<Result<ProcessedImage, FailedImage>> = Vec::new();
    while results.len() > 0
        invariant
            pending@ + results@.reverse() =~= rs.reverse(),
        decreases results@.len(),
    {
        let x = results.pop().unwrap();
        pending.push(x);
    }
    assert(pending@ =~= rs.reverse());
    let total = pending.len();
    let ghost n = total as int;
    while pending.len() > 0
        invariant
            n == rs.len(),
            n == total,
            pending@.len() <= n,
            pending@ =~= rs.subrange(n - pending@.len(), n as int).reverse(),
            tiles@ == ok_tiles(rs.take(n - pending@.len())),
            failed_images@ == failures(rs.take(n - pending@.len())),
            warnings@ == before + image_warnings(rs.take(n - pending@.len())),
            missing == missing_icc_count(rs.take(n - pending@.len())),
            missing <= n - pending@.len(),
        decreases pending@.len(),
    {
        let ghost k = n - pending@.len();
        let x = pending.pop().unwrap();
        proof {
            assert(rs.take(k + 1).drop_last() =~= rs.take(k));
            assert(rs.take(k + 1).last() == rs[k]);
            assert(x == rs[k]);
            assert(pending@ =~= rs.subrange(k + 1, n as int).reverse());
        }
        match x {
            Ok(p) => {
                if p.missing_icc {
                    missing = missing + 1;
                }
                tiles.push(p.tile);
                push_all(&mut warnings, p.warnings);
                proof {
                    assert(warnings@ =~= before + image_warnings(rs.take(k + 1)));
                }
            },
            Err(f) => {
                failed_images.push(f);
            },
        }
    }
    assert(rs.take(n as int) =~= rs);
    if tiles.len() == 0 {
        return Err(AppError::NoImagesProcessed);
    }
    proof {
        lemma_counts_bounded(rs);
    }
    let ghost w1 = warnings@;
    if missing > 0 {
        let mut msg = String::new();
        push_decimal(&mut msg, missing);
        push_str(&mut msg, " \u{5f20}\u{56fe}\u{7247}\u{672a}\u{5305}\u{542b} ICC profile\u{ff0c}\u{5df2}\u{6309} sRGB \u{5904}\u{7406}");
        warnings.push(msg);
    }
    let ghost w2 = warnings@;
    if failed_images.len() > 0 {
        let mut msg = String::new();
        push_decimal(&mut msg, failed_images.len() as u64);
        push_str(&mut msg, " image(s) failed; continued with ");
        push_decimal(&mut msg, tiles.len() as u64);
        push_str(&mut msg, " successfully processed image(s)");
        warnings.push(msg);
    }
    proof {
        let all = (before + image_warnings(rs)).map_values(|w: String| w@);
        assert(w1.map_values(|w: String| w@) =~= all);
        if missing > 0 {
            assert(w2.map_values(|w: String| w@) =~= all.push(missing_icc_warning(missing as nat)));
        } else {
            assert(w2 == w1);
        }
        if failed_images.len() > 0 {
            assert(warnings@.map_values(|w: String| w@) =~= w2.map_values(|w: String| w@).push(
                partial_failure_warning(failed_images@.len(), tiles@.len()),
            ));
        }
    }
    Ok(CollectedImages { tiles, failed_images, warnings })
}

/// Every image of a job is accounted for exactly once: as a tile or as a
/// failure; and no more images lack an ICC profile than were processed.
pub proof fn law_every_image_accounted(rs: Seq<Result<ProcessedImage, FailedImage>>)
    ensures
        ok_tiles(rs).len() + failures(rs).len() == rs.len(),
        missing_icc_count(rs) <= ok_tiles(rs).len(),
{
    lemma_counts_bounded(rs);
}

/// Above this estimated RGBA working set a warning is given: 2 GiB.
pub const WARN_ESTIMATED_RGBA_BYTES: u64 = 2 * 1024 * 1024 * 1024;

/// Above this estimated RGBA working set a job is refused: 4 GiB.
pub const HARD_ESTIMATED_RGBA_BYTES: u64 = 4 * 1024 * 1024 * 1024;

/// The estimated RGBA working set of a job: the final canvas plus one tile
/// buffer of `max_tile_edge` squared per image, 4 bytes per pixel, each
/// product and the sum saturating at `u64::MAX`.
pub open spec fn estimate_spec(canvas_width: int, canvas_height: int, max_tile_edge: int, image_count: int) -> int {
    let canvas = canvas_width * canvas_height * 4;
    let per_tile = max_tile_edge * max_tile_edge * 4;
    let cache = if per_tile * image_count > u64::MAX { u64::MAX as int } else { per_tile * image_count };
    if canvas + cache > u64::MAX { u64::MAX as int } else { canvas + cache }
}

/// Estimates the RGBA memory a job needs.
pub fn estimate_rgba_bytes(canvas_width: u32, canvas_height: u32, max_tile_edge: u32, image_count: u64) -> (r: u64)
    requires
        canvas_width as int * canvas_height as int * 4 <= u64::MAX,
        max_tile_edge as int * max_tile_edge as int * 4 <= u64::MAX,
    ensures
        r == estimate_spec(canvas_width as int, canvas_height as int, max_tile_edge as int, image_count as int),
{
    let canvas = canvas_width as u64 * canvas_height as u64 * 4;
    let per_tile = max_tile_edge as u64 * max_tile_edge as u64 * 4;
    let cache = match per_tile.checked_mul(image_count) {
        Some(c) => c,
        None => u64::MAX,
    };
    canvas.saturating_add(cache)
}

/// The message for a working set above the hard limit.
pub open spec fn working_set_limit_message(bytes: int) -> Seq<char> {
    "estimated RGBA working set is "@ + two_decimals(gib_hundredths(bytes))
        + "GB, above the 4.00GB safety limit; reduce image count or size settings"@
}

/// The warning for a working set above 2 GiB.
pub open spec fn working_set_warning(bytes: int) -> Seq<char> {
    "estimated RGBA working set is "@ + two_decimals(gib_hundredths(bytes))
        + "GB; processing will limit worker concurrency"@
}

fn gib_hundredths_of(bytes: u64) -> (h: u64)
    ensures
        h == gib_hundredths(bytes as int),
{
    let unit: u128 = 1073741824;
    let scaled = bytes as u128 * 100;
    let q = scaled / unit;
    let rem = scaled % unit;
    let h = if 2 * rem > unit || (2 * rem == unit && q % 2 == 1) {
        q + 1
    } else {
        q
    };
    h as u64
}

/// Refuses a job whose estimated working set exceeds 4 GiB, and warns above
/// 2 GiB.
pub fn check_working_set(bytes: u64, warnings: &mut Vec<String>) -> (r: Result<(), AppError>)
    ensures
        bytes > HARD_ESTIMATED_RGBA_BYTES ==> is_processing_error(r, working_set_limit_message(bytes as int))
            && final(warnings)@ == old(warnings)@,
        bytes <= HARD_ESTIMATED_RGBA_BYTES ==> r is Ok,
        WARN_ESTIMATED_RGBA_BYTES < bytes <= HARD_ESTIMATED_RGBA_BYTES ==> pushed_message(
            final(warnings)@,
            old(warnings)@,
            working_set_warning(bytes as int),
        ),
        bytes <= WARN_ESTIMATED_RGBA_BYTES ==> final(warnings)@ == old(warnings)@,
{
    if bytes > HARD_ESTIMATED_RGBA_BYTES {
        let mut msg = String::from_str("estimated RGBA working set is ");
        push_two_decimals(&mut msg, gib_hundredths_of(bytes));
        push_str(&mut msg, "GB, above the 4.00GB safety limit; reduce image count or size settings");
        return Err(AppError::Processing(msg));
    }
    if bytes > WARN_ESTIMATED_RGBA_BYTES {
        let mut msg = String::from_str("estimated RGBA working set is ");
        push_two_decimals(&mut msg, gib_hundredths_of(bytes));
        push_str(&mut msg, "GB; processing will limit worker concurrency");
        push_message(warnings, msg);
    }
    Ok(())
}

/// The resolved layout from its parts: the content long edge, the tile border
/// (`None` when not given, `Some(None)` when given as a percentage that gave
/// no pixel size), the legacy tile size and the gaps; `None` when a part is
/// missing or the tile size overflows.
pub open spec fn resolved_layout_spec(
    content_long_edge_px: Option<u32>,
    tile_border_px: Option<Option<u32>>,
    legacy_border_size: u32,
    gap_x_px: Option<u32>,
    gap_y_px: Option<u32>,
) -> Option<ResolvedLayout> {
    match (content_long_edge_px, gap_x_px, gap_y_px) {
        (Some(c), Some(gx), Some(gy)) => {
            let tile: Option<int> = match tile_border_px {
                None => Some(legacy_border_size as int),
                Some(None) => None,
                Some(Some(b)) => if c + 2 * b <= u32::MAX { Some(c + 2 * b) } else { None },
            };
            match tile {
                Some(t) => Some(ResolvedLayout { content_long_edge_px: c, tile_size_px: t as u32, gap_x_px: gx, gap_y_px: gy }),
                None => None,
            }
        },
        _ => None,
    }
}

/// Puts together the resolved layout.
pub fn resolve_layout(
    content_long_edge_px: Option<u32>,
    tile_border_px: Option<Option<u32>>,
    legacy_border_size: u32,
    gap_x_px: Option<u32>,
    gap_y_px: Option<u32>,
) -> (r: Option<ResolvedLayout>)
    ensures
        r == resolved_layout_spec(content_long_edge_px, tile_border_px, legacy_border_size, gap_x_px, gap_y_px),
{
    let c = match content_long_edge_px {
        Some(c) => c,
        None => return None,
    };
    let tile = match tile_border_px {
        None => legacy_border_size,
        Some(None) => return None,
        Some(Some(b)) => match b.checked_mul(2) {
            Some(pad) => match c.checked_add(pad) {
                Some(t) => t,
                None => return None,
            },
            None => return None,
        },
    };
    let gx = match gap_x_px {
        Some(g) => g,
        None => return None,
    };
    let gy = match gap_y_px {
        Some(g) => g,
        None => return None,
    };
    Some(ResolvedLayout { content_long_edge_px: c, tile_size_px: tile, gap_x_px: gx, gap_y_px: gy })
}

} // verus!
