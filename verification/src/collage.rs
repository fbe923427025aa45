use vstd::prelude::*;

use crate::config::{background_fill, background_rgb_spec, BackgroundColor, PositionReference};
use crate::error::AppError;
use crate::imaging::{dims_of, image_dims, overlaid, overlay, rgba_fill, rgba_filled, rgba_size_fits};
use crate::text::{concat2, decimal_digits, push_decimal, push_str};

verus! {

/// Largest width or height of a JPEG image.
pub const MAX_JPEG_DIMENSION: u32 = 65535;

/// Where a resized image lands on the final canvas.
#[derive(Debug, Clone, Copy, PartialEq, Eq)]
pub struct TilePlacement {
    pub x: u32,
    pub y: u32,
    pub width: u32,
    pub height: u32,
}

/// The rectangle that overlay positions are expressed against: the whole
/// canvas, or the area covered by the collage content.
#[derive(Debug, Clone, Copy, PartialEq, Eq)]
pub struct PositionReferenceArea {
    pub x: u32,
    pub y: u32,
    pub width: u32,
    pub height: u32,
}

/// `c` is the ceiling of the square root of `n`.
pub open spec fn is_ceil_sqrt(c: int, n: int) -> bool {
    &&& c >= 0
    &&& c * c >= n
    &&& (c == 0 || (c - 1) * (c - 1) < n)
}

/// The near-square grid for `tile_count` tiles: `ceil(sqrt(n))` columns and
/// as many rows as it takes to hold every tile.
pub open spec fn grid_shape_spec(cols: int, rows: int, n: int) -> bool {
    &&& is_ceil_sqrt(cols, n)
    &&& (cols == 0 ==> rows == 0)
    &&& (cols > 0 ==> rows == (n + cols - 1) / cols)
}

/// Number of columns of the near-square grid for `n` tiles.
pub open spec fn grid_cols_of(n: int) -> int {
    choose|c: int| is_ceil_sqrt(c, n)
}

/// Number of rows of the near-square grid for `n` tiles.
pub open spec fn grid_rows_of(n: int) -> int {
    let c = grid_cols_of(n);
    if c == 0 {
        0
    } else {
        (n + c - 1) / c
    }
}

/// Number of columns and rows of the near-square grid for `tile_count` tiles.
pub fn grid_shape(tile_count: u32) -> (shape: (u32, u32))
    ensures
        grid_shape_spec(shape.0 as int, shape.1 as int, tile_count as int),
        shape.0 == grid_cols_of(tile_count as int),
        shape.1 == grid_rows_of(tile_count as int),
{
    let n = tile_count as u64;
    let mut cols: u64 = 0;
    while cols * cols < n
        invariant
            cols <= 65536,
            cols * cols <= 4294967296,
            cols == 0 || (cols - 1) * (cols - 1) < n,
            n <= u32::MAX,
        decreases 65536 - cols,
    {
        proof {
            assert(cols < 65536) by (nonlinear_arith)
                requires
                    cols * cols < n,
                    n <= 4294967295,
                    cols <= 65536,
            ;
        }
        proof {
            assert((cols + 1) * (cols + 1) <= 4294967296) by (nonlinear_arith)
                requires
                    cols < 65536,
            ;
        }
        cols += 1;
    }
    proof {
        lemma_ceil_sqrt_unique(cols as int, grid_cols_of(n as int), n as int);
    }
    if cols == 0 {
        return (0, 0);
    }
    let rows = (n + cols - 1) / cols;
    proof {
        assert(rows <= n) by (nonlinear_arith)
            requires
                cols >= 1,
                rows == (n + cols - 1) / (cols as int),
        ;
    }
    (cols as u32, rows as u32)
}

/// Total length of `count` tiles of `tile_size` separated by `gap`.
pub open spec fn spaced_extent_value(count: int, tile_size: int, gap: int) -> int {
    if count == 0 {
        0
    } else {
        count * tile_size + (count - 1) * gap
    }
}

/// The message for an extent that does not fit in 32 bits.
pub open spec fn extent_overflow_message(count: int, tile_size: int, gap: int, label: Seq<char>) -> Seq<
    char,
> {
    if count * tile_size <= u32::MAX && (count - 1) * gap > u32::MAX {
        label + " gap calculation overflowed"@
    } else {
        label + " calculation overflowed"@
    }
}

/// Length of `count` tiles separated by gaps, or an error naming `label` when
/// it does not fit in 32 bits.
fn spaced_extent(count: u32, tile_size: u32, gap: u32, label: &str) -> (r: Result<u32, AppError>)
    ensures
        spaced_extent_value(count as int, tile_size as int, gap as int) <= u32::MAX ==> r == Ok::<
            u32,
            AppError,
        >(spaced_extent_value(count as int, tile_size as int, gap as int) as u32),
        spaced_extent_value(count as int, tile_size as int, gap as int) > u32::MAX ==> (r matches Err(
            AppError::Processing(msg),
        ) && msg@ == extent_overflow_message(count as int, tile_size as int, gap as int, label@)),
{
    if count == 0 {
        return Ok(0);
    }
    proof {
        assert(count * tile_size >= 0 && (count - 1) * gap >= 0) by (nonlinear_arith)
            requires
                count >= 1,
        ;
    }
    let tiles = match count.checked_mul(tile_size) {
        Some(t) => t,
        None => return Err(AppError::Processing(concat2(label, " calculation overflowed"))),
    };
    let gaps = match (count - 1).checked_mul(gap) {
        Some(g) => g,
        None => return Err(AppError::Processing(concat2(label, " gap calculation overflowed"))),
    };
    match tiles.checked_add(gaps) {
        Some(total) => Ok(total),
        None => Err(AppError::Processing(concat2(label, " calculation overflowed"))),
    }
}

/// Width and height of a grid of square tiles with the given gaps, or an
/// error when either does not fit in 32 bits.
pub fn grid_dimensions(grid_cols: u32, grid_rows: u32, tile_size: u32, gap_x: u32, gap_y: u32) -> (r:
    Result<(u32, u32), AppError>)
    ensures
        ({
            let w = spaced_extent_value(grid_cols as int, tile_size as int, gap_x as int);
            let h = spaced_extent_value(grid_rows as int, tile_size as int, gap_y as int);
            &&& (w <= u32::MAX && h <= u32::MAX) ==> r == Ok::<(u32, u32), AppError>(
                (w as u32, h as u32),
            )
            &&& w > u32::MAX ==> (r matches Err(AppError::Processing(msg)) && msg@
                == extent_overflow_message(
                grid_cols as int,
                tile_size as int,
                gap_x as int,
                "collage width"@,
            ))
            &&& (w <= u32::MAX && h > u32::MAX) ==> (r matches Err(AppError::Processing(msg))
                && msg@ == extent_overflow_message(
                grid_rows as int,
                tile_size as int,
                gap_y as int,
                "collage height"@,
            ))
        }),
{
    let width = spaced_extent(grid_cols, tile_size, gap_x, "collage width")?;
    let height = spaced_extent(grid_rows, tile_size, gap_y, "collage height")?;
    Ok((width, height))
}

/// Every tile has a cell: the grid is near-square (`cols - 1 <= rows <= cols`),
/// holds all `n` tiles, and its last row is not empty.
pub proof fn law_grid_holds_all_tiles(n: u32, cols: u32, rows: u32)
    requires
        grid_shape_spec(cols as int, rows as int, n as int),
        n >= 1,
    ensures
        cols * rows >= n,
        (rows - 1) * cols < n,
        cols - 1 <= rows <= cols,
{
    let c = cols as int;
    let r = rows as int;
    let m = n as int;
    assert(c >= 1) by (nonlinear_arith)
        requires
            c * c >= m,
            m >= 1,
            c >= 0,
    ;
    assert(c * r >= m && (r - 1) * c < m) by (nonlinear_arith)
        requires
            c >= 1,
            r == (m + c - 1) / c,
    ;
    assert(r <= c) by (nonlinear_arith)
        requires
            c >= 1,
            r == (m + c - 1) / c,
            c * c >= m,
    ;
    assert(c - 1 <= r) by (nonlinear_arith)
        requires
            c >= 1,
            c * r >= m,
            (c - 1) * (c - 1) < m,
    ;
}

/// A resized image and the canvas position of its top-left corner.
pub struct ProcessedTile {
    pub image: image::DynamicImage,
    pub x: u32,
    pub y: u32,
}

/// `canvas` after the first `k` tiles have been blended onto it, in order,
/// each at its own position; tiles with an empty side are skipped.
pub open spec fn pasted_at_positions(canvas: image::DynamicImage, tiles: Seq<ProcessedTile>, k: int) -> image::DynamicImage
    decreases k,
{
    if k <= 0 {
        canvas
    } else {
        let prev = pasted_at_positions(canvas, tiles, k - 1);
        let t = tiles[k - 1];
        if image_dims(t.image).0 != 0 && image_dims(t.image).1 != 0 {
            overlaid(prev, t.image, t.x as i64, t.y as i64)
        } else {
            prev
        }
    }
}

/// Pastes pre-resized tiles at their positions on a canvas of the background
/// colour (tiles with an empty side are skipped); an error when there are no
/// tiles.
pub fn create_final_collage_image(
    tiles: &[ProcessedTile],
    background: &BackgroundColor,
    canvas_width: u32,
    canvas_height: u32,
) -> (r: Result<image::DynamicImage, AppError>)
    requires
        rgba_size_fits(canvas_width as int, canvas_height as int),
    ensures
        tiles@.len() == 0 ==> r matches Err(AppError::NoImagesProcessed),
        tiles@.len() > 0 ==> (r matches Ok(img) && image_dims(img) == (canvas_width, canvas_height)
            && img == pasted_at_positions(
            rgba_fill(canvas_width, canvas_height, background_fill(*background)),
            tiles@,
            tiles@.len() as int,
        )),
{
    if tiles.len() == 0 {
        return Err(AppError::NoImagesProcessed);
    }
    let rgb = background.to_rgb();
    let fill = [rgb[0], rgb[1], rgb[2], 255];
    assert(fill@ =~= background_fill(*background));
    let mut canvas = rgba_filled(canvas_width, canvas_height, fill);
    let ghost start = canvas;
    let mut i: usize = 0;
    while i < tiles.len()
        invariant
            i <= tiles@.len(),
            image_dims(canvas) == (canvas_width, canvas_height),
            start == rgba_fill(canvas_width, canvas_height, background_fill(*background)),
            canvas == pasted_at_positions(start, tiles@, i as int),
        decreases tiles@.len() - i,
    {
        let tile = &tiles[i];
        let (w, h) = dims_of(&tile.image);
        if w != 0 && h != 0 {
            overlay(&mut canvas, &tile.image, tile.x as i64, tile.y as i64);
        }
        i += 1;
    }
    Ok(canvas)
}

/// The integer geometry of the final canvas: where the scaled collage sits
/// and how large the canvas is.
#[derive(Debug, Clone, Copy, PartialEq, Eq)]
pub struct CanvasGeometry {
    pub content_x: u32,
    pub content_y: u32,
    pub content_width: u32,
    pub content_height: u32,
    pub canvas_width: u32,
    pub canvas_height: u32,
}

impl CanvasGeometry {
    /// The area that overlay positions refer to: the whole canvas, or the
    /// collage content inside the outer borders.
    pub fn position_reference_area(&self, reference: PositionReference) -> (a: PositionReferenceArea)
        ensures
            reference == PositionReference::Canvas ==> a == (PositionReferenceArea {
                x: 0,
                y: 0,
                width: self.canvas_width,
                height: self.canvas_height,
            }),
            reference == PositionReference::Content ==> a == (PositionReferenceArea {
                x: self.content_x,
                y: self.content_y,
                width: self.content_width,
                height: self.content_height,
            }),
    {
        match reference {
            PositionReference::Canvas => PositionReferenceArea {
                x: 0,
                y: 0,
                width: self.canvas_width,
                height: self.canvas_height,
            },
            PositionReference::Content => PositionReferenceArea {
                x: self.content_x,
                y: self.content_y,
                width: self.content_width,
                height: self.content_height,
            },
        }
    }
}

/// How the final canvas is laid out before the collage is scaled into it.
#[derive(Debug, Clone, Copy, PartialEq, Eq, Structural)]
pub enum GeometryPlan {
    /// A canvas of the target aspect ratio; the collage is scaled to fit the
    /// area inside the outer borders and centred there.
    Target { canvas_width: u32, canvas_height: u32, available_width: u32, available_height: u32 },
    /// A canvas that follows the collage: its long edge is scaled to
    /// `inner_size`, then the outer borders are added.
    Auto { inner_size: u32, double_border: u32 },
}

/// The message for a target canvas too small for its borders.
pub open spec fn canvas_too_small_message(width: int, height: int, border: int) -> Seq<char> {
    "final dimensions "@ + decimal_digits(width as nat) + "x"@ + decimal_digits(height as nat)
        + " px are too small for "@ + decimal_digits(border as nat) + " px outer borders"@
}

/// What planning the final canvas gives: `target` is `None` without a target
/// aspect ratio, `Some(None)` when the ratio gave no dimensions, else the
/// canvas dimensions of the ratio.
pub open spec fn plan_spec(outer_border: int, final_size: int, target: Option<Option<(u32, u32)>>) -> Result<
    GeometryPlan,
    Seq<char>,
> {
    let double = 2 * outer_border;
    if double > u32::MAX {
        Err("outer border calculation overflowed"@)
    } else {
        match target {
            None => Ok(
                GeometryPlan::Auto {
                    inner_size: if final_size - double >= 1 {
                        (final_size - double) as u32
                    } else {
                        1
                    },
                    double_border: double as u32,
                },
            ),
            Some(None) => Err("target aspect ratio could not be converted to final dimensions"@),
            Some(Some((w, h))) => if w > 65535 || h > 65535 {
                Err(jpeg_limit_message("final dimensions "@, w as int, h as int))
            } else if w <= double || h <= double {
                Err(canvas_too_small_message(w as int, h as int, outer_border))
            } else {
                Ok(
                    GeometryPlan::Target {
                        canvas_width: w,
                        canvas_height: h,
                        available_width: (w - double) as u32,
                        available_height: (h - double) as u32,
                    },
                )
            },
        }
    }
}

/// Plans the final canvas from the outer border, the output size and the
/// target canvas dimensions, if any.
pub fn plan_final_geometry(outer_border: u32, final_size: u32, target: Option<Option<(u32, u32)>>) -> (r: Result<
    GeometryPlan,
    AppError,
>)
    ensures
        match plan_spec(outer_border as int, final_size as int, target) {
            Ok(plan) => r == Ok::<GeometryPlan, AppError>(plan),
            Err(msg) => r matches Err(AppError::Processing(m)) && m@ == msg,
        },
{
    let double = match outer_border.checked_mul(2) {
        Some(d) => d,
        None => return Err(AppError::Processing(String::from_str("outer border calculation overflowed"))),
    };
    match target {
        None => {
            let inner = if final_size > double && final_size - double >= 1 {
                final_size - double
            } else {
                1
            };
            Ok(GeometryPlan::Auto { inner_size: inner, double_border: double })
        },
        Some(None) => Err(
            AppError::Processing(
                String::from_str("target aspect ratio could not be converted to final dimensions"),
            ),
        ),
        Some(Some((w, h))) => {
            if w > 65535 || h > 65535 {
                return Err(jpeg_limit_error("final dimensions ", w, h));
            }
            if w <= double || h <= double {
                let mut msg = String::from_str("final dimensions ");
                push_decimal(&mut msg, w as u64);
                push_str(&mut msg, "x");
                push_decimal(&mut msg, h as u64);
                push_str(&mut msg, " px are too small for ");
                push_decimal(&mut msg, outer_border as u64);
                push_str(&mut msg, " px outer borders");
                return Err(AppError::Processing(msg));
            }
            Ok(
                GeometryPlan::Target {
                    canvas_width: w,
                    canvas_height: h,
                    available_width: w - double,
                    available_height: h - double,
                },
            )
        },
    }
}

/// The scaled collage sizes that a plan admits: at least 1, and for a target
/// canvas at most the available area.
pub open spec fn scaled_sizes_fit(plan: GeometryPlan, scaled_width: int, scaled_height: int) -> bool {
    &&& scaled_width >= 1
    &&& scaled_height >= 1
    &&& (plan matches GeometryPlan::Target { available_width, available_height, .. } ==> scaled_width
        <= available_width && scaled_height <= available_height)
}

/// The final canvas geometry from its plan and the scaled collage size.
pub open spec fn final_geometry_spec(plan: GeometryPlan, outer_border: int, scaled_width: int, scaled_height: int) -> Result<
    CanvasGeometry,
    Seq<char>,
> {
    match plan {
        GeometryPlan::Target { canvas_width, canvas_height, available_width, available_height } => Ok(
            CanvasGeometry {
                content_x: (outer_border + (available_width - scaled_width) / 2) as u32,
                content_y: (outer_border + (available_height - scaled_height) / 2) as u32,
                content_width: scaled_width as u32,
                content_height: scaled_height as u32,
                canvas_width,
                canvas_height,
            },
        ),
        GeometryPlan::Auto { double_border, .. } => if scaled_width + double_border > u32::MAX {
            Err("final width calculation overflowed"@)
        } else if scaled_height + double_border > u32::MAX {
            Err("final height calculation overflowed"@)
        } else {
            Ok(
                CanvasGeometry {
                    content_x: outer_border as u32,
                    content_y: outer_border as u32,
                    content_width: scaled_width as u32,
                    content_height: scaled_height as u32,
                    canvas_width: (scaled_width + double_border) as u32,
                    canvas_height: (scaled_height + double_border) as u32,
                },
            )
        },
    }
}

/// The scaled collage always lies inside the outer borders of the canvas, and
/// on a target canvas it is centred (its two margins differ by at most 1).
pub proof fn law_content_inside_borders(
    outer_border: u32,
    final_size: u32,
    target: Option<Option<(u32, u32)>>,
    scaled_width: u32,
    scaled_height: u32,
)
    requires
        plan_spec(outer_border as int, final_size as int, target) is Ok,
        scaled_sizes_fit(
            plan_spec(outer_border as int, final_size as int, target)->Ok_0,
            scaled_width as int,
            scaled_height as int,
        ),
        final_geometry_spec(
            plan_spec(outer_border as int, final_size as int, target)->Ok_0,
            outer_border as int,
            scaled_width as int,
            scaled_height as int,
        ) is Ok,
    ensures
        ({
            let plan = plan_spec(outer_border as int, final_size as int, target)->Ok_0;
            let g = final_geometry_spec(plan, outer_border as int, scaled_width as int, scaled_height as int)->Ok_0;
            &&& g.content_x >= outer_border
            &&& g.content_y >= outer_border
            &&& g.content_x + g.content_width + outer_border <= g.canvas_width
            &&& g.content_y + g.content_height + outer_border <= g.canvas_height
            &&& (plan is Target ==> {
                let left = g.content_x - outer_border;
                let right = g.canvas_width - outer_border - g.content_x - g.content_width;
                let top = g.content_y - outer_border;
                let bottom = g.canvas_height - outer_border - g.content_y - g.content_height;
                &&& left <= right <= left + 1
                &&& top <= bottom <= top + 1
            })
        }),
{
}

/// The final canvas geometry from its plan and the scaled collage size: on a
/// target canvas the collage is centred in the area inside the borders
/// (rounding towards the top left); otherwise the canvas is the collage plus
/// the borders, or an error when that does not fit in 32 bits.
pub fn finish_final_geometry(plan: GeometryPlan, outer_border: u32, scaled_width: u32, scaled_height: u32) -> (r: Result<
    CanvasGeometry,
    AppError,
>)
    requires
        scaled_sizes_fit(plan, scaled_width as int, scaled_height as int),
        plan matches GeometryPlan::Target { canvas_width, canvas_height, available_width, available_height }
            ==> available_width + 2 * outer_border == canvas_width && available_height + 2 * outer_border
            == canvas_height,
        plan matches GeometryPlan::Auto { double_border, .. } ==> double_border == 2 * outer_border,
    ensures
        match final_geometry_spec(plan, outer_border as int, scaled_width as int, scaled_height as int) {
            Ok(g) => r == Ok::<CanvasGeometry, AppError>(g),
            Err(msg) => r matches Err(AppError::Processing(m)) && m@ == msg,
        },
{
    match plan {
        GeometryPlan::Target { canvas_width, canvas_height, available_width, available_height } => {
            Ok(
                CanvasGeometry {
                    content_x: outer_border + (available_width - scaled_width) / 2,
                    content_y: outer_border + (available_height - scaled_height) / 2,
                    content_width: scaled_width,
                    content_height: scaled_height,
                    canvas_width,
                    canvas_height,
                },
            )
        },
        GeometryPlan::Auto { double_border, .. } => {
            let canvas_width = match scaled_width.checked_add(double_border) {
                Some(w) => w,
                None => return Err(
                    AppError::Processing(String::from_str("final width calculation overflowed")),
                ),
            };
            let canvas_height = match scaled_height.checked_add(double_border) {
                Some(h) => h,
                None => return Err(
                    AppError::Processing(String::from_str("final height calculation overflowed")),
                ),
            };
            Ok(
                CanvasGeometry {
                    content_x: outer_border,
                    content_y: outer_border,
                    content_width: scaled_width,
                    content_height: scaled_height,
                    canvas_width,
                    canvas_height,
                },
            )
        },
    }
}

/// Corners `(x0, y0, x1, y1)` of an image centred in cell `index` of the
/// unscaled grid (cells filled row by row; an image larger than the cell
/// starts at the cell's corner).
pub open spec fn tile_corners_spec(
    index: int,
    grid_cols: int,
    tile_size: int,
    gap_x: int,
    gap_y: int,
    image_width: int,
    image_height: int,
) -> (int, int, int, int) {
    let tile_x = (index % grid_cols) * (tile_size + gap_x);
    let tile_y = (index / grid_cols) * (tile_size + gap_y);
    let offset_x = if tile_size > image_width { (tile_size - image_width) / 2 } else { 0 };
    let offset_y = if tile_size > image_height { (tile_size - image_height) / 2 } else { 0 };
    (
        tile_x + offset_x,
        tile_y + offset_y,
        tile_x + offset_x + image_width,
        tile_y + offset_y + image_height,
    )
}

/// An image no larger than its cell lies inside the cell, centred (its two
/// margins on each axis differ by at most 1), and images in different cells
/// never overlap.
pub proof fn law_tiles_stay_in_their_cells(
    i: int,
    j: int,
    grid_cols: int,
    tile_size: int,
    gap_x: int,
    gap_y: int,
    wi: int,
    hi: int,
    wj: int,
    hj: int,
)
    requires
        0 <= i,
        0 <= j,
        i != j,
        grid_cols > 0,
        tile_size >= 0,
        gap_x >= 0,
        gap_y >= 0,
        0 <= wi <= tile_size,
        0 <= hi <= tile_size,
        0 <= wj <= tile_size,
        0 <= hj <= tile_size,
    ensures
        ({
            let a = tile_corners_spec(i, grid_cols, tile_size, gap_x, gap_y, wi, hi);
            let cell_x = (i % grid_cols) * (tile_size + gap_x);
            let cell_y = (i / grid_cols) * (tile_size + gap_y);
            &&& cell_x <= a.0 && a.2 <= cell_x + tile_size
            &&& cell_y <= a.1 && a.3 <= cell_y + tile_size
            &&& (a.0 - cell_x) <= (cell_x + tile_size - a.2) <= (a.0 - cell_x) + 1
            &&& (a.1 - cell_y) <= (cell_y + tile_size - a.3) <= (a.1 - cell_y) + 1
        }),
        ({
            let a = tile_corners_spec(i, grid_cols, tile_size, gap_x, gap_y, wi, hi);
            let b = tile_corners_spec(j, grid_cols, tile_size, gap_x, gap_y, wj, hj);
            a.2 <= b.0 || b.2 <= a.0 || a.3 <= b.1 || b.3 <= a.1
        }),
{
    let ci = i % grid_cols;
    let ri = i / grid_cols;
    let cj = j % grid_cols;
    let rj = j / grid_cols;
    let sx = tile_size + gap_x;
    let sy = tile_size + gap_y;
    assert(i == ri * grid_cols + ci && j == rj * grid_cols + cj) by (nonlinear_arith)
        requires
            ci == i % grid_cols,
            ri == i / grid_cols,
            cj == j % grid_cols,
            rj == j / grid_cols,
            grid_cols > 0,
    ;
    if ci != cj {
        if ci < cj {
            assert(ci * sx + sx <= cj * sx) by (nonlinear_arith)
                requires
                    ci < cj,
                    sx >= 0,
            ;
        } else {
            assert(cj * sx + sx <= ci * sx) by (nonlinear_arith)
                requires
                    cj < ci,
                    sx >= 0,
            ;
        }
    } else {
        assert(ri != rj);
        if ri < rj {
            assert(ri * sy + sy <= rj * sy) by (nonlinear_arith)
                requires
                    ri < rj,
                    sy >= 0,
            ;
        } else {
            assert(rj * sy + sy <= ri * sy) by (nonlinear_arith)
                requires
                    rj < ri,
                    sy >= 0,
            ;
        }
    }
}

/// The unscaled corners of an image placed in its grid cell.
pub fn tile_corners(
    index: u32,
    grid_cols: u32,
    tile_size: u32,
    gap_x: u32,
    gap_y: u32,
    image_width: u32,
    image_height: u32,
) -> (c: (u32, u32, u32, u32))
    requires
        grid_cols > 0,
        tile_size + gap_x <= u32::MAX,
        tile_size + gap_y <= u32::MAX,
        tile_corners_spec(
            index as int,
            grid_cols as int,
            tile_size as int,
            gap_x as int,
            gap_y as int,
            image_width as int,
            image_height as int,
        ).2 <= u32::MAX,
        tile_corners_spec(
            index as int,
            grid_cols as int,
            tile_size as int,
            gap_x as int,
            gap_y as int,
            image_width as int,
            image_height as int,
        ).3 <= u32::MAX,
    ensures
        (c.0 as int, c.1 as int, c.2 as int, c.3 as int) == tile_corners_spec(
            index as int,
            grid_cols as int,
            tile_size as int,
            gap_x as int,
            gap_y as int,
            image_width as int,
            image_height as int,
        ),
{
    let col = index % grid_cols;
    let row = index / grid_cols;
    let step_x = tile_size + gap_x;
    let step_y = tile_size + gap_y;
    proof {
        assert(col * step_x >= 0 && row * step_y >= 0) by (nonlinear_arith)
            requires
                col >= 0,
                row >= 0,
                step_x >= 0,
                step_y >= 0,
        ;
    }
    let tile_x = col * step_x;
    let tile_y = row * step_y;
    let offset_x = if tile_size > image_width { (tile_size - image_width) / 2 } else { 0 };
    let offset_y = if tile_size > image_height { (tile_size - image_height) / 2 } else { 0 };
    (
        tile_x + offset_x,
        tile_y + offset_y,
        tile_x + offset_x + image_width,
        tile_y + offset_y + image_height,
    )
}

/// Where a tile lands once its corners are scaled: the scaled top-left corner
/// moved by the content origin, and a size of at least 1 pixel.
pub fn placement_from_scaled(x0: u32, y0: u32, x1: u32, y1: u32, content_x: u32, content_y: u32) -> (p: TilePlacement)
    requires
        x0 + content_x <= u32::MAX,
        y0 + content_y <= u32::MAX,
        x1 + content_x <= u32::MAX,
        y1 + content_y <= u32::MAX,
    ensures
        p.x == x0 + content_x,
        p.y == y0 + content_y,
        p.width == if x1 > x0 { x1 - x0 } else { 1 },
        p.height == if y1 > y0 { y1 - y0 } else { 1 },
{
    let left = x0 + content_x;
    let top = y0 + content_y;
    let right = x1 + content_x;
    let bottom = y1 + content_y;
    TilePlacement {
        x: left,
        y: top,
        width: if right > left { right - left } else { 1 },
        height: if bottom > top { bottom - top } else { 1 },
    }
}

/// The message for collage dimensions above the JPEG limit.
pub open spec fn jpeg_limit_message(prefix: Seq<char>, width: int, height: int) -> Seq<char> {
    prefix + decimal_digits(width as nat) + "x"@ + decimal_digits(height as nat)
        + " px exceed JPEG limit 65535 px"@
}

/// Builds `<prefix><width>x<height> px exceed JPEG limit 65535 px`.
pub fn jpeg_limit_error(prefix: &str, width: u32, height: u32) -> (e: AppError)
    ensures
        e matches AppError::Processing(msg) && msg@ == jpeg_limit_message(prefix@, width as int, height as int),
{
    let mut msg = String::from_str(prefix);
    push_decimal(&mut msg, width as u64);
    push_str(&mut msg, "x");
    push_decimal(&mut msg, height as u64);
    push_str(&mut msg, " px exceed JPEG limit 65535 px");
    AppError::Processing(msg)
}

/// Some tile is not `size` x `size`.
pub open spec fn some_tile_not_square_of(tiles: Seq<ProcessedTile>, size: u32) -> bool {
    exists|i: int| 0 <= i < tiles.len() && image_dims(#[trigger] tiles[i].image) != (size, size)
}

/// `canvas` after the first `k` tiles have been blended onto it, in order,
/// tile `i` at column `i % cols` and row `i / cols` of a grid of `size`
/// pixel cells.
pub open spec fn pasted_on_grid(
    canvas: image::DynamicImage,
    tiles: Seq<ProcessedTile>,
    cols: int,
    size: int,
    k: int,
) -> image::DynamicImage
    decreases k,
{
    if k <= 0 {
        canvas
    } else {
        overlaid(
            pasted_on_grid(canvas, tiles, cols, size, k - 1),
            tiles[k - 1].image,
            ((k - 1) % cols * size) as i64,
            ((k - 1) / cols * size) as i64,
        )
    }
}

/// Lays square tiles of the configured tile size row by row on a grid (the
/// positions stored in the tiles are ignored). Errors, in this order: no
/// tiles; no tile size; a collage side that overflows or exceeds the JPEG
/// limit; a canvas too large to address; a tile of another size.
pub fn create_collage_image(
    tiles: &[ProcessedTile],
    tile_size_px: Option<u32>,
    background: &BackgroundColor,
) -> (r: Result<image::DynamicImage, AppError>)
    requires
        tiles@.len() <= u32::MAX,
    ensures
        tiles@.len() == 0 ==> r matches Err(AppError::NoImagesProcessed),
        tiles@.len() > 0 && tile_size_px is None ==> (r matches Err(AppError::Processing(msg))
            && msg@ == "tile size calculation overflowed"@),
        r matches Ok(img) ==> ({
            let n = tiles@.len() as int;
            let bs = tile_size_px.unwrap() as int;
            &&& n > 0
            &&& tile_size_px is Some
            &&& !some_tile_not_square_of(tiles@, bs as u32)
            &&& grid_cols_of(n) * bs <= MAX_JPEG_DIMENSION
            &&& grid_rows_of(n) * bs <= MAX_JPEG_DIMENSION
            &&& rgba_size_fits(grid_cols_of(n) * bs, grid_rows_of(n) * bs)
            &&& image_dims(img) == ((grid_cols_of(n) * bs) as u32, (grid_rows_of(n) * bs) as u32)
            &&& img == pasted_on_grid(
                rgba_fill((grid_cols_of(n) * bs) as u32, (grid_rows_of(n) * bs) as u32, background_fill(*background)),
                tiles@,
                grid_cols_of(n),
                bs,
                n,
            )
        }),
        ({
            let n = tiles@.len() as int;
            let bs = tile_size_px.unwrap() as int;
            n > 0 && tile_size_px is Some && grid_cols_of(n) * bs <= MAX_JPEG_DIMENSION && grid_rows_of(n) * bs <= MAX_JPEG_DIMENSION
                && rgba_size_fits(grid_cols_of(n) * bs, grid_rows_of(n) * bs)
                && !some_tile_not_square_of(tiles@, bs as u32)
        }) ==> r is Ok,
{
    if tiles.len() == 0 {
        return Err(AppError::NoImagesProcessed);
    }
    let num = tiles.len() as u32;
    let (grid_cols, grid_rows) = grid_shape(num);
    let bs = match tile_size_px {
        Some(bs) => bs,
        None => {
            return Err(AppError::Processing(String::from_str("tile size calculation overflowed")));
        },
    };
    let total_width = match grid_cols.checked_mul(bs) {
        Some(w) => w,
        None => {
            return Err(AppError::Processing(String::from_str("collage width calculation overflowed")));
        },
    };
    let total_height = match grid_rows.checked_mul(bs) {
        Some(h) => h,
        None => {
            return Err(
                AppError::Processing(String::from_str("collage height calculation overflowed")),
            );
        },
    };
    if total_width > MAX_JPEG_DIMENSION || total_height > MAX_JPEG_DIMENSION {
        return Err(jpeg_limit_error("collage dimensions ", total_width, total_height));
    }
    proof {
        assert(total_width * total_height * 4 <= 65535 * 65535 * 4) by (nonlinear_arith)
            requires
                total_width <= 65535,
                total_height <= 65535,
        ;
    }
    let canvas_bytes: u64 = total_width as u64 * total_height as u64 * 4;
    if canvas_bytes > usize::MAX as u64 {
        return Err(AppError::Processing(String::from_str("collage canvas is too large to address")));
    }
    proof {
        assert(grid_cols >= 1) by (nonlinear_arith)
            requires
                grid_cols * grid_cols >= num,
                num >= 1,
        ;
    }
    let rgb = background.to_rgb();
    let fill = [rgb[0], rgb[1], rgb[2], 255];
    assert(fill@ =~= background_fill(*background));
    let mut canvas = rgba_filled(total_width, total_height, fill);
    let ghost start = canvas;
    let mut index: usize = 0;
    while index < tiles.len()
        invariant
            index <= tiles@.len(),
            tiles@.len() == num,
            num > 0,
            grid_cols >= 1,
            grid_shape_spec(grid_cols as int, grid_rows as int, num as int),
            tile_size_px == Some(bs),
            grid_cols == grid_cols_of(num as int),
            grid_rows == grid_rows_of(num as int),
            total_width == grid_cols * bs,
            total_height == grid_rows * bs,
            total_width <= MAX_JPEG_DIMENSION,
            total_height <= MAX_JPEG_DIMENSION,
            image_dims(canvas) == (total_width, total_height),
            rgba_size_fits(total_width as int, total_height as int),
            start == rgba_fill(total_width, total_height, background_fill(*background)),
            canvas == pasted_on_grid(start, tiles@, grid_cols as int, bs as int, index as int),
            forall|i: int| 0 <= i < index ==> image_dims(#[trigger] tiles@[i].image) == (bs, bs),
        decreases tiles@.len() - index,
    {
        let tile = &tiles[index];
        let (w, h) = dims_of(&tile.image);
        if w != bs || h != bs {
            assert(image_dims(tiles@[index as int].image) != (bs, bs));
            return Err(
                AppError::Processing(String::from_str("processed tile size does not match border_size")),
            );
        }
        let i = index as u32;
        let col = i % grid_cols;
        let row = i / grid_cols;
        proof {
            law_grid_holds_all_tiles(num, grid_cols, grid_rows);
            assert(col * bs <= total_width) by (nonlinear_arith)
                requires
                    col < grid_cols,
                    total_width == grid_cols * bs,
            ;
            assert(row < grid_rows) by (nonlinear_arith)
                requires
                    row == i / grid_cols,
                    i < num,
                    grid_cols >= 1,
                    grid_cols * grid_rows >= num,
            ;
            assert(row * bs <= total_height) by (nonlinear_arith)
                requires
                    row < grid_rows,
                    total_height == grid_rows * bs,
            ;
        }
        let x = col * bs;
        let y = row * bs;
        overlay(&mut canvas, &tile.image, x as i64, y as i64);
        index += 1;
    }
    assert(!some_tile_not_square_of(tiles@, bs));
    Ok(canvas)
}

proof fn lemma_ceil_sqrt_unique(a: int, b: int, n: int)
    requires
        is_ceil_sqrt(a, n),
        is_ceil_sqrt(b, n),
    ensures
        a == b,
{
    if a < b {
        assert(a * a <= (b - 1) * (b - 1)) by (nonlinear_arith)
            requires
                0 <= a <= b - 1,
        ;
    } else if b < a {
        assert(b * b <= (a - 1) * (a - 1)) by (nonlinear_arith)
            requires
                0 <= b <= a - 1,
        ;
    }
}

/// Which tile a pixel of a row-major grid of square tiles falls in: the
/// tile index, its row, and the pixel position inside the tile; `None` when
/// the cell holds no tile (background).
pub open spec fn grid_pixel_source(x: int, y: int, tile_size: int, grid_cols: int, tile_count: int) -> Option<(int, int, int, int)> {
    let col = x / tile_size;
    let row = y / tile_size;
    let index = row * grid_cols + col;
    if index >= tile_count {
        None
    } else {
        Some((index, row, x % tile_size, y % tile_size))
    }
}

/// Locates the tile that supplies pixel `(x, y)` of a collage laid out as a
/// row-major grid of `tile_size` squares with `grid_cols` columns.
pub fn collage_pixel_source(x: u32, y: u32, tile_size: u32, grid_cols: u32, tile_count: usize) -> (r: Option<(usize, u32, u32, u32)>)
    requires
        tile_size > 0,
    ensures
        r matches Some(s) ==> grid_pixel_source(x as int, y as int, tile_size as int, grid_cols as int, tile_count as int) == Some((s.0 as int, s.1 as int, s.2 as int, s.3 as int)),
        r is None ==> grid_pixel_source(x as int, y as int, tile_size as int, grid_cols as int, tile_count as int) is None,
{
    let col = x / tile_size;
    let row = y / tile_size;
    proof {
        assert(row as u64 * grid_cols as u64 <= 4294967295u64 * 4294967295u64) by (nonlinear_arith)
            requires
                row <= 4294967295u64,
                grid_cols <= 4294967295u64,
        ;
    }
    let index = row as u64 * grid_cols as u64 + col as u64;
    if index >= tile_count as u64 {
        return None;
    }
    Some((index as usize, row, x % tile_size, y % tile_size))
}

} // verus!
