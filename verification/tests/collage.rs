use image::{DynamicImage, GenericImageView, Rgba, RgbaImage};
use piclayout::collage::{
    collage_pixel_source, create_collage_image, create_final_collage_image, finish_final_geometry,
    grid_dimensions, grid_shape, placement_from_scaled, plan_final_geometry, tile_corners,
    CanvasGeometry, GeometryPlan, PositionReferenceArea, ProcessedTile,
};
use piclayout::config::{BackgroundColor, PositionReference};
use piclayout::error::AppError;

#[test]
fn final_collage_overlays_pre_resized_tiles_without_scaling() {
    let tile = ProcessedTile {
        image: DynamicImage::ImageRgba8(RgbaImage::from_pixel(2, 2, Rgba([200, 0, 0, 255]))),
        x: 3,
        y: 4,
    };

    let out = create_final_collage_image(&[tile], &BackgroundColor::White, 10, 10)
        .unwrap()
        .to_rgba8();

    assert_eq!(out.get_pixel(3, 4).0, [200, 0, 0, 255]);
    assert_eq!(out.get_pixel(4, 5).0, [200, 0, 0, 255]);
    assert_eq!(out.get_pixel(5, 5).0, [255, 255, 255, 255]);
}

#[test]
fn final_collage_needs_at_least_one_tile() {
    let result = create_final_collage_image(&[], &BackgroundColor::White, 10, 10);
    assert!(matches!(result, Err(AppError::NoImagesProcessed)));
}

#[test]
fn grid_shape_is_near_square() {
    assert_eq!(grid_shape(0), (0, 0));
    assert_eq!(grid_shape(1), (1, 1));
    assert_eq!(grid_shape(2), (2, 1));
    assert_eq!(grid_shape(3), (2, 2));
    assert_eq!(grid_shape(5), (3, 2));
    assert_eq!(grid_shape(9), (3, 3));
    assert_eq!(grid_shape(10), (4, 3));
    assert_eq!(grid_shape(500), (23, 22));
    for n in 1..=600u32 {
        let (cols, rows) = grid_shape(n);
        assert!(cols * rows >= n);
        assert!((rows - 1) * cols < n);
        assert!(cols - 1 <= rows && rows <= cols);
    }
}

#[test]
fn grid_dimensions_add_gaps_between_tiles() {
    assert_eq!(grid_dimensions(2, 2, 10, 5, 7).unwrap(), (25, 27));
    assert_eq!(grid_dimensions(0, 0, 10, 5, 7).unwrap(), (0, 0));
    assert_eq!(grid_dimensions(3, 1, 4200, 0, 0).unwrap(), (12600, 4200));
}

#[test]
fn grid_dimensions_report_overflow() {
    let err = grid_dimensions(2, 1, u32::MAX, 0, 0).unwrap_err().to_string();
    assert!(err.contains("collage width calculation overflowed"));
    let err = grid_dimensions(1, 3, 1, 0, u32::MAX).unwrap_err().to_string();
    assert!(err.contains("collage height gap calculation overflowed"));
}

#[test]
fn collage_image_places_square_tiles_row_by_row() {
    let tiles: Vec<ProcessedTile> = [[10u8, 0, 0, 255], [0, 20, 0, 255], [0, 0, 30, 255]]
        .iter()
        .map(|c| ProcessedTile {
            image: DynamicImage::ImageRgba8(RgbaImage::from_pixel(4, 4, Rgba(*c))),
            x: 0,
            y: 0,
        })
        .collect();
    let out = create_collage_image(&tiles, Some(4), &BackgroundColor::Black).unwrap();
    assert_eq!(out.dimensions(), (8, 8));
    let rgba = out.to_rgba8();
    assert_eq!(rgba.get_pixel(1, 1).0, [10, 0, 0, 255]);
    assert_eq!(rgba.get_pixel(5, 1).0, [0, 20, 0, 255]);
    assert_eq!(rgba.get_pixel(1, 5).0, [0, 0, 30, 255]);
    assert_eq!(rgba.get_pixel(5, 5).0, [0, 0, 0, 255]);
}

#[test]
fn collage_image_rejects_tiles_of_the_wrong_size() {
    let tiles = vec![ProcessedTile {
        image: DynamicImage::ImageRgba8(RgbaImage::from_pixel(3, 4, Rgba([1, 2, 3, 255]))),
        x: 0,
        y: 0,
    }];
    let err = create_collage_image(&tiles, Some(4), &BackgroundColor::Black).unwrap_err().to_string();
    assert!(err.contains("processed tile size does not match border_size"));
    let err = create_collage_image(&tiles, None, &BackgroundColor::Black).unwrap_err().to_string();
    assert!(err.contains("tile size calculation overflowed"));
}

#[test]
fn collage_image_over_jpeg_limit_is_refused() {
    let tiles = vec![ProcessedTile {
        image: DynamicImage::ImageRgba8(RgbaImage::from_pixel(1, 1, Rgba([1, 2, 3, 255]))),
        x: 0,
        y: 0,
    }];
    let err = create_collage_image(&tiles, Some(70_000), &BackgroundColor::Black)
        .unwrap_err()
        .to_string();
    assert!(err.contains("collage dimensions 70000x70000 px exceed JPEG limit 65535 px"));
}

#[test]
fn pixel_source_finds_tile_and_offset() {
    assert_eq!(collage_pixel_source(0, 0, 4, 2, 3), Some((0, 0, 0, 0)));
    assert_eq!(collage_pixel_source(5, 1, 4, 2, 3), Some((1, 0, 1, 1)));
    assert_eq!(collage_pixel_source(1, 6, 4, 2, 3), Some((2, 1, 1, 2)));
    assert_eq!(collage_pixel_source(6, 6, 4, 2, 3), None);
}

#[test]
fn final_geometry_with_explicit_tile_border_and_gaps() {
    // 4 images of 4 px content with a 3 px tile border: tiles of 10 px,
    // gaps 5 and 7, no outer border, output long edge 27 px.
    let (cols, rows) = grid_shape(4);
    let (w, h) = grid_dimensions(cols, rows, 10, 5, 7).unwrap();
    assert_eq!((w, h), (25, 27));
    let plan = plan_final_geometry(0, 27, None).unwrap();
    assert_eq!(plan, GeometryPlan::Auto { inner_size: 27, double_border: 0 });
    let geometry = finish_final_geometry(plan, 0, 25, 27).unwrap();
    assert_eq!((geometry.canvas_width, geometry.canvas_height), (25, 27));

    let (x0, y0, x1, y1) = tile_corners(1, cols, 10, 5, 7, 4, 4);
    let first_row_second_col = placement_from_scaled(x0, y0, x1, y1, geometry.content_x, geometry.content_y);
    assert_eq!((first_row_second_col.x, first_row_second_col.y), (18, 3));
    let (x0, y0, x1, y1) = tile_corners(2, cols, 10, 5, 7, 4, 4);
    let second_row_first_col = placement_from_scaled(x0, y0, x1, y1, geometry.content_x, geometry.content_y);
    assert_eq!((second_row_first_col.x, second_row_first_col.y), (3, 20));
    assert_eq!((second_row_first_col.width, second_row_first_col.height), (4, 4));
}

#[test]
fn final_geometry_centres_collage_inside_target_aspect_canvas() {
    let plan = plan_final_geometry(0, 400, Some(Some((300, 400)))).unwrap();
    assert_eq!(
        plan,
        GeometryPlan::Target {
            canvas_width: 300,
            canvas_height: 400,
            available_width: 300,
            available_height: 400
        }
    );
    // two 10 px tiles side by side scale by 15 to 300 x 150
    let geometry = finish_final_geometry(plan, 0, 300, 150).unwrap();
    assert_eq!(
        geometry,
        CanvasGeometry {
            content_x: 0,
            content_y: 125,
            content_width: 300,
            content_height: 150,
            canvas_width: 300,
            canvas_height: 400,
        }
    );
}

#[test]
fn target_canvas_smaller_than_its_borders_is_refused() {
    let err = plan_final_geometry(400, 1000, Some(Some((750, 1000)))).unwrap_err().to_string();
    assert!(err.contains("too small"));
    assert!(err.contains("final dimensions 750x1000 px are too small for 400 px outer borders"));
}

#[test]
fn final_geometry_errors() {
    let err = plan_final_geometry(u32::MAX, 1000, None).unwrap_err().to_string();
    assert!(err.contains("outer border calculation overflowed"));
    let err = plan_final_geometry(0, 1000, Some(None)).unwrap_err().to_string();
    assert!(err.contains("target aspect ratio could not be converted to final dimensions"));
    let err = plan_final_geometry(0, 1000, Some(Some((70_000, 10)))).unwrap_err().to_string();
    assert!(err.contains("final dimensions 70000x10 px exceed JPEG limit 65535 px"));
    let plan = plan_final_geometry(2_000_000_000, 0, None).unwrap();
    assert_eq!(plan, GeometryPlan::Auto { inner_size: 1, double_border: 4_000_000_000 });
    let err = finish_final_geometry(plan, 2_000_000_000, 300_000_000, 1).unwrap_err().to_string();
    assert!(err.contains("final width calculation overflowed"));
    let err = finish_final_geometry(plan, 2_000_000_000, 1, 300_000_000).unwrap_err().to_string();
    assert!(err.contains("final height calculation overflowed"));
}

#[test]
fn auto_geometry_adds_borders_around_the_scaled_collage() {
    let plan = plan_final_geometry(100, 2100, None).unwrap();
    assert_eq!(plan, GeometryPlan::Auto { inner_size: 1900, double_border: 200 });
    let geometry = finish_final_geometry(plan, 100, 1900, 950).unwrap();
    assert_eq!(
        geometry,
        CanvasGeometry {
            content_x: 100,
            content_y: 100,
            content_width: 1900,
            content_height: 950,
            canvas_width: 2100,
            canvas_height: 1150,
        }
    );
}

#[test]
fn position_reference_area_selects_canvas_or_content_geometry() {
    let geometry = CanvasGeometry {
        content_x: 40,
        content_y: 70,
        content_width: 200,
        content_height: 300,
        canvas_width: 500,
        canvas_height: 600,
    };

    assert_eq!(
        geometry.position_reference_area(PositionReference::Canvas),
        PositionReferenceArea { x: 0, y: 0, width: 500, height: 600 }
    );
    assert_eq!(
        geometry.position_reference_area(PositionReference::Content),
        PositionReferenceArea { x: 40, y: 70, width: 200, height: 300 }
    );
}

#[test]
fn tile_larger_than_its_cell_starts_at_the_cell_corner() {
    assert_eq!(tile_corners(0, 1, 10, 0, 0, 12, 4), (0, 3, 12, 7));
    let p = placement_from_scaled(5, 5, 5, 9, 1, 2);
    assert_eq!((p.x, p.y, p.width, p.height), (6, 7, 1, 4));
}

#[test]
fn tiles_are_centred_in_separate_cells() {
    let (cols, tile, gx, gy) = (3u32, 10u32, 2u32, 1u32);
    let sizes = [(10u32, 4u32), (3, 10), (7, 7), (1, 1), (10, 10), (5, 9), (9, 5)];
    let corners: Vec<(u32, u32, u32, u32)> = sizes
        .iter()
        .enumerate()
        .map(|(i, (w, h))| tile_corners(i as u32, cols, tile, gx, gy, *w, *h))
        .collect();
    for (i, a) in corners.iter().enumerate() {
        let cell_x = (i as u32 % cols) * (tile + gx);
        let cell_y = (i as u32 / cols) * (tile + gy);
        assert!(cell_x <= a.0 && a.2 <= cell_x + tile);
        assert!(cell_y <= a.1 && a.3 <= cell_y + tile);
        let (left, right) = (a.0 - cell_x, cell_x + tile - a.2);
        assert!(left <= right && right <= left + 1);
        for (j, b) in corners.iter().enumerate() {
            if i != j {
                assert!(a.2 <= b.0 || b.2 <= a.0 || a.3 <= b.1 || b.3 <= a.1);
            }
        }
    }
}

#[test]
fn target_aspect_ratio_validation_rejects_border_larger_than_short_side() {
    // final size 1000 at 3:4 gives a 750 x 1000 canvas; 400 px borders need more than 800 px
    let err = match plan_final_geometry(400, 1000, Some(Some((750, 1000)))) {
        Err(AppError::Processing(m)) => m,
        _ => panic!("expected a processing error"),
    };
    assert!(err.contains("too small"));
}
