use piclayout::gain_map::{gain_map_block, gain_map_dimensions, NEUTRAL_GAIN_VALUE};
use piclayout::error::AppError;
use piclayout::watermark::{text_block_size, visible_overlay_region};

#[test]
fn overlay_region_is_clipped_to_the_canvas() {
    assert_eq!(visible_overlay_region(100, 50, 30, 10, 10, 5), Some((10, 5, 40, 15)));
    assert_eq!(visible_overlay_region(100, 50, 30, 10, -10, -5), Some((0, 0, 20, 5)));
    assert_eq!(visible_overlay_region(100, 50, 30, 10, 90, 45), Some((90, 45, 100, 50)));
    assert_eq!(visible_overlay_region(100, 50, 30, 10, 100, 0), None);
    assert_eq!(visible_overlay_region(100, 50, 30, 10, -30, 0), None);
    assert_eq!(visible_overlay_region(100, 50, 0, 10, 0, 0), None);
    assert_eq!(visible_overlay_region(100, 50, 30, 10, i64::MAX, i64::MIN), None);
}

#[test]
fn gain_map_is_a_quarter_of_each_side_rounded_up() {
    let hdr = vec![0u8; 9 * 5 * 6];
    let sdr = vec![0u8; 9 * 5 * 4];
    assert_eq!(gain_map_dimensions(hdr.len(), sdr.len(), 9, 5).unwrap(), (3, 2));
    assert_eq!(gain_map_dimensions(6, 4, 1, 1).unwrap(), (1, 1));
    assert_eq!(gain_map_dimensions(0, 0, 0, 0).unwrap(), (0, 0));
    assert_eq!(NEUTRAL_GAIN_VALUE, 128);
}

#[test]
fn short_buffers_are_refused() {
    match gain_map_dimensions(9 * 5 * 6 - 1, 9 * 5 * 4, 9, 5) {
        Err(AppError::Processing(m)) => {
            assert_eq!(m, "HDR/SDR buffers are smaller than their declared dimensions")
        }
        other => panic!("unexpected {:?}", other),
    }
    assert!(gain_map_dimensions(9 * 5 * 6, 9 * 5 * 4 - 1, 9, 5).is_err());
}

#[test]
fn gain_map_blocks_stop_at_the_image_edge() {
    assert_eq!(gain_map_block(0, 0, 9, 5), (0, 4, 0, 4));
    assert_eq!(gain_map_block(2, 1, 9, 5), (8, 9, 4, 5));
    assert_eq!(gain_map_block(1, 0, 8, 8), (4, 8, 0, 4));
    for y in 0..5u32 {
        for x in 0..9u32 {
            let (x0, x1, y0, y1) = gain_map_block(x / 4, y / 4, 9, 5);
            assert!(x0 <= x && x < x1 && y0 <= y && y < y1);
        }
    }
}

#[test]
fn text_block_grows_by_overhang_and_padding() {
    assert_eq!(text_block_size(100, -3, -5, 20, 4).unwrap(), (111, 39, 3, 5));
    assert_eq!(text_block_size(100, 2, 7, 7, 0).unwrap(), (100, 1, 0, 0));
    match text_block_size(u32::MAX, -1, 0, 0, 0) {
        Err(AppError::Processing(m)) => assert_eq!(m, "text block width calculation overflowed"),
        other => panic!("unexpected {:?}", other),
    }
    match text_block_size(0, 0, 0, 0, u32::MAX) {
        Err(AppError::Processing(m)) => assert_eq!(m, "text block height calculation overflowed"),
        other => panic!("unexpected {:?}", other),
    }
}

#[test]
fn preserves_non_square_gain_map_dimensions() {
    let hdr = vec![0u8; 9 * 5 * 6];
    let sdr = vec![0u8; 9 * 5 * 4];
    assert_eq!(gain_map_dimensions(hdr.len(), sdr.len(), 9, 5).unwrap(), (3, 2));
}
