use piclayout::progress::{
    processing_details, saturating_ms, stage_key, stage_timing, FailedImage, ProgressMessage, Stage,
    StageTimingDetail,
};

#[test]
fn stage_keys_are_protocol_names() {
    assert_eq!(stage_key(Stage::ProcessingImages), "processing_images");
    assert_eq!(stage_key(Stage::CreatingCollage), "creating_collage");
    assert_eq!(stage_key(Stage::AddingBorder), "adding_border");
    assert_eq!(stage_key(Stage::AddingWatermark), "adding_watermark");
    assert_eq!(stage_key(Stage::SavingOutput), "saving_output");
    let stages = [
        Stage::ProcessingImages,
        Stage::CreatingCollage,
        Stage::AddingBorder,
        Stage::AddingWatermark,
        Stage::SavingOutput,
    ];
    for a in stages {
        for b in stages {
            assert_eq!(a == b, stage_key(a) == stage_key(b));
        }
    }
}

#[test]
fn stage_timing_records_key_and_details() {
    let details = vec![StageTimingDetail { name: "decode".into(), elapsed_ms: 5 }];
    let timing = stage_timing(Stage::SavingOutput, 42, details.clone());
    assert_eq!(timing.stage, "saving_output");
    assert_eq!(timing.elapsed_ms, 42);
    assert_eq!(timing.details, details);
}

#[test]
fn processing_details_are_named_in_order() {
    let details = processing_details(1, 2, 3);
    let names: Vec<&str> = details.iter().map(|d| d.name.as_str()).collect();
    assert_eq!(names, vec!["decode", "color_orient", "resize"]);
    let values: Vec<u128> = details.iter().map(|d| d.elapsed_ms).collect();
    assert_eq!(values, vec![1, 2, 3]);
}

#[test]
fn milliseconds_saturate_at_64_bits() {
    assert_eq!(saturating_ms(7), 7);
    assert_eq!(saturating_ms(u64::MAX as u128), u64::MAX);
    assert_eq!(saturating_ms(u128::MAX), u64::MAX);
}

#[test]
fn messages_carry_their_fields() {
    let msg = ProgressMessage::Completed {
        outputs: vec!["a.jpg".into()],
        processed_count: 1,
        failed_images: vec![FailedImage { path: "b.jpg".into(), message: "bad".into() }],
        warnings: vec![],
        elapsed_ms: 10,
        stage_timings: vec![],
    };
    match msg {
        ProgressMessage::Completed { processed_count, failed_images, .. } => {
            assert_eq!(processed_count, 1);
            assert_eq!(failed_images[0].path, "b.jpg");
        }
        _ => panic!("wrong variant"),
    }
}
