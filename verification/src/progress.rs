use vstd::prelude::*;

verus! {

/// An input image that could not be processed, with the reason.
#[derive(Debug, Clone, PartialEq, Eq)]
pub struct FailedImage {
    pub path: String,
    pub message: String,
}

/// Time spent in one stage of the pipeline, with optional sub-steps.
#[derive(Debug, Clone, PartialEq, Eq)]
pub struct StageTiming {
    pub stage: String,
    pub elapsed_ms: u128,
    pub details: Vec<StageTimingDetail>,
}

/// Time spent in one named sub-step of a stage.
#[derive(Debug, Clone, PartialEq, Eq)]
pub struct StageTimingDetail {
    pub name: String,
    pub elapsed_ms: u128,
}

/// One line of the progress protocol that the front end reads.
#[derive(Debug)]
pub enum ProgressMessage {
    JobStarted { total: usize },
    ImageProcessed { index: usize, total: usize, elapsed_ms: u128 },
    StageChanged { stage: Stage, message: String, elapsed_ms: u128 },
    StageFinished {
        stage: Stage,
        elapsed_ms: u128,
        total_elapsed_ms: u128,
        details: Vec<StageTimingDetail>,
    },
    Completed {
        outputs: Vec<String>,
        processed_count: usize,
        failed_images: Vec<FailedImage>,
        warnings: Vec<String>,
        elapsed_ms: u128,
        stage_timings: Vec<StageTiming>,
    },
    PreviewCompleted {
        output_path: String,
        width: u32,
        height: u32,
        final_width: u32,
        final_height: u32,
        processed_count: usize,
        failed_images: Vec<FailedImage>,
        warnings: Vec<String>,
        elapsed_ms: u128,
        stage_timings: Vec<StageTiming>,
    },
    Cancelled { message: String, partial_outputs: Vec<String> },
    Error { message: String },
}

/// The stages of the pipeline.
#[derive(Debug, Clone, Copy, PartialEq, Eq, Structural)]
pub enum Stage {
    ProcessingImages,
    CreatingCollage,
    AddingBorder,
    AddingWatermark,
    SavingOutput,
}

/// The protocol name of a stage.
pub open spec fn stage_key_spec(stage: Stage) -> Seq<char> {
    match stage {
        Stage::ProcessingImages => "processing_images"@,
        Stage::CreatingCollage => "creating_collage"@,
        Stage::AddingBorder => "adding_border"@,
        Stage::AddingWatermark => "adding_watermark"@,
        Stage::SavingOutput => "saving_output"@,
    }
}

/// The protocol name of a stage (`processing_images`, `saving_output`, ...).
pub fn stage_key(stage: Stage) -> (key: &'static str)
    ensures
        key@ == stage_key_spec(stage),
{
    match stage {
        Stage::ProcessingImages => "processing_images",
        Stage::CreatingCollage => "creating_collage",
        Stage::AddingBorder => "adding_border",
        Stage::AddingWatermark => "adding_watermark",
        Stage::SavingOutput => "saving_output",
    }
}

/// The timing record of a finished stage.
pub fn stage_timing(stage: Stage, elapsed_ms: u128, details: Vec<StageTimingDetail>) -> (t: StageTiming)
    ensures
        t.stage@ == stage_key_spec(stage),
        t.elapsed_ms == elapsed_ms,
        t.details@ == details@,
{
    StageTiming { stage: String::from_str(stage_key(stage)), elapsed_ms, details }
}

/// A timing detail with the given name.
fn timing_detail(name: &str, elapsed_ms: u64) -> (d: StageTimingDetail)
    ensures
        d.name@ == name@,
        d.elapsed_ms == elapsed_ms,
{
    StageTimingDetail { name: String::from_str(name), elapsed_ms: elapsed_ms as u128 }
}

/// The sub-step timings of the image processing stage: `decode`,
/// `color_orient` and `resize`, in that order.
pub fn processing_details(decode_ms: u64, color_orient_ms: u64, resize_ms: u64) -> (details: Vec<
    StageTimingDetail,
>)
    ensures
        details@.len() == 3,
        details@[0].name@ == "decode"@,
        details@[0].elapsed_ms == decode_ms,
        details@[1].name@ == "color_orient"@,
        details@[1].elapsed_ms == color_orient_ms,
        details@[2].name@ == "resize"@,
        details@[2].elapsed_ms == resize_ms,
{
    let mut details: Vec<StageTimingDetail> = Vec::new();
    details.push(timing_detail("decode", decode_ms));
    details.push(timing_detail("color_orient", color_orient_ms));
    details.push(timing_detail("resize", resize_ms));
    details
}

/// A millisecond count saturated to 64 bits, as the processing metrics store it.
pub fn saturating_ms(elapsed_ms: u128) -> (r: u64)
    ensures
        r == if elapsed_ms > u64::MAX { u64::MAX as int } else { elapsed_ms as int },
{
    if elapsed_ms > u64::MAX as u128 {
        u64::MAX
    } else {
        elapsed_ms as u64
    }
}

/// Different stages are reported under different keys.
pub proof fn law_stage_keys_distinct(a: Stage, b: Stage)
    requires
        a != b,
    ensures
        stage_key_spec(a) != stage_key_spec(b),
{
    reveal_strlit("processing_images");
    reveal_strlit("creating_collage");
    reveal_strlit("adding_border");
    reveal_strlit("adding_watermark");
    reveal_strlit("saving_output");
    let ka = stage_key_spec(a);
    let kb = stage_key_spec(b);
    if ka.len() == kb.len() {
        assert(ka[0] != kb[0] || ka[ka.len() - 2] != kb[kb.len() - 2]);
    }
}

} // verus!
