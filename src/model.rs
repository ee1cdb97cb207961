use vstd::prelude::*;

verus! {

/// The arguments of the detail-refinement pass: the model that finds the regions to
/// refine, and the prompts used on them.
pub struct Args {
    pub ad_model: String,
    pub ad_prompt: String,
    pub ad_negative_prompt: String,
}

/// The detail-refinement script and its argument list.
pub struct ADetailerArgs {
    pub args: Vec<Args>,
}

/// The scripts that run with every generation.
pub struct AlwaysonScripts {
    pub a_detailer: ADetailerArgs,
}

/// One generation job, in the shape the image service expects.
pub struct DataItem {
    pub prompt: String,
    pub negative_prompt: String,
    pub sampler_index: String,
    pub seed: i32,
    pub batch_size: u32,
    pub steps: u32,
    pub cfg_scale: u32,
    pub width: u32,
    pub height: u32,
    pub restore_faces: bool,
    pub send_images: bool,
    pub save_images: bool,
    pub alwayson_scripts: AlwaysonScripts,
}

/// The whole configuration: where to send the jobs, where to save the images, whether
/// to run the job list again and again, and the jobs in order.
pub struct Config {
    pub api: String,
    pub save_dir: String,
    pub running_state: bool,
    pub data: Vec<DataItem>,
}

} // verus!
