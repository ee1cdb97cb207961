use image_poller::model::{ADetailerArgs, AlwaysonScripts, Args, Config, DataItem};
use image_poller::persist::plan_writes;
use image_poller::run_loop::{RunLoop, Step, PAUSE_SECONDS};

fn job(prompt: &str) -> DataItem {
    DataItem {
        prompt: prompt.to_string(),
        negative_prompt: "blurry".to_string(),
        sampler_index: "Euler a".to_string(),
        seed: -1,
        batch_size: 2,
        steps: 20,
        cfg_scale: 7,
        width: 512,
        height: 768,
        restore_faces: false,
        send_images: true,
        save_images: false,
        alwayson_scripts: AlwaysonScripts {
            a_detailer: ADetailerArgs {
                args: vec![Args {
                    ad_model: "face_yolov8n.pt".to_string(),
                    ad_prompt: "detailed face".to_string(),
                    ad_negative_prompt: "lowres".to_string(),
                }],
            },
        },
    }
}

fn config(running: bool, jobs: usize) -> Config {
    Config {
        api: "http://127.0.0.1:7860/sdapi/v1/txt2img".to_string(),
        save_dir: "out/images".to_string(),
        running_state: running,
        data: (0..jobs).map(|i| job(&format!("job {}", i))).collect(),
    }
}

fn run(l: &RunLoop, count: usize) -> Vec<Step> {
    let mut steps = vec![l.first()];
    while steps.len() < count {
        let prev = *steps.last().unwrap();
        steps.push(l.next(prev, true));
    }
    steps
}

#[test]
fn loop_from_config() {
    let l = RunLoop::new(&config(true, 3));
    assert_eq!(l, RunLoop { continuous: true, job_count: 3 });
}

#[test]
fn single_pass_without_flag() {
    let l = RunLoop::new(&config(false, 3));
    assert_eq!(
        run(&l, 6),
        vec![Step::Run(0), Step::Run(1), Step::Run(2), Step::Stop, Step::Stop, Step::Stop]
    );
}

#[test]
fn passes_repeat_with_flag() {
    let l = RunLoop::new(&config(true, 2));
    assert_eq!(
        run(&l, 7),
        vec![Step::Run(0), Step::Run(1), Step::Pause, Step::Run(0), Step::Run(1), Step::Pause, Step::Run(0)]
    );
    assert_eq!(PAUSE_SECONDS, 1);
}

#[test]
fn empty_job_list() {
    assert_eq!(RunLoop::new(&config(false, 0)).first(), Step::Stop);
    let l = RunLoop::new(&config(true, 0));
    assert_eq!(run(&l, 3), vec![Step::Pause, Step::Pause, Step::Pause]);
}

#[test]
fn failing_job_aborts() {
    let l = RunLoop::new(&config(true, 3));
    assert_eq!(l.next(Step::Run(1), false), Step::Abort);
    assert_eq!(l.next(Step::Abort, true), Step::Abort);
    assert_eq!(l.next(Step::Stop, true), Step::Stop);
}

#[test]
fn one_job_two_images_then_exit() {
    let cfg = config(false, 1);
    let l = RunLoop::new(&cfg);
    let first = l.first();
    assert_eq!(first, Step::Run(0));
    assert_eq!(cfg.data[0].prompt, "job 0");
    let images = vec!["aGVsbG8=".to_string(), "d29ybGQ=".to_string()];
    let plan = plan_writes("20240305061530", &images);
    assert!(plan.failure.is_none());
    let names: Vec<&str> = plan.files.iter().map(|f| f.name.as_str()).collect();
    assert_eq!(names, vec!["20240305061530_0.png", "20240305061530_1.png"]);
    assert_eq!(l.next(first, true), Step::Stop);
}
