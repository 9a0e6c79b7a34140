use scene_split::error::{PipelineError, SubprocessCause};
use scene_split::pipeline::{
    announce, cache_name, cleanup, create_image_sequence, failure_of, get_frame_count,
    get_framerate, output_extension, slice_plan, split_scene, split_video, CacheAction,
    CacheEvent, FrameCountStep, ProbeReply, SlicePlan, Stage, Work,
};
use scene_split::scan::SceneBoundary;
use scene_split::state::{App, FrameRate, ProgressMode};

fn reply(output: &str) -> ProbeReply {
    ProbeReply { success: true, input_exists: true, output: output.as_bytes().to_vec() }
}

fn all_lines(app: &App) -> Vec<String> {
    (0..app.message_count()).map(|i| app.message(i).to_string()).collect()
}

#[test]
fn the_stages_run_in_their_order() {
    let mut order = vec![Stage::first()];
    while let Some(next) = order[order.len() - 1].next() {
        order.push(next);
    }
    assert_eq!(
        order,
        vec![
            Stage::FrameRate,
            Stage::FrameCount,
            Stage::Extraction,
            Stage::Comparison,
            Stage::Slicing,
            Stage::Cleanup,
        ]
    );
    assert_eq!(Stage::Cleanup.next(), None);
}

#[test]
fn each_stage_is_announced() {
    let mut app = App::new("clip.mkv");
    announce(&mut app, Stage::FrameRate);
    announce(&mut app, Stage::FrameCount);
    announce(&mut app, Stage::Extraction);
    announce(&mut app, Stage::Comparison);
    announce(&mut app, Stage::Slicing);
    announce(&mut app, Stage::Cleanup);
    assert_eq!(
        all_lines(&app),
        vec![
            "get framerate",
            "get frame count",
            "create image sequence",
            "make cache",
            "compare frames",
            "split video",
            "clean up",
        ]
    );
}

#[test]
fn the_frame_rate_is_recorded_and_reported() {
    let mut app = App::new("clip.mkv");
    let r = get_framerate(&mut app, &reply("30000/1001\n"));
    assert_eq!(r, Ok(FrameRate { num: 30000, den: 1001 }));
    assert_eq!(app.framerate(), Some(FrameRate { num: 30000, den: 1001 }));
    assert_eq!(all_lines(&app), vec!["framerate is 30000/1001 fps"]);
}

#[test]
fn a_whole_frame_rate_is_reported_as_the_whole_number() {
    let mut app = App::new("clip.mkv");
    announce(&mut app, Stage::FrameRate);
    let r = get_framerate(&mut app, &reply("25\n"));
    assert_eq!(r, Ok(FrameRate { num: 25, den: 1 }));
    assert_eq!(app.framerate(), Some(FrameRate { num: 25, den: 1 }));
    assert_eq!(all_lines(&app), vec!["get framerate", "framerate is 25 fps"]);
}

#[test]
fn a_second_frame_rate_is_reported_but_not_recorded() {
    let mut app = App::new("clip.mkv");
    get_framerate(&mut app, &reply("25/1")).unwrap();
    let r = get_framerate(&mut app, &reply("29.97"));
    assert_eq!(r, Ok(FrameRate { num: 2997, den: 100 }));
    assert_eq!(app.framerate(), Some(FrameRate { num: 25, den: 1 }));
    assert_eq!(all_lines(&app), vec!["framerate is 25 fps", "framerate is 29.97 fps"]);
}

#[test]
fn a_failed_probe_with_the_input_in_place() {
    let mut app = App::new("clip.mkv");
    let failed = ProbeReply { success: false, input_exists: true, output: b"25/1".to_vec() };
    let r = get_framerate(&mut app, &failed);
    assert_eq!(r, Err(PipelineError::SubprocessError(SubprocessCause::ProbeFailed)));
    assert_eq!(app.framerate(), None);
    assert_eq!(app.message_count(), 0);
    let r = get_frame_count(&mut app, &failed, false);
    assert_eq!(r, Err(PipelineError::SubprocessError(SubprocessCause::ProbeFailed)));
    assert_eq!(app.frame_count(), None);
}

#[test]
fn a_failed_probe_without_the_input() {
    let mut app = App::new("clip.mkv");
    let failed = ProbeReply { success: false, input_exists: false, output: Vec::new() };
    let r = get_framerate(&mut app, &failed);
    assert_eq!(r, Err(PipelineError::SubprocessError(SubprocessCause::InputMissing)));
    let r = get_frame_count(&mut app, &failed, true);
    assert_eq!(r, Err(PipelineError::SubprocessError(SubprocessCause::InputMissing)));
    assert_eq!(app.message_count(), 0);
}

#[test]
fn a_probe_answer_that_is_no_frame_rate() {
    let mut app = App::new("clip.mkv");
    let r = get_framerate(&mut app, &reply("fast\n"));
    assert_eq!(r, Err(PipelineError::SubprocessError(SubprocessCause::BadOutput)));
    let r = get_framerate(&mut app, &reply("30/fast\n"));
    assert_eq!(r, Err(PipelineError::SubprocessError(SubprocessCause::BadFraction)));
    assert_eq!(app.framerate(), None);
    assert_eq!(app.message_count(), 0);
}

#[test]
fn the_frame_count_is_recorded_and_reported() {
    let mut app = App::new("clip.mkv");
    let r = get_frame_count(&mut app, &reply("1234\n"), false);
    assert_eq!(r, Ok(FrameCountStep::Counted(1234)));
    assert_eq!(app.frame_count(), Some(1234));
    assert_eq!(app.progress_total(), 1233);
    assert_eq!(all_lines(&app), vec!["got 1234 frames"]);
}

#[test]
fn an_unknown_frame_count_asks_for_the_exact_probe() {
    let mut app = App::new("clip.mkv");
    let r = get_frame_count(&mut app, &reply("N/A\n"), false);
    assert_eq!(r, Ok(FrameCountStep::CountExactly));
    assert_eq!(app.frame_count(), None);
    assert_eq!(app.message_count(), 0);
    let r = get_frame_count(&mut app, &reply("987\n"), true);
    assert_eq!(r, Ok(FrameCountStep::Counted(987)));
    assert_eq!(app.frame_count(), Some(987));
    assert_eq!(all_lines(&app), vec!["got 987 frames"]);
}

#[test]
fn an_exact_probe_that_does_not_know_either() {
    let mut app = App::new("clip.mkv");
    let r = get_frame_count(&mut app, &reply("N/A\n"), true);
    assert_eq!(r, Err(PipelineError::SubprocessError(SubprocessCause::BadFrameCount)));
    assert_eq!(app.frame_count(), None);
}

#[test]
fn a_probe_answer_that_is_no_frame_count() {
    let mut app = App::new("clip.mkv");
    let r = get_frame_count(&mut app, &reply("many"), false);
    assert_eq!(r, Err(PipelineError::SubprocessError(SubprocessCause::BadFrameCount)));
    let r = get_frame_count(&mut app, &reply(""), true);
    assert_eq!(r, Err(PipelineError::SubprocessError(SubprocessCause::BadFrameCount)));
    assert_eq!(app.message_count(), 0);
}

#[test]
fn the_cache_is_named_after_the_input() {
    assert_eq!(cache_name("clip.mkv"), "frames_clip.mkv");
    assert_eq!(cache_name(""), "frames_");
    assert_eq!(cache_name("a b.mp4"), "frames_a b.mp4");
}

#[test]
fn an_existing_cache_is_reused() {
    let mut app = App::new("/v/clip.mkv");
    let r = create_image_sequence(&mut app, CacheEvent::Found, "/v/frames_clip.mkv", "frames_clip.mkv");
    assert_eq!(r, Ok(CacheAction::Proceed));
    assert_eq!(app.cache(), Some("/v/frames_clip.mkv"));
    assert_eq!(all_lines(&app), vec!["found existing cache", "cache set to 'frames_clip.mkv'"]);
}

#[test]
fn a_missing_cache_is_created_and_filled() {
    let mut app = App::new("/v/clip.mkv");
    let path = "/v/frames_clip.mkv";
    let name = "frames_clip.mkv";
    assert_eq!(
        create_image_sequence(&mut app, CacheEvent::Missing, path, name),
        Ok(CacheAction::CreateDirectory)
    );
    assert_eq!(app.cache(), None);
    assert_eq!(app.message_count(), 0);
    assert_eq!(
        create_image_sequence(&mut app, CacheEvent::Created, path, name),
        Ok(CacheAction::Extract)
    );
    assert_eq!(app.cache(), Some(path));
    assert_eq!(
        create_image_sequence(&mut app, CacheEvent::Extracted, path, name),
        Ok(CacheAction::Proceed)
    );
    assert_eq!(
        all_lines(&app),
        vec![
            "created cache",
            "cache set to 'frames_clip.mkv'",
            "splitting...",
            "created image sequence",
        ]
    );
}

#[test]
fn a_cache_that_cannot_be_created_is_an_io_error() {
    let mut app = App::new("/v/clip.mkv");
    let r = create_image_sequence(&mut app, CacheEvent::CreateFailed, "/v/frames_clip.mkv", "frames_clip.mkv");
    assert_eq!(r, Err(PipelineError::IoError));
    assert_eq!(app.cache(), None);
    assert_eq!(app.message_count(), 0);
}

#[test]
fn a_failed_extraction_is_a_subprocess_error() {
    let mut app = App::new("/v/clip.mkv");
    let path = "/v/frames_clip.mkv";
    let name = "frames_clip.mkv";
    let r = create_image_sequence(&mut app, CacheEvent::ExtractFailed { input_exists: true }, path, name);
    assert_eq!(r, Err(PipelineError::SubprocessError(SubprocessCause::ExtractionFailed)));
    let r = create_image_sequence(&mut app, CacheEvent::ExtractFailed { input_exists: false }, path, name);
    assert_eq!(r, Err(PipelineError::SubprocessError(SubprocessCause::InputMissing)));
    assert_eq!(app.message_count(), 0);
}

#[test]
fn each_scene_takes_one_step_of_the_counter() {
    let mut app = App::new("clip.mkv");
    app.progress_compare(5, 1);
    app.progress_compare(5, 9);
    split_scene(&mut app, SceneBoundary { start: 0, end: 2 });
    assert_eq!(app.progress_mode(), ProgressMode::Splitting);
    assert_eq!(app.get_progress(), 1);
    split_scene(&mut app, SceneBoundary { start: 2, end: 14 });
    assert_eq!(app.get_progress(), 2);
    assert_eq!(
        all_lines(&app),
        vec!["split scene 1: frames 0 to 2", "split scene 2: frames 2 to 14"]
    );
}

#[test]
fn the_whole_slicing_stage() {
    let mut app = App::new("clip.mkv");
    let scenes = vec![
        SceneBoundary { start: 0, end: 2 },
        SceneBoundary { start: 2, end: 4 },
        SceneBoundary { start: 4, end: 10 },
    ];
    split_video(&mut app, &scenes);
    assert_eq!(app.scene_count(), Some(3));
    assert_eq!(app.progress_mode(), ProgressMode::Splitting);
    assert_eq!(app.get_progress(), 3);
    assert_eq!(app.label(), "3/3");
    assert_eq!(
        all_lines(&app),
        vec![
            "split scene 1: frames 0 to 2",
            "split scene 2: frames 2 to 4",
            "split scene 3: frames 4 to 10",
        ]
    );
}

#[test]
fn slicing_nothing_stays_in_the_comparing_phase() {
    let mut app = App::new("clip.mkv");
    split_video(&mut app, &vec![]);
    assert_eq!(app.scene_count(), Some(0));
    assert_eq!(app.progress_mode(), ProgressMode::Comparing);
    assert_eq!(app.get_progress(), 0);
}

#[test]
fn the_cache_is_removed_unless_it_is_kept() {
    let mut app = App::new("/v/clip.mkv");
    app.set_cache("/v/frames_clip.mkv");
    assert_eq!(cleanup(&mut app, false), Some("/v/frames_clip.mkv".to_string()));
    assert_eq!(cleanup(&mut app, true), None);
    assert_eq!(all_lines(&app), vec!["remove cache", "keep cache"]);
}

#[test]
fn without_a_cache_nothing_is_removed() {
    let mut app = App::new("/v/clip.mkv");
    assert_eq!(cleanup(&mut app, false), None);
    assert_eq!(cleanup(&mut app, true), None);
    assert_eq!(all_lines(&app), vec!["no cache to remove", "keep cache"]);
}

#[test]
fn each_error_has_its_text() {
    let of = |cause| PipelineError::SubprocessError(cause).message();
    assert_eq!(PipelineError::ConfigError.message(), "lookahead must be at least 1");
    assert_eq!(of(SubprocessCause::InputMissing), "input file does not exist");
    assert_eq!(of(SubprocessCause::ProbeFailed), "ffprobe failed");
    assert_eq!(of(SubprocessCause::ExtractionFailed), "failed to split to image sequence");
    assert_eq!(of(SubprocessCause::SlicingFailed), "failed to split video");
    assert_eq!(of(SubprocessCause::BadOutput), "failed to parse ffprobe output");
    assert_eq!(of(SubprocessCause::BadFraction), "failed to parse framerate fraction");
    assert_eq!(of(SubprocessCause::BadFrameCount), "could not parse frame count from ffprobe");
    assert_eq!(PipelineError::DecodeError.message(), "failed to open image from cache");
    assert_eq!(PipelineError::IoError.message(), "failed to prepare the frame cache");
}

#[test]
fn what_each_failure_is() {
    let of = |cause| PipelineError::SubprocessError(cause);
    assert_eq!(failure_of(Work::Probing, true), of(SubprocessCause::ProbeFailed));
    assert_eq!(failure_of(Work::Probing, false), of(SubprocessCause::InputMissing));
    assert_eq!(failure_of(Work::Extracting, true), of(SubprocessCause::ExtractionFailed));
    assert_eq!(failure_of(Work::Extracting, false), of(SubprocessCause::InputMissing));
    assert_eq!(failure_of(Work::Slicing, true), of(SubprocessCause::SlicingFailed));
    assert_eq!(failure_of(Work::Slicing, false), of(SubprocessCause::InputMissing));
    assert_eq!(failure_of(Work::CreatingDirectory, true), PipelineError::IoError);
    assert_eq!(failure_of(Work::CreatingDirectory, false), PipelineError::IoError);
    assert_eq!(failure_of(Work::RemovingCache, true), PipelineError::IoError);
    assert_eq!(failure_of(Work::RemovingCache, false), PipelineError::IoError);
}

#[test]
fn a_scene_is_cut_as_a_clip_of_all_its_frames() {
    let scene = SceneBoundary { start: 2, end: 4 };
    assert_eq!(slice_plan(scene, false), SlicePlan { first: 2, frames: Some(3) });
    let scene = SceneBoundary { start: 0, end: 0 };
    assert_eq!(slice_plan(scene, false), SlicePlan { first: 0, frames: Some(1) });
    let scene = SceneBoundary { start: 1, end: usize::MAX };
    assert_eq!(slice_plan(scene, false), SlicePlan { first: 1, frames: Some(usize::MAX) });
}

#[test]
fn a_scene_of_a_slideshow_is_cut_as_one_image() {
    let scene = SceneBoundary { start: 2, end: 4 };
    assert_eq!(slice_plan(scene, true), SlicePlan { first: 2, frames: None });
}

#[test]
fn the_extension_of_what_is_written() {
    assert_eq!(output_extension("mkv", false), "mkv");
    assert_eq!(output_extension("mp4", false), "mp4");
    assert_eq!(output_extension("png", false), "png");
    assert_eq!(output_extension("mkv", true), "png");
}
