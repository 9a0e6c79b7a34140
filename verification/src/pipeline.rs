//! The order of the pipeline's stages, and what each stage decides.
//!
//! The stages run in a fixed order: frame rate, frame count, extraction of
//! the frames, comparison, slicing, cleanup. Each stage is announced with a
//! status line before its work begins. The work that reaches outside (running
//! a tool, touching the disk) is the caller's; the functions here take what
//! came of it and say what to record and what to do next.

use vstd::prelude::*;
use vstd::string::*;
use crate::error::{PipelineError, SubprocessCause};
use crate::probe::{
    frame_count_of,
    frame_rate_of,
    parse_frame_count,
    parse_frame_rate,
    CountReading,
    RateReading,
};
use crate::rate::{rate_string, rate_text};
use crate::scan::SceneBoundary;
use crate::state::{App, AppView, FrameRate, ProgressMode};
use crate::text::{decimal, decimal_string};

verus! {

/// A stage of the pipeline.
#[derive(Clone, Copy, Debug, PartialEq, Eq, Structural)]
pub enum Stage {
    FrameRate,
    FrameCount,
    Extraction,
    Comparison,
    Slicing,
    Cleanup,
}

impl Stage {
    /// The place of the stage in the order of the run, from zero.
    pub open spec fn position(self) -> nat {
        match self {
            Stage::FrameRate => 0,
            Stage::FrameCount => 1,
            Stage::Extraction => 2,
            Stage::Comparison => 3,
            Stage::Slicing => 4,
            Stage::Cleanup => 5,
        }
    }

    /// The stage that follows this one, if any.
    pub open spec fn spec_next(self) -> Option<Stage> {
        match self {
            Stage::FrameRate => Some(Stage::FrameCount),
            Stage::FrameCount => Some(Stage::Extraction),
            Stage::Extraction => Some(Stage::Comparison),
            Stage::Comparison => Some(Stage::Slicing),
            Stage::Slicing => Some(Stage::Cleanup),
            Stage::Cleanup => None,
        }
    }

    /// The status lines that announce the stage.
    pub open spec fn intent(self) -> Seq<Seq<char>> {
        match self {
            Stage::FrameRate => seq!["get framerate"@],
            Stage::FrameCount => seq!["get frame count"@],
            Stage::Extraction => seq!["create image sequence"@, "make cache"@],
            Stage::Comparison => seq!["compare frames"@],
            Stage::Slicing => seq!["split video"@],
            Stage::Cleanup => seq!["clean up"@],
        }
    }

    /// The stage that a run begins with.
    pub fn first() -> (stage: Stage)
        ensures
            stage == Stage::FrameRate,
    {
        Stage::FrameRate
    }

    /// The stage that follows this one; none after the cleanup.
    pub fn next(self) -> (stage: Option<Stage>)
        ensures
            stage == self.spec_next(),
    {
        match self {
            Stage::FrameRate => Some(Stage::FrameCount),
            Stage::FrameCount => Some(Stage::Extraction),
            Stage::Extraction => Some(Stage::Comparison),
            Stage::Comparison => Some(Stage::Slicing),
            Stage::Slicing => Some(Stage::Cleanup),
            Stage::Cleanup => None,
        }
    }
}

/// The stages follow one another without a gap and never turn back: each
/// stage but the cleanup has a next one, which stands one place further.
pub proof fn lemma_stages_run_forward(stage: Stage)
    ensures
        stage.position() <= 5,
        stage.spec_next() is None <==> stage == Stage::Cleanup,
        stage.spec_next() is Some ==> stage.spec_next()->0.position() == stage.position() + 1,
{
}

/// The record after each of `lines` was appended, in order.
pub open spec fn logged_all(v: AppView, lines: Seq<Seq<char>>) -> AppView {
    AppView { messages: v.messages + lines, ..v }
}

/// Announces `stage`: appends its status lines to the record.
pub fn announce(app: &mut App, stage: Stage)
    ensures
        final(app)@ == logged_all(old(app)@, stage.intent()),
{
    match stage {
        Stage::FrameRate => {
            app.info("get framerate");
        },
        Stage::FrameCount => {
            app.info("get frame count");
        },
        Stage::Extraction => {
            app.info("create image sequence");
            app.info("make cache");
        },
        Stage::Comparison => {
            app.info("compare frames");
        },
        Stage::Slicing => {
            app.info("split video");
        },
        Stage::Cleanup => {
            app.info("clean up");
        },
    }
    assert(app@.messages =~= old(app)@.messages + stage.intent());
}

/// What came of one run of the metadata probe.
pub struct ProbeReply {
    /// Whether the probe reported success.
    pub success: bool,
    /// Whether the input file is there.
    pub input_exists: bool,
    /// What the probe printed.
    pub output: Vec<u8>,
}

/// The work that reaches outside and can fail.
#[derive(Clone, Copy, Debug, PartialEq, Eq, Structural)]
pub enum Work {
    /// A run of the metadata probe.
    Probing,
    /// The extraction of the frames.
    Extracting,
    /// The slicing of one scene.
    Slicing,
    /// The creation of a directory.
    CreatingDirectory,
    /// The removal of the frame cache.
    RemovingCache,
}

/// The error that a failure of `work` is. Work on a directory fails as an
/// I/O error. A tool fails as a subprocess error, which names the tool, or
/// says that the input file is missing where it is.
pub open spec fn failure(work: Work, input_exists: bool) -> PipelineError {
    match work {
        Work::CreatingDirectory | Work::RemovingCache => PipelineError::IoError,
        Work::Probing | Work::Extracting | Work::Slicing => PipelineError::SubprocessError(
            if !input_exists {
                SubprocessCause::InputMissing
            } else {
                match work {
                    Work::Probing => SubprocessCause::ProbeFailed,
                    Work::Extracting => SubprocessCause::ExtractionFailed,
                    _ => SubprocessCause::SlicingFailed,
                }
            },
        ),
    }
}

/// The error that ends the run when `work` has failed.
pub fn failure_of(work: Work, input_exists: bool) -> (e: PipelineError)
    ensures
        e == failure(work, input_exists),
{
    match work {
        Work::CreatingDirectory | Work::RemovingCache => PipelineError::IoError,
        Work::Probing | Work::Extracting | Work::Slicing => PipelineError::SubprocessError(
            if !input_exists {
                SubprocessCause::InputMissing
            } else {
                match work {
                    Work::Probing => SubprocessCause::ProbeFailed,
                    Work::Extracting => SubprocessCause::ExtractionFailed,
                    _ => SubprocessCause::SlicingFailed,
                }
            },
        ),
    }
}

/// The status line for a frame rate: a whole rate as the whole number, a
/// rate whose quotient comes out even as that decimal number, any other as
/// the ratio that the probe gave.
pub open spec fn frame_rate_message(rate: FrameRate) -> Seq<char> {
    "framerate is "@ + rate_text(rate) + " fps"@
}

/// The status line for a number of frames.
pub open spec fn frame_count_message(count: usize) -> Seq<char> {
    "got "@ + decimal(count as nat) + " frames"@
}

/// What the probe's answer is where it is no frame rate.
pub open spec fn rate_fault(reading: RateReading) -> PipelineError
    recommends
        !(reading is Rate),
{
    PipelineError::SubprocessError(
        if reading is BadFraction {
            SubprocessCause::BadFraction
        } else {
            SubprocessCause::BadOutput
        },
    )
}

/// Takes in the probe's answer to the question of the frame rate.
///
/// A probe that failed is a subprocess error, which tells a missing input
/// file from a failing tool; an answer that is no frame rate is one too,
/// and tells a bad ratio from a bad number. Otherwise the rate is recorded,
/// unless one is recorded already, and a status line reports it.
///
/// The status line shows the quotient where it comes out even: `25` for
/// `25/1`, `29.97` for `29.97`. Where it does not, as for `30000/1001`, the
/// line shows the ratio itself and not a rounded quotient.
pub fn get_framerate(app: &mut App, reply: &ProbeReply) -> (r: Result<FrameRate, PipelineError>)
    ensures
        !reply.success ==> r == Err::<FrameRate, PipelineError>(
            failure(Work::Probing, reply.input_exists),
        ) && final(app)@ == old(app)@,
        reply.success ==> match frame_rate_of(reply.output@) {
            RateReading::Rate(rate) => r == Ok::<FrameRate, PipelineError>(rate) && final(app)@
                == old(app)@.with_frame_rate(rate).logged(frame_rate_message(rate)),
            fault => r == Err::<FrameRate, PipelineError>(rate_fault(fault)) && final(app)@ == old(
                app,
            )@,
        },
{
    if !reply.success {
        return Err(failure_of(Work::Probing, reply.input_exists));
    }
    match parse_frame_rate(reply.output.as_slice()) {
        RateReading::Rate(rate) => {
            app.set_framerate(rate);
            let mut line = "framerate is ".to_owned();
            line.append(rate_string(rate).as_str());
            line.append(" fps");
            app.info(line.as_str());
            Ok(rate)
        },
        RateReading::BadFraction => Err(
            PipelineError::SubprocessError(SubprocessCause::BadFraction),
        ),
        RateReading::BadNumber => Err(PipelineError::SubprocessError(SubprocessCause::BadOutput)),
    }
}

/// What to do after the probe's answer to the question of the frame count.
#[derive(Clone, Copy, Debug, PartialEq, Eq, Structural)]
pub enum FrameCountStep {
    /// The count is known and recorded.
    Counted(usize),
    /// The probe does not know the count: run the slower probe that counts
    /// the frames one by one, and hand in its answer as the exact one.
    CountExactly,
}

/// Takes in the probe's answer to the question of the frame count. `exact`
/// says whether the answer comes from the probe that counts frame by frame.
///
/// A probe that failed is a subprocess error, as for the frame rate. A
/// number is recorded as the frame count, unless one is recorded already,
/// and reported in a status line. `N/A` from the first probe asks for the
/// exact count and records nothing. Anything else, and `N/A` as the exact
/// answer, is a subprocess error.
pub fn get_frame_count(app: &mut App, reply: &ProbeReply, exact: bool) -> (r: Result<
    FrameCountStep,
    PipelineError,
>)
    ensures
        !reply.success ==> r == Err::<FrameCountStep, PipelineError>(
            failure(Work::Probing, reply.input_exists),
        ) && final(app)@ == old(app)@,
        reply.success ==> match frame_count_of(reply.output@) {
            CountReading::Count(count) => r == Ok::<FrameCountStep, PipelineError>(
                FrameCountStep::Counted(count),
            ) && final(app)@ == old(app)@.with_frame_count(count).logged(
                frame_count_message(count),
            ),
            CountReading::Unavailable => final(app)@ == old(app)@ && r == if exact {
                Err::<FrameCountStep, PipelineError>(
                    PipelineError::SubprocessError(SubprocessCause::BadFrameCount),
                )
            } else {
                Ok::<FrameCountStep, PipelineError>(FrameCountStep::CountExactly)
            },
            CountReading::Malformed => final(app)@ == old(app)@ && r == Err::<
                FrameCountStep,
                PipelineError,
            >(PipelineError::SubprocessError(SubprocessCause::BadFrameCount)),
        },
{
    if !reply.success {
        return Err(failure_of(Work::Probing, reply.input_exists));
    }
    match parse_frame_count(reply.output.as_slice()) {
        CountReading::Count(count) => {
            app.set_frame_count(count);
            let mut line = "got ".to_owned();
            line.append(decimal_string(count as u128).as_str());
            line.append(" frames");
            app.info(line.as_str());
            Ok(FrameCountStep::Counted(count))
        },
        CountReading::Unavailable => {
            if exact {
                Err(PipelineError::SubprocessError(SubprocessCause::BadFrameCount))
            } else {
                Ok(FrameCountStep::CountExactly)
            }
        },
        CountReading::Malformed => Err(PipelineError::SubprocessError(SubprocessCause::BadFrameCount)),
    }
}

/// What the caller found or did about the frame cache.
#[derive(Clone, Copy, Debug, PartialEq, Eq, Structural)]
pub enum CacheEvent {
    /// The cache directory is there already.
    Found,
    /// There is no cache directory.
    Missing,
    /// The cache directory was created.
    Created,
    /// The cache directory could not be created.
    CreateFailed,
    /// The frames were extracted into the cache.
    Extracted,
    /// The extraction failed; `input_exists` says whether the input file
    /// is there.
    ExtractFailed { input_exists: bool },
}

/// What the caller is to do next about the frame cache.
#[derive(Clone, Copy, Debug, PartialEq, Eq, Structural)]
pub enum CacheAction {
    /// Create the cache directory.
    CreateDirectory,
    /// Extract the frames into the cache.
    Extract,
    /// The frames are in the cache: go on to the next stage.
    Proceed,
}

/// The name of the cache directory of an input file: `frames_` and the
/// file's name.
pub open spec fn cache_name_of(file_name: Seq<char>) -> Seq<char> {
    "frames_"@ + file_name
}

/// The status line for the location of the cache.
pub open spec fn cache_message(cache_name: Seq<char>) -> Seq<char> {
    "cache set to '"@ + cache_name + "'"@
}

/// The record after `event`, for a cache at `cache_path` whose directory is
/// named `cache_name`.
pub open spec fn cache_record(
    v: AppView,
    event: CacheEvent,
    cache_path: Seq<char>,
    cache_name: Seq<char>,
) -> AppView {
    match event {
        CacheEvent::Found => v.logged("found existing cache"@).with_cache(cache_path).logged(
            cache_message(cache_name),
        ),
        CacheEvent::Created => v.logged("created cache"@).with_cache(cache_path).logged(
            cache_message(cache_name),
        ).logged("splitting..."@),
        CacheEvent::Extracted => v.logged("created image sequence"@),
        CacheEvent::Missing | CacheEvent::CreateFailed | CacheEvent::ExtractFailed { .. } => v,
    }
}

/// What follows `event`: the next thing to do, or the error that ends the
/// run.
pub open spec fn cache_decision(event: CacheEvent) -> Result<CacheAction, PipelineError> {
    match event {
        CacheEvent::Found => Ok(CacheAction::Proceed),
        CacheEvent::Missing => Ok(CacheAction::CreateDirectory),
        CacheEvent::Created => Ok(CacheAction::Extract),
        CacheEvent::CreateFailed => Err(failure(Work::CreatingDirectory, true)),
        CacheEvent::Extracted => Ok(CacheAction::Proceed),
        CacheEvent::ExtractFailed { input_exists } => Err(failure(Work::Extracting, input_exists)),
    }
}

/// The name of the cache directory that belongs to the input file named
/// `file_name`. It is the same on every run, so that a later run finds the
/// cache of an earlier one.
pub fn cache_name(file_name: &str) -> (name: String)
    ensures
        name@ == cache_name_of(file_name@),
{
    let mut name = "frames_".to_owned();
    name.append(file_name);
    name
}

/// One step of the extraction stage: takes in what the caller found or did
/// about the cache and says what to do next.
///
/// A cache that is there already is recorded and used as it is: nothing is
/// extracted again. A missing one is to be created; once created it is
/// recorded and the frames are to be extracted into it; once they are, the
/// stage is over. A directory that cannot be created is an I/O error, a
/// failed extraction a subprocess error. Each step that succeeds is reported
/// in the status lines.
pub fn create_image_sequence(
    app: &mut App,
    event: CacheEvent,
    cache_path: &str,
    cache_name: &str,
) -> (r: Result<CacheAction, PipelineError>)
    ensures
        r == cache_decision(event),
        final(app)@ == cache_record(old(app)@, event, cache_path@, cache_name@),
{
    match event {
        CacheEvent::Found => {
            app.info("found existing cache");
            record_cache(app, cache_path, cache_name);
            Ok(CacheAction::Proceed)
        },
        CacheEvent::Missing => Ok(CacheAction::CreateDirectory),
        CacheEvent::Created => {
            app.info("created cache");
            record_cache(app, cache_path, cache_name);
            app.info("splitting...");
            Ok(CacheAction::Extract)
        },
        CacheEvent::CreateFailed => Err(failure_of(Work::CreatingDirectory, true)),
        CacheEvent::Extracted => {
            app.info("created image sequence");
            Ok(CacheAction::Proceed)
        },
        CacheEvent::ExtractFailed { input_exists } => Err(failure_of(Work::Extracting, input_exists)),
    }
}

fn record_cache(app: &mut App, cache_path: &str, cache_name: &str)
    ensures
        final(app)@ == old(app)@.with_cache(cache_path@).logged(cache_message(cache_name@)),
{
    app.set_cache(cache_path);
    let mut line = "cache set to '".to_owned();
    line.append(cache_name);
    line.append("'");
    app.info(line.as_str());
}

/// A cache that is found is used: the step asks for no directory and no
/// extraction, and the cache's location is recorded unless one was recorded
/// before.
pub proof fn lemma_found_cache_is_reused(v: AppView, cache_path: Seq<char>, cache_name: Seq<char>)
    ensures
        cache_decision(CacheEvent::Found) == Ok::<CacheAction, PipelineError>(CacheAction::Proceed),
        cache_record(v, CacheEvent::Found, cache_path, cache_name).cache == if v.cache is Some {
            v.cache
        } else {
            Some(cache_path)
        },
{
}

/// How one scene is cut out of the video.
#[derive(Clone, Copy, Debug, PartialEq, Eq, Structural)]
pub struct SlicePlan {
    /// The frame at which the cut begins.
    pub first: usize,
    /// The number of frames to take; `None` for the one image at `first`.
    pub frames: Option<usize>,
}

/// The plan for `scene`.
pub open spec fn slice_plan_of(scene: SceneBoundary, slideshow: bool) -> SlicePlan {
    SlicePlan {
        first: scene.start,
        frames: if slideshow {
            None
        } else {
            Some((scene.end - scene.start + 1) as usize)
        },
    }
}

/// Says how `scene` is cut out: from its first frame on, either all of its
/// frames as a clip or, for a slideshow, the one image at its first frame.
/// The times are the caller's to compute, from the frame rate.
pub fn slice_plan(scene: SceneBoundary, slideshow: bool) -> (plan: SlicePlan)
    requires
        scene.start <= scene.end,
        scene.end - scene.start < usize::MAX,
    ensures
        plan == slice_plan_of(scene, slideshow),
{
    SlicePlan {
        first: scene.start,
        frames: if slideshow {
            None
        } else {
            Some(scene.end - scene.start + 1)
        },
    }
}

/// The extension of the files that the slicing writes: that of an image
/// for a slideshow, else the format asked for.
pub fn output_extension<'a>(format: &'a str, slideshow: bool) -> (extension: &'a str)
    ensures
        extension@ == if slideshow {
            "png"@
        } else {
            format@
        },
{
    if slideshow {
        "png"
    } else {
        format
    }
}

/// The status line for the scene with the given number, counted from one.
pub open spec fn scene_message(number: nat, scene: SceneBoundary) -> Seq<char> {
    "split scene "@ + decimal(number) + ": frames "@ + decimal(scene.start as nat) + " to "@
        + decimal(scene.end as nat)
}

/// Reports that the slicing of one more scene begins: the progress counter
/// takes its step, and a status line names the scene by the counter. The
/// first such step leaves the comparing phase.
pub fn split_scene(app: &mut App, scene: SceneBoundary)
    requires
        old(app)@.phase == ProgressMode::Splitting ==> old(app)@.counter < usize::MAX,
    ensures
        final(app)@ == old(app)@.split().logged(scene_message(old(app)@.split().counter, scene)),
{
    app.progress_split();
    let mut line = "split scene ".to_owned();
    line.append(decimal_string(app.get_progress() as u128).as_str());
    line.append(": frames ");
    line.append(decimal_string(scene.start as u128).as_str());
    line.append(" to ");
    line.append(decimal_string(scene.end as u128).as_str());
    app.info(line.as_str());
}

/// The record after the slicing of each of `scenes` was reported, in order.
pub open spec fn app_after_scenes(v: AppView, scenes: Seq<SceneBoundary>) -> AppView
    decreases scenes.len(),
{
    if scenes.len() == 0 {
        v
    } else {
        let before = app_after_scenes(v, scenes.drop_last());
        before.split().logged(scene_message(before.split().counter, scenes.last()))
    }
}

/// Opens the slicing stage for `scenes` and reports each scene: the number
/// of scenes is recorded, unless one is recorded already, and for each scene
/// the counter takes its step and a status line is appended.
pub fn split_video(app: &mut App, scenes: &Vec<SceneBoundary>)
    requires
        old(app)@.phase == ProgressMode::Splitting ==> old(app)@.counter + scenes@.len()
            <= usize::MAX,
    ensures
        final(app)@ == app_after_scenes(old(app)@.with_scene_count(scenes@.len() as usize), scenes@),
{
    app.set_scene_count(scenes.len());
    let ghost start = app@;
    let mut i: usize = 0;
    assert(scenes@.take(0) =~= Seq::<SceneBoundary>::empty());
    while i < scenes.len()
        invariant
            i <= scenes@.len(),
            start.phase == ProgressMode::Splitting ==> start.counter + scenes@.len() <= usize::MAX,
            app@ == app_after_scenes(start, scenes@.take(i as int)),
            start.phase == ProgressMode::Splitting ==> app@.phase == ProgressMode::Splitting
                && app@.counter == start.counter + i,
            start.phase == ProgressMode::Comparing && i == 0 ==> app@ == start,
            start.phase == ProgressMode::Comparing && i > 0 ==> app@.phase
                == ProgressMode::Splitting && app@.counter == i,
        decreases scenes@.len() - i,
    {
        proof {
            assert(scenes@.take(i + 1).drop_last() =~= scenes@.take(i as int));
        }
        split_scene(app, scenes[i]);
        i = i + 1;
    }
    assert(scenes@.take(i as int) =~= scenes@);
}

/// The counter after the scenes were reported: from the comparing phase it
/// ends at the number of scenes, the first of them having set it to one;
/// within the splitting phase it has grown by the number of scenes.
pub proof fn lemma_counter_after_scenes(v: AppView, scenes: Seq<SceneBoundary>)
    ensures
        scenes.len() > 0 ==> app_after_scenes(v, scenes).phase == ProgressMode::Splitting,
        v.phase == ProgressMode::Comparing && scenes.len() > 0 ==> app_after_scenes(
            v,
            scenes,
        ).counter == scenes.len(),
        v.phase == ProgressMode::Splitting ==> app_after_scenes(v, scenes).counter == v.counter
            + scenes.len(),
        app_after_scenes(v, scenes).samples == v.samples,
        app_after_scenes(v, scenes).messages.len() == v.messages.len() + scenes.len(),
    decreases scenes.len(),
{
    if scenes.len() > 0 {
        lemma_counter_after_scenes(v, scenes.drop_last());
    }
}

/// The status line of the cleanup.
pub open spec fn cleanup_message(v: AppView, keep_cache: bool) -> Seq<char> {
    if keep_cache {
        "keep cache"@
    } else if v.cache is Some {
        "remove cache"@
    } else {
        "no cache to remove"@
    }
}

/// Closes the run: says which directory is to be removed. That is the frame
/// cache, unless it is to be kept or none was recorded. A status line says
/// what was decided.
pub fn cleanup(app: &mut App, keep_cache: bool) -> (remove: Option<String>)
    ensures
        remove is Some <==> !keep_cache && old(app)@.cache is Some,
        remove is Some ==> remove->0@ == old(app)@.cache->0,
        final(app)@ == old(app)@.logged(cleanup_message(old(app)@, keep_cache)),
{
    if keep_cache {
        app.info("keep cache");
        return None;
    }
    let remove = match app.cache() {
        Some(path) => Some(path.to_owned()),
        None => None,
    };
    if remove.is_some() {
        app.info("remove cache");
    } else {
        app.info("no cache to remove");
    }
    remove
}

} // verus!
