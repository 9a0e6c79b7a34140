//! The pipeline's progress record: discovered metadata, the comparison
//! samples, the status lines and the two-phase progress counter.

use vstd::prelude::*;
use vstd::string::*;
use crate::text::{decimal, decimal_string};

verus! {

/// The phase that the progress counter counts in.
#[derive(Clone, Copy, Debug, PartialEq, Eq, Structural)]
pub enum ProgressMode {
    Comparing,
    Splitting,
}

/// A frame rate as the probe reports it: `num` frames in `den` seconds.
#[derive(Clone, Copy, Debug, PartialEq, Eq, Structural)]
pub struct FrameRate {
    pub num: u64,
    pub den: u64,
}

/// One comparison sample: the least dissimilarity between a window's anchor
/// and its candidates, and the threshold it was held against.
#[derive(Clone, Copy, Debug, PartialEq, Eq, Structural)]
pub struct Sample {
    pub score: u64,
    pub threshold: u64,
}

/// What the record holds, as mathematical values.
pub struct AppView {
    pub input: Seq<char>,
    pub cache: Option<Seq<char>>,
    pub phase: ProgressMode,
    pub counter: nat,
    pub frame_rate: Option<FrameRate>,
    pub frame_count: Option<usize>,
    pub scene_count: Option<usize>,
    /// The sample at position `i` was recorded when the counter became `i + 1`.
    pub samples: Seq<Sample>,
    pub messages: Seq<Seq<char>>,
}

impl AppView {
    /// The record of a run that has just begun on `input`.
    pub open spec fn initial(input: Seq<char>) -> AppView {
        AppView {
            input,
            cache: None,
            phase: ProgressMode::Comparing,
            counter: 0,
            frame_rate: None,
            frame_count: None,
            scene_count: None,
            samples: Seq::empty(),
            messages: Seq::empty(),
        }
    }

    /// The record after an attempt to set the cache location.
    pub open spec fn with_cache(self, path: Seq<char>) -> AppView {
        if self.cache is Some {
            self
        } else {
            AppView { cache: Some(path), ..self }
        }
    }

    /// The record after an attempt to set the frame rate.
    pub open spec fn with_frame_rate(self, rate: FrameRate) -> AppView {
        if self.frame_rate is Some {
            self
        } else {
            AppView { frame_rate: Some(rate), ..self }
        }
    }

    /// The record after an attempt to set the frame count.
    pub open spec fn with_frame_count(self, count: usize) -> AppView {
        if self.frame_count is Some {
            self
        } else {
            AppView { frame_count: Some(count), ..self }
        }
    }

    /// The record after an attempt to set the scene count.
    pub open spec fn with_scene_count(self, count: usize) -> AppView {
        if self.scene_count is Some {
            self
        } else {
            AppView { scene_count: Some(count), ..self }
        }
    }

    /// The record after one more status line.
    pub open spec fn logged(self, line: Seq<char>) -> AppView {
        AppView { messages: self.messages.push(line), ..self }
    }

    /// The record after one comparison was reported: while comparing, the
    /// sample is appended and the counter goes up by one; afterwards nothing
    /// changes.
    pub open spec fn compared(self, threshold: u64, score: u64) -> AppView {
        match self.phase {
            ProgressMode::Comparing => AppView {
                counter: self.counter + 1,
                samples: self.samples.push(Sample { score, threshold }),
                ..self
            },
            ProgressMode::Splitting => self,
        }
    }

    /// The number of comparisons that the frame count asks for: one for
    /// each frame but the last.
    pub open spec fn comparisons(self) -> Option<usize> {
        match self.frame_count {
            Some(count) => Some(
                if count > 0 {
                    (count - 1) as usize
                } else {
                    0
                },
            ),
            None => None,
        }
    }

    /// The heading of the progress display.
    pub open spec fn title(self) -> Seq<char> {
        match self.phase {
            ProgressMode::Comparing => "comparing"@,
            ProgressMode::Splitting => "splitting"@,
        }
    }

    /// What the counter of the current phase counts up to.
    pub open spec fn total(self) -> usize {
        match self.phase {
            ProgressMode::Comparing => match self.comparisons() {
                Some(count) => count,
                None => 0,
            },
            ProgressMode::Splitting => match self.scene_count {
                Some(count) => count,
                None => 0,
            },
        }
    }

    /// The label of the progress display.
    pub open spec fn label(self) -> Seq<char> {
        decimal(self.counter) + "/"@ + decimal(self.total() as nat)
    }

    /// The share of the work that is done, as a count and its whole: the
    /// counter, held to the whole, of the comparisons that the frame count
    /// asks for. The share is zero of one while no frame count is known or
    /// it asks for no comparison.
    pub open spec fn ratio(self) -> (usize, usize) {
        match self.comparisons() {
            Some(count) => if count == 0 {
                (0, 1)
            } else if self.counter >= count {
                (count, count)
            } else {
                (self.counter as usize, count)
            },
            None => (0, 1),
        }
    }

    /// The place of the last status line.
    pub open spec fn selected(self) -> Option<usize> {
        if self.messages.len() > 0 {
            Some((self.messages.len() - 1) as usize)
        } else {
            None
        }
    }

    /// The record after one step of splitting was reported: the first such
    /// step leaves the comparing phase and sets the counter to one, each
    /// later step adds one.
    pub open spec fn split(self) -> AppView {
        match self.phase {
            ProgressMode::Comparing => AppView {
                phase: ProgressMode::Splitting,
                counter: 1,
                ..self
            },
            ProgressMode::Splitting => AppView { counter: self.counter + 1, ..self },
        }
    }
}

/// The record that every stage of the pipeline reads and updates.
pub struct App {
    input: String,
    cache: Option<String>,
    samples: Vec<Sample>,
    info: Vec<String>,
    progress_mode: ProgressMode,
    split_progress: usize,
    frame_count: Option<usize>,
    scenes: Option<usize>,
    framerate: Option<FrameRate>,
}

/// The texts of `lines`, in order.
pub open spec fn texts(lines: Seq<String>) -> Seq<Seq<char>> {
    Seq::new(lines.len(), |i: int| lines[i]@)
}

impl View for App {
    type V = AppView;

    closed spec fn view(&self) -> AppView {
        AppView {
            input: self.input@,
            cache: match self.cache {
                Some(path) => Some(path@),
                None => None,
            },
            phase: self.progress_mode,
            counter: match self.progress_mode {
                ProgressMode::Comparing => self.samples@.len(),
                ProgressMode::Splitting => self.split_progress as nat,
            },
            frame_rate: self.framerate,
            frame_count: self.frame_count,
            scene_count: self.scenes,
            samples: self.samples@,
            messages: texts(self.info@),
        }
    }
}

impl App {
    /// A fresh record for a run on `path`: comparing, counter at zero,
    /// nothing discovered, nothing logged.
    pub fn new(path: &str) -> (app: App)
        ensures
            app@ == AppView::initial(path@),
    {
        let app = App {
            input: path.to_owned(),
            cache: None,
            samples: Vec::new(),
            info: Vec::new(),
            progress_mode: ProgressMode::Comparing,
            split_progress: 0,
            frame_count: None,
            scenes: None,
            framerate: None,
        };
        assert(texts(app.info@) =~= Seq::empty());
        app
    }

    /// The path of the input video.
    pub fn input(&self) -> (path: &str)
        ensures
            path@ == self@.input,
    {
        self.input.as_str()
    }

    /// The location of the frame cache, once it is set.
    pub fn cache(&self) -> (path: Option<&str>)
        ensures
            path is Some <==> self@.cache is Some,
            path is Some ==> path->0@ == self@.cache->0,
    {
        match &self.cache {
            Some(cache) => Some(cache.as_str()),
            None => None,
        }
    }

    /// Sets the location of the frame cache, unless it is set already.
    pub fn set_cache(&mut self, path: &str)
        ensures
            final(self)@ == old(self)@.with_cache(path@),
    {
        if self.cache.is_none() {
            self.cache = Some(path.to_owned());
        }
    }

    /// Appends one status line.
    pub fn info(&mut self, info: &str)
        ensures
            final(self)@ == old(self)@.logged(info@),
    {
        self.info.push(info.to_owned());
        assert(texts(self.info@) =~= texts(old(self).info@).push(info@));
    }

    /// Reports one comparison. While comparing, the sample is recorded with
    /// its threshold and the counter goes up by one; once splitting has
    /// begun the call changes nothing.
    pub fn progress_compare(&mut self, threshold: u64, diff: u64)
        ensures
            final(self)@ == old(self)@.compared(threshold, diff),
    {
        match self.progress_mode {
            ProgressMode::Comparing => {
                self.samples.push(Sample { score: diff, threshold });
            },
            ProgressMode::Splitting => {},
        }
    }

    /// Reports one step of splitting. The first call leaves the comparing
    /// phase and sets the counter to one; each later call adds one.
    pub fn progress_split(&mut self)
        requires
            old(self)@.phase == ProgressMode::Splitting ==> old(self)@.counter < usize::MAX,
        ensures
            final(self)@ == old(self)@.split(),
    {
        match self.progress_mode {
            ProgressMode::Comparing => {
                self.progress_mode = ProgressMode::Splitting;
                self.split_progress = 1;
            },
            ProgressMode::Splitting => {
                self.split_progress = self.split_progress + 1;
            },
        }
    }

    /// The progress counter of the current phase.
    pub fn get_progress(&self) -> (count: usize)
        ensures
            count == self@.counter,
    {
        match self.progress_mode {
            ProgressMode::Comparing => self.samples.len(),
            ProgressMode::Splitting => self.split_progress,
        }
    }

    /// The phase that the counter counts in.
    pub fn progress_mode(&self) -> (mode: ProgressMode)
        ensures
            mode == self@.phase,
    {
        self.progress_mode
    }

    /// The frame rate, once it is set.
    pub fn framerate(&self) -> (rate: Option<FrameRate>)
        ensures
            rate == self@.frame_rate,
    {
        self.framerate
    }

    /// Sets the frame rate, unless it is set already.
    pub fn set_framerate(&mut self, fr: FrameRate)
        ensures
            final(self)@ == old(self)@.with_frame_rate(fr),
    {
        if self.framerate.is_none() {
            self.framerate = Some(fr);
        }
    }

    /// Sets the number of frames, unless it is set already.
    pub fn set_frame_count(&mut self, fc: usize)
        ensures
            final(self)@ == old(self)@.with_frame_count(fc),
    {
        if self.frame_count.is_none() {
            self.frame_count = Some(fc);
        }
    }

    /// Sets the number of scenes, unless it is set already.
    pub fn set_scene_count(&mut self, sc: usize)
        ensures
            final(self)@ == old(self)@.with_scene_count(sc),
    {
        if self.scenes.is_none() {
            self.scenes = Some(sc);
        }
    }

    /// The number of frames, once it is set.
    pub fn frame_count(&self) -> (count: Option<usize>)
        ensures
            count == self@.frame_count,
    {
        self.frame_count
    }

    /// The number of scenes, once it is set.
    pub fn scene_count(&self) -> (count: Option<usize>)
        ensures
            count == self@.scene_count,
    {
        self.scenes
    }

    /// The number of status lines.
    pub fn message_count(&self) -> (count: usize)
        ensures
            count == self@.messages.len(),
    {
        self.info.len()
    }

    /// The status line at `index`.
    pub fn message(&self, index: usize) -> (line: &str)
        requires
            index < self@.messages.len(),
        ensures
            line@ == self@.messages[index as int],
    {
        self.info[index].as_str()
    }

    /// The number of samples recorded.
    pub fn sample_count(&self) -> (count: usize)
        ensures
            count == self@.samples.len(),
    {
        self.samples.len()
    }

    /// The sample at `index`.
    pub fn sample(&self, index: usize) -> (sample: Sample)
        requires
            index < self@.samples.len(),
        ensures
            sample == self@.samples[index as int],
    {
        self.samples[index]
    }

    /// The heading of the progress display: the name of the phase.
    pub fn title(&self) -> (text: &'static str)
        ensures
            text@ == self@.title(),
    {
        match self.progress_mode {
            ProgressMode::Comparing => "comparing",
            ProgressMode::Splitting => "splitting",
        }
    }

    /// What the counter of the current phase counts up to: the comparisons
    /// while comparing, the scenes while splitting; zero while the number is
    /// not known.
    pub fn progress_total(&self) -> (total: usize)
        ensures
            total == self@.total(),
    {
        match self.progress_mode {
            ProgressMode::Comparing => match self.frame_count {
                Some(count) => if count > 0 {
                    count - 1
                } else {
                    0
                },
                None => 0,
            },
            ProgressMode::Splitting => match self.scenes {
                Some(count) => count,
                None => 0,
            },
        }
    }

    /// The label of the progress display: the counter, a slash, and what it
    /// counts up to.
    pub fn label(&self) -> (text: String)
        ensures
            text@ == self@.label(),
    {
        let mut text = decimal_string(self.get_progress() as u128);
        text.append("/");
        text.append(decimal_string(self.progress_total() as u128).as_str());
        text
    }

    /// The share of the work that is done, as two numbers: the counter, and
    /// the number of comparisons that the frame count asks for. The first
    /// never exceeds the second and the second is never zero, so that the
    /// share lies between nothing and all: a counter beyond the whole counts
    /// as the whole, and the share is zero of one while no frame count is
    /// known or it asks for no comparison.
    pub fn ratio(&self) -> (share: (usize, usize))
        ensures
            share == self@.ratio(),
            share.0 <= share.1,
            share.1 >= 1,
    {
        let whole = match self.frame_count {
            Some(count) => if count > 0 {
                count - 1
            } else {
                0
            },
            None => 0,
        };
        let done = self.get_progress();
        if whole == 0 {
            (0, 1)
        } else if done >= whole {
            (whole, whole)
        } else {
            (done, whole)
        }
    }

    /// The status line to show as selected: the last one.
    pub fn selected(&self) -> (index: Option<usize>)
        ensures
            index == self@.selected(),
    {
        if self.info.len() > 0 {
            Some(self.info.len() - 1)
        } else {
            None
        }
    }
}

/// While comparing, the counter is the number of samples recorded.
pub proof fn lemma_counter_counts_samples(app: &App)
    ensures
        app@.phase == ProgressMode::Comparing ==> app@.counter == app@.samples.len(),
{
}

/// A field that is written once keeps what was written first: a second
/// write changes nothing, and a write to a field that is set changes nothing.
pub proof fn lemma_written_once(
    v: AppView,
    rate: FrameRate,
    other_rate: FrameRate,
    count: usize,
    other_count: usize,
    path: Seq<char>,
    other_path: Seq<char>,
)
    ensures
        v.with_frame_rate(rate).with_frame_rate(other_rate) == v.with_frame_rate(rate),
        v.with_frame_count(count).with_frame_count(other_count) == v.with_frame_count(count),
        v.with_scene_count(count).with_scene_count(other_count) == v.with_scene_count(count),
        v.with_cache(path).with_cache(other_path) == v.with_cache(path),
        v.frame_rate is Some ==> v.with_frame_rate(rate) == v,
        v.frame_count is Some ==> v.with_frame_count(count) == v,
        v.scene_count is Some ==> v.with_scene_count(count) == v,
        v.cache is Some ==> v.with_cache(path) == v,
        v.frame_rate is None ==> v.with_frame_rate(rate).frame_rate == Some(rate),
        v.frame_count is None ==> v.with_frame_count(count).frame_count == Some(count),
        v.scene_count is None ==> v.with_scene_count(count).scene_count == Some(count),
        v.cache is None ==> v.with_cache(path).cache == Some(path),
{
}

/// The step from comparing to splitting sets the counter to exactly one,
/// and comparisons reported after it change nothing.
pub proof fn lemma_split_resets_counter(v: AppView, threshold: u64, score: u64)
    requires
        v.phase == ProgressMode::Comparing,
    ensures
        v.split().phase == ProgressMode::Splitting,
        v.split().counter == 1,
        v.split().samples == v.samples,
        v.split().compared(threshold, score) == v.split(),
{
}

/// Within a phase each report adds exactly one to the counter, and no
/// report leads from splitting back to comparing.
pub proof fn lemma_counter_rises(v: AppView, threshold: u64, score: u64)
    ensures
        v.phase == ProgressMode::Comparing ==> v.compared(threshold, score).counter == v.counter
            + 1 && v.compared(threshold, score).phase == ProgressMode::Comparing,
        v.phase == ProgressMode::Splitting ==> v.split().counter == v.counter + 1,
        v.split().phase == ProgressMode::Splitting,
        v.phase == ProgressMode::Splitting ==> v.compared(threshold, score).phase
            == ProgressMode::Splitting,
{
}

/// The logs only grow: a comparison appends one sample or none and leaves
/// the samples before it as they were, and a status line leaves the lines
/// before it as they were.
pub proof fn lemma_logs_append_only(v: AppView, threshold: u64, score: u64, line: Seq<char>)
    ensures
        v.samples.is_prefix_of(v.compared(threshold, score).samples),
        v.messages.is_prefix_of(v.logged(line).messages),
        v.compared(threshold, score).messages == v.messages,
        v.logged(line).samples == v.samples,
        v.split().samples == v.samples && v.split().messages == v.messages,
{
}

} // verus!
