//! The window scanner: it slides a window of one anchor frame and its
//! lookahead candidates over the frames, takes the least dissimilarity in
//! each window as the window's sample, and cuts a scene wherever a sample of
//! the main sweep lies above the threshold.
//!
//! The scanner never touches a frame. It says which window comes next, is
//! told the scores measured in it, and decides.

use vstd::prelude::*;
use vstd::string::*;
use crate::error::PipelineError;
use crate::state::{App, AppView, ProgressMode, Sample};
use crate::text::{decimal, decimal_string};

verus! {

/// One scene: the frames from `start` to `end`, both included.
#[derive(Clone, Copy, Debug, PartialEq, Eq, Structural)]
pub struct SceneBoundary {
    pub start: usize,
    pub end: usize,
}

/// One window: the frame `anchor` and the `candidates` frames after it.
#[derive(Clone, Copy, Debug, PartialEq, Eq, Structural)]
pub struct Window {
    pub anchor: usize,
    pub candidates: usize,
}

/// The number of full windows, of `lookahead + 1` frames each.
pub open spec fn main_count(frames: nat, lookahead: nat) -> nat {
    if frames > lookahead {
        (frames - lookahead) as nat
    } else {
        0
    }
}

/// The number of windows of both sweeps: each frame but the last is the
/// anchor of one window, provided that there is a full window at all.
pub open spec fn window_count(frames: nat, lookahead: nat) -> nat {
    if frames > lookahead {
        (frames - 1) as nat
    } else {
        0
    }
}

/// The number of candidates in the window at `anchor`: the whole lookahead
/// in the main sweep, the frames that are left in the tail sweep.
pub open spec fn candidate_count(frames: nat, lookahead: nat, anchor: nat) -> nat
    recommends
        anchor < window_count(frames, lookahead),
{
    if anchor < main_count(frames, lookahead) {
        lookahead
    } else {
        (frames - 1 - anchor) as nat
    }
}

/// The least of `scores`; with no score at all, the largest number there is.
pub open spec fn min_of(scores: Seq<u64>) -> u64
    decreases scores.len(),
{
    if scores.len() == 0 {
        u64::MAX
    } else {
        let rest = min_of(scores.drop_last());
        if scores.last() < rest {
            scores.last()
        } else {
            rest
        }
    }
}

/// The positions of the samples that lie above the threshold, in order.
pub open spec fn cut_points(samples: Seq<u64>, threshold: u64) -> Seq<usize>
    decreases samples.len(),
{
    if samples.len() == 0 {
        Seq::empty()
    } else {
        let before = cut_points(samples.drop_last(), threshold);
        if samples.last() > threshold {
            before.push((samples.len() - 1) as usize)
        } else {
            before
        }
    }
}

/// Where the scene that is still open began: at the last cut, or at frame 0.
pub open spec fn last_start(cuts: Seq<usize>) -> usize {
    if cuts.len() == 0 {
        0
    } else {
        cuts.last()
    }
}

/// The scenes that the cuts have closed: each runs from the cut before it,
/// or from frame 0, to its own cut.
pub open spec fn closed_scenes(cuts: Seq<usize>) -> Seq<SceneBoundary> {
    Seq::new(
        cuts.len(),
        |j: int|
            SceneBoundary {
                start: if j == 0 {
                    0
                } else {
                    cuts[j - 1]
                },
                end: cuts[j],
            },
    )
}

/// All scenes of `frames` frames with the given cuts: the closed ones, then
/// the scene from the last cut to the last frame.
pub open spec fn scene_list(cuts: Seq<usize>, frames: nat) -> Seq<SceneBoundary> {
    if frames == 0 {
        closed_scenes(cuts)
    } else {
        closed_scenes(cuts).push(
            SceneBoundary { start: last_start(cuts), end: (frames - 1) as usize },
        )
    }
}

/// The status line for a comparison: the record's counter and the number
/// after it, the lookahead, and the sample as the caller wrote it.
pub open spec fn compare_message(counter: nat, lookahead: nat, shown: Seq<char>) -> Seq<char> {
    "compare frame "@ + decimal(counter) + " to "@ + decimal(counter + 1) + " [lookahead = "@
        + decimal(lookahead) + "]: "@ + shown + " "@
}

/// The record after a window's sample was reported: the sample is taken in
/// as a comparison, and the status line is appended with the counter as it
/// then stands.
pub open spec fn reported(
    v: AppView,
    threshold: u64,
    lookahead: nat,
    sample: u64,
    shown: Seq<char>,
) -> AppView {
    let counted = v.compared(threshold, sample);
    counted.logged(compare_message(counted.counter, lookahead, shown))
}

/// What was measured in one window.
#[derive(Clone, Debug)]
pub struct Reading {
    /// The scores between the anchor and each of its candidates.
    pub scores: Vec<u64>,
    /// The least of the scores as it is to stand in the status line. The
    /// scanner cannot write it: it knows the order of the scores only.
    pub shown: String,
}

/// What a scanner has been told so far.
pub struct ScannerView {
    pub frames: nat,
    pub lookahead: nat,
    pub threshold: u64,
    /// One sample for each window scanned, in the order of the anchors.
    pub samples: Seq<u64>,
}

impl ScannerView {
    /// Whether every window has been scanned.
    pub open spec fn done(self) -> bool {
        self.samples.len() >= window_count(self.frames, self.lookahead)
    }

    /// The samples of the main sweep that are there already.
    pub open spec fn main_samples(self) -> Seq<u64> {
        if self.samples.len() <= main_count(self.frames, self.lookahead) {
            self.samples
        } else {
            self.samples.take(main_count(self.frames, self.lookahead) as int)
        }
    }

    /// The cuts found so far. Only the main sweep cuts.
    pub open spec fn cuts(self) -> Seq<usize> {
        cut_points(self.main_samples(), self.threshold)
    }

    /// The frame at which the scene that is still open began.
    pub open spec fn last_scene_start(self) -> usize {
        last_start(self.cuts())
    }

    /// The window to scan next, if one is left.
    pub open spec fn next_window(self) -> Option<Window> {
        if self.done() {
            None
        } else {
            Some(
                Window {
                    anchor: self.samples.len() as usize,
                    candidates: candidate_count(self.frames, self.lookahead, self.samples.len()) as usize,
                },
            )
        }
    }

    /// The state after one more window gave `sample`.
    pub open spec fn observe(self, sample: u64) -> ScannerView {
        ScannerView { samples: self.samples.push(sample), ..self }
    }

    /// The scenes, once every window has been scanned.
    pub open spec fn scenes(self) -> Seq<SceneBoundary> {
        scene_list(self.cuts(), self.frames)
    }
}

/// The state of one sweep over the frames.
pub struct Scanner {
    frames: usize,
    lookahead: u8,
    threshold: u64,
    next: usize,
    last_scene: usize,
    scenes: Vec<SceneBoundary>,
    samples: Ghost<Seq<u64>>,
}

impl View for Scanner {
    type V = ScannerView;

    closed spec fn view(&self) -> ScannerView {
        ScannerView {
            frames: self.frames as nat,
            lookahead: self.lookahead as nat,
            threshold: self.threshold,
            samples: self.samples@,
        }
    }
}

/// The least of the scores, or the largest number there is where there is
/// no score.
pub fn min_score(scores: &Vec<u64>) -> (least: u64)
    ensures
        least == min_of(scores@),
{
    let mut least: u64 = u64::MAX;
    let mut i: usize = 0;
    while i < scores.len()
        invariant
            i <= scores.len(),
            least == min_of(scores@.take(i as int)),
        decreases scores.len() - i,
    {
        proof {
            assert(scores@.take(i + 1).drop_last() =~= scores@.take(i as int));
        }
        if scores[i] < least {
            least = scores[i];
        }
        i = i + 1;
    }
    proof {
        assert(scores@.take(i as int) =~= scores@);
    }
    least
}

impl Scanner {
    /// The invariant of a scanner: it has scanned no more windows than there
    /// are, and the scenes it holds are those that its samples have closed.
    pub closed spec fn wf(&self) -> bool {
        &&& self.lookahead >= 1
        &&& self.next == self.samples@.len()
        &&& self.next <= window_count(self.frames as nat, self.lookahead as nat)
        &&& self.scenes@ == closed_scenes(self@.cuts())
        &&& self.last_scene == self@.last_scene_start()
    }

    /// A scanner for `frames` frames that has scanned nothing yet. A
    /// lookahead below one is a configuration error.
    pub fn new(frames: usize, lookahead: u8, threshold: u64) -> (r: Result<Scanner, PipelineError>)
        ensures
            lookahead < 1 <==> r is Err,
            r is Err ==> r == Err::<Scanner, PipelineError>(PipelineError::ConfigError),
            r is Ok ==> r->Ok_0.wf() && r->Ok_0@ == (ScannerView {
                frames: frames as nat,
                lookahead: lookahead as nat,
                threshold,
                samples: Seq::empty(),
            }),
    {
        if lookahead < 1 {
            return Err(PipelineError::ConfigError);
        }
        let scanner = Scanner {
            frames,
            lookahead,
            threshold,
            next: 0,
            last_scene: 0,
            scenes: Vec::new(),
            samples: Ghost(Seq::empty()),
        };
        assert(scanner.scenes@ =~= closed_scenes(scanner@.cuts()));
        Ok(scanner)
    }

    /// The window to scan next: its anchor and the number of candidates to
    /// compare the anchor with. `None` once the sweep is complete.
    pub fn next_window(&self) -> (w: Option<Window>)
        requires
            self.wf(),
        ensures
            w == self@.next_window(),
    {
        if self.frames <= self.lookahead as usize || self.next >= self.frames - 1 {
            None
        } else if self.next < self.frames - self.lookahead as usize {
            Some(Window { anchor: self.next, candidates: self.lookahead as usize })
        } else {
            Some(Window { anchor: self.next, candidates: self.frames - 1 - self.next })
        }
    }

    /// The frame at which the scene that is still open began.
    pub fn last_scene_start(&self) -> (start: usize)
        requires
            self.wf(),
        ensures
            start == self@.last_scene_start(),
    {
        self.last_scene
    }

    /// Takes in the outcome of the next window: what was measured in it, one
    /// score for each of its candidates, or `None` where one of its frames
    /// could not be read as an image.
    ///
    /// An unreadable frame is a decode error and changes nothing. Otherwise
    /// the least score is the window's sample. In the main sweep a sample
    /// above the threshold closes the scene that was open, at the anchor,
    /// and the next scene begins there; in the tail sweep nothing is cut.
    /// Either way the sample is reported to `app` and a status line is
    /// appended.
    pub fn compare_window(&mut self, app: &mut App, reading: &Option<Reading>) -> (r: Result<
        (),
        PipelineError,
    >)
        requires
            old(self).wf(),
            !old(self)@.done(),
            reading is Some ==> reading->0.scores@.len() == candidate_count(
                old(self)@.frames,
                old(self)@.lookahead,
                old(self)@.samples.len(),
            ),
        ensures
            final(self).wf(),
            reading is None ==> r == Err::<(), PipelineError>(PipelineError::DecodeError)
                && final(self)@ == old(self)@ && final(app)@ == old(app)@,
            reading is Some ==> r is Ok && final(self)@ == old(self)@.observe(
                min_of(reading->0.scores@),
            ) && final(app)@ == reported(
                old(app)@,
                old(self)@.threshold,
                old(self)@.lookahead,
                min_of(reading->0.scores@),
                reading->0.shown@,
            ),
            final(self)@.last_scene_start() >= old(self)@.last_scene_start(),
    {
        let reading = match reading {
            None => {
                return Err(PipelineError::DecodeError);
            },
            Some(reading) => reading,
        };
        let least = min_score(&reading.scores);
        let anchor = self.next;
        let ghost before = self@;
        proof {
            lemma_observe_cuts(before, least);
            lemma_cut_points(before.main_samples(), before.threshold);
        }
        if anchor < self.frames - self.lookahead as usize && least > self.threshold {
            self.scenes.push(SceneBoundary { start: self.last_scene, end: anchor });
            self.last_scene = anchor;
        }
        self.next = anchor + 1;
        self.samples = Ghost(before.samples.push(least));
        assert(self@ == before.observe(least));
        assert(self.scenes@ =~= closed_scenes(self@.cuts()));

        app.progress_compare(self.threshold, least);
        let counter = app.get_progress();
        let mut line = "compare frame ".to_owned();
        line.append(decimal_string(counter as u128).as_str());
        line.append(" to ");
        line.append(decimal_string(counter as u128 + 1).as_str());
        line.append(" [lookahead = ");
        line.append(decimal_string(self.lookahead as u128).as_str());
        line.append("]: ");
        line.append(reading.shown.as_str());
        line.append(" ");
        app.info(line.as_str());
        Ok(())
    }

    /// The scenes of the whole run, once every window has been scanned: the
    /// scenes that the cuts closed, then the scene that runs to the last
    /// frame. `None` while windows are left to scan.
    pub fn finish(self) -> (scenes: Option<Vec<SceneBoundary>>)
        requires
            self.wf(),
        ensures
            scenes is Some <==> self@.done(),
            scenes is Some ==> scenes->0@ == self@.scenes(),
    {
        if self.frames > self.lookahead as usize && self.next < self.frames - 1 {
            return None;
        }
        let mut scenes = self.scenes;
        if self.frames > 0 {
            scenes.push(SceneBoundary { start: self.last_scene, end: self.frames - 1 });
        }
        Some(scenes)
    }
}

/// The number of rows at the head of `table` that could be read.
pub open spec fn readable_rows(table: Seq<Option<Reading>>) -> nat
    decreases table.len(),
{
    if table.len() == 0 || table[0] is None {
        0
    } else {
        1 + readable_rows(table.drop_first())
    }
}

/// The samples of the first `count` rows of `table`: the least score of each.
pub open spec fn row_samples(table: Seq<Option<Reading>>, count: nat) -> Seq<u64> {
    Seq::new(count, |i: int| min_of(table[i]->0.scores@))
}

/// The sample of a window and how it is written.
pub struct Report {
    pub sample: u64,
    pub shown: Seq<char>,
}

/// What the first `count` rows of `table` report: the sample of each and the
/// text that shows it.
pub open spec fn row_reports(table: Seq<Option<Reading>>, count: nat) -> Seq<Report> {
    Seq::new(
        count,
        |i: int| Report { sample: min_of(table[i]->0.scores@), shown: table[i]->0.shown@ },
    )
}

/// Whether `table` has the shape of a sweep over `frames` frames: one row
/// for each window, and in each readable row one score for each candidate
/// of its window.
pub open spec fn table_fits(table: Seq<Option<Reading>>, frames: nat, lookahead: nat) -> bool {
    &&& table.len() == window_count(frames, lookahead)
    &&& forall|i: int|
        0 <= i < table.len() && (#[trigger] table[i]) is Some ==> table[i]->0.scores@.len()
            == candidate_count(frames, lookahead, i as nat)
}

/// The record after the windows reported `reports`, one after the other.
pub open spec fn app_after(v: AppView, reports: Seq<Report>, threshold: u64, lookahead: nat) -> AppView
    decreases reports.len(),
{
    if reports.len() == 0 {
        v
    } else {
        reported(
            app_after(v, reports.drop_last(), threshold, lookahead),
            threshold,
            lookahead,
            reports.last().sample,
            reports.last().shown,
        )
    }
}

/// Scans all windows of `frames` frames and returns the scenes.
///
/// `table` holds the outcome of each window, in the order of the anchors:
/// what was measured in it, one score for each candidate, or `None` where a
/// frame of the window could not be read. It has one row for each window.
///
/// A lookahead below one is a configuration error, and nothing is recorded.
/// Otherwise the stage is announced and the rows are taken in one by one,
/// each with its sample and status line, up to the first unreadable row,
/// which is a decode error. With every row readable the result is the list
/// of scenes: one closed at each sample of the main sweep that lies above
/// the threshold, and the scene that runs to the last frame.
pub fn compare_frames(
    app: &mut App,
    table: &Vec<Option<Reading>>,
    frames: usize,
    threshold: u64,
    lookahead: u8,
) -> (r: Result<Vec<SceneBoundary>, PipelineError>)
    requires
        lookahead >= 1 ==> table_fits(table@, frames as nat, lookahead as nat),
    ensures
        lookahead < 1 ==> r == Err::<Vec<SceneBoundary>, PipelineError>(PipelineError::ConfigError)
            && final(app)@ == old(app)@,
        lookahead >= 1 ==> final(app)@ == app_after(
            old(app)@.logged("compare frames"@),
            row_reports(table@, readable_rows(table@)),
            threshold,
            lookahead as nat,
        ),
        lookahead >= 1 && readable_rows(table@) < table@.len() ==> r == Err::<
            Vec<SceneBoundary>,
            PipelineError,
        >(PipelineError::DecodeError),
        lookahead >= 1 && readable_rows(table@) >= table@.len() ==> r is Ok && r->Ok_0@
            == scene_list(
            cut_points(
                row_samples(table@, main_count(frames as nat, lookahead as nat)),
                threshold,
            ),
            frames as nat,
        ),
{
    let mut scanner = match Scanner::new(frames, lookahead, threshold) {
        Err(e) => {
            return Err(e);
        },
        Ok(scanner) => scanner,
    };
    app.info("compare frames");
    let ghost start = app@;
    let mut i: usize = 0;
    assert(row_samples(table@, 0) =~= Seq::empty());
    assert(row_reports(table@, 0) =~= Seq::empty());
    while i < table.len()
        invariant
            scanner.wf(),
            i <= table.len(),
            lookahead >= 1,
            table_fits(table@, frames as nat, lookahead as nat),
            scanner@ == (ScannerView {
                frames: frames as nat,
                lookahead: lookahead as nat,
                threshold,
                samples: row_samples(table@, i as nat),
            }),
            forall|j: int| 0 <= j < i ==> table@[j] is Some,
            start == old(app)@.logged("compare frames"@),
            app@ == app_after(start, row_reports(table@, i as nat), threshold, lookahead as nat),
        decreases table.len() - i,
    {
        match scanner.compare_window(app, &table[i]) {
            Err(e) => {
                proof {
                    lemma_readable_rows(table@, i as nat);
                }
                return Err(e);
            },
            Ok(()) => {},
        }
        proof {
            let longer = row_samples(table@, (i + 1) as nat);
            assert(longer.drop_last() =~= row_samples(table@, i as nat));
            assert(scanner@.samples =~= longer);
            let reports = row_reports(table@, (i + 1) as nat);
            assert(reports.drop_last() =~= row_reports(table@, i as nat));
        }
        i = i + 1;
    }
    proof {
        lemma_readable_rows(table@, i as nat);
        let main = main_count(frames as nat, lookahead as nat);
        assert(scanner@.main_samples() =~= row_samples(table@, main));
    }
    Ok(scanner.finish().unwrap())
}

/// The readable rows at the head of a table end at the first row that could
/// not be read, or with the table.
pub proof fn lemma_readable_rows(table: Seq<Option<Reading>>, count: nat)
    requires
        count <= table.len(),
        forall|j: int| 0 <= j < count ==> table[j] is Some,
        count < table.len() ==> table[count as int] is None,
    ensures
        readable_rows(table) == count,
    decreases count,
{
    if count > 0 {
        let rest = table.drop_first();
        assert forall|j: int| 0 <= j < count - 1 implies rest[j] is Some by {
            assert(rest[j] == table[j + 1]);
        }
        lemma_readable_rows(rest, (count - 1) as nat);
    }
}

/// What holds of every scanner: its lookahead is at least one, and it has
/// scanned no more windows than its frames have.
pub proof fn lemma_scanner_bounds(scanner: &Scanner)
    requires
        scanner.wf(),
    ensures
        scanner@.lookahead >= 1,
        scanner@.frames <= usize::MAX,
        scanner@.samples.len() <= window_count(scanner@.frames, scanner@.lookahead),
{
}

/// How one more sample changes the cuts: a sample of the main sweep that
/// lies above the threshold adds its position, any other sample adds nothing.
pub proof fn lemma_observe_cuts(before: ScannerView, sample: u64)
    requires
        before.samples.len() < usize::MAX,
    ensures
        before.observe(sample).cuts() == if before.samples.len() < main_count(
            before.frames,
            before.lookahead,
        ) && sample > before.threshold {
            before.cuts().push(before.samples.len() as usize)
        } else {
            before.cuts()
        },
{
    let after = before.observe(sample);
    let main = main_count(before.frames, before.lookahead);
    if before.samples.len() < main {
        assert(after.main_samples() == after.samples);
        assert(after.samples.drop_last() =~= before.samples);
    } else {
        assert(after.main_samples() =~= before.main_samples());
    }
}

/// What the cuts are: exactly the positions whose sample lies above the
/// threshold, each once, in rising order.
pub proof fn lemma_cut_points(samples: Seq<u64>, threshold: u64)
    requires
        samples.len() <= usize::MAX,
    ensures
        forall|j: int|
            0 <= j < cut_points(samples, threshold).len() ==> {
                &&& (#[trigger] cut_points(samples, threshold)[j]) < samples.len()
                &&& samples[cut_points(samples, threshold)[j] as int] > threshold
            },
        forall|j: int, k: int|
            0 <= j < k < cut_points(samples, threshold).len() ==> cut_points(samples, threshold)[j]
                < cut_points(samples, threshold)[k],
        forall|i: int|
            0 <= i < samples.len() && #[trigger] samples[i] > threshold ==> cut_points(
                samples,
                threshold,
            ).contains(i as usize),
    decreases samples.len(),
{
    if samples.len() > 0 {
        let shorter = samples.drop_last();
        let before = cut_points(shorter, threshold);
        let cuts = cut_points(samples, threshold);
        lemma_cut_points(shorter, threshold);
        assert forall|i: int| 0 <= i < samples.len() && #[trigger] samples[i] > threshold implies cuts.contains(
            i as usize,
        ) by {
            if i < shorter.len() {
                assert(shorter[i] > threshold);
                let j = choose|j: int| 0 <= j < before.len() && before[j] == i as usize;
                assert(cuts[j] == i as usize);
            } else {
                assert(cuts[cuts.len() - 1] == i as usize);
            }
        }
    }
}

/// The least of some scores is one of them, and none is below it.
pub proof fn lemma_min_of(scores: Seq<u64>)
    requires
        scores.len() >= 1,
    ensures
        scores.contains(min_of(scores)),
        forall|i: int| 0 <= i < scores.len() ==> min_of(scores) <= #[trigger] scores[i],
    decreases scores.len(),
{
    let shorter = scores.drop_last();
    let last = scores.len() - 1;
    if shorter.len() >= 1 {
        lemma_min_of(shorter);
        let at = choose|i: int| 0 <= i < shorter.len() && shorter[i] == min_of(shorter);
        assert(scores[at] == min_of(shorter));
        assert forall|i: int| 0 <= i < scores.len() implies min_of(scores) <= #[trigger] scores[i] by {
            if i < last {
                assert(shorter[i] == scores[i]);
            }
        }
    } else {
        assert(min_of(shorter) == u64::MAX);
    }
    assert(scores[last] == scores.last());
}

/// With more frames than the lookahead, the main sweep comes first and has
/// one full window for each frame that has the whole lookahead after it:
/// `frames - lookahead` of them. The tail sweep follows with the
/// `lookahead - 1` windows that are left, each holding the frames up to the
/// last one.
pub proof fn lemma_sweep_shape(frames: nat, lookahead: nat)
    requires
        lookahead >= 1,
        frames > lookahead,
    ensures
        main_count(frames, lookahead) == frames - lookahead,
        window_count(frames, lookahead) == main_count(frames, lookahead) + lookahead - 1,
        forall|anchor: nat|
            anchor < main_count(frames, lookahead) ==> #[trigger] candidate_count(
                frames,
                lookahead,
                anchor,
            ) == lookahead,
        forall|anchor: nat|
            main_count(frames, lookahead) <= anchor < window_count(frames, lookahead) ==> 1
                <= #[trigger] candidate_count(frames, lookahead, anchor) < lookahead
                && anchor + candidate_count(frames, lookahead, anchor) == frames - 1,
{
}

/// While comparing, a sweep adds one sample, one count and one status line
/// for each window, in the order of the windows, and changes nothing else.
/// Each status line carries the counter as it stood when the line was
/// written.
pub proof fn lemma_app_after_comparing(v: AppView, reports: Seq<Report>, threshold: u64, lookahead: nat)
    requires
        v.phase == ProgressMode::Comparing,
    ensures
        app_after(v, reports, threshold, lookahead) == (AppView {
            counter: v.counter + reports.len(),
            samples: v.samples + Seq::new(
                reports.len(),
                |i: int| Sample { score: reports[i].sample, threshold },
            ),
            messages: v.messages + Seq::new(
                reports.len(),
                |i: int| compare_message((v.counter + i + 1) as nat, lookahead, reports[i].shown),
            ),
            ..v
        }),
    decreases reports.len(),
{
    let after = app_after(v, reports, threshold, lookahead);
    let direct = AppView {
        counter: v.counter + reports.len(),
        samples: v.samples + Seq::new(
            reports.len(),
            |i: int| Sample { score: reports[i].sample, threshold },
        ),
        messages: v.messages + Seq::new(
            reports.len(),
            |i: int| compare_message((v.counter + i + 1) as nat, lookahead, reports[i].shown),
        ),
        ..v
    };
    if reports.len() > 0 {
        lemma_app_after_comparing(v, reports.drop_last(), threshold, lookahead);
    }
    assert(after.samples =~= direct.samples);
    assert(after.messages =~= direct.messages);
}

/// Once splitting has begun, a sweep adds its status lines and nothing else:
/// no sample is recorded and the counter stays.
pub proof fn lemma_app_after_splitting(v: AppView, reports: Seq<Report>, threshold: u64, lookahead: nat)
    requires
        v.phase == ProgressMode::Splitting,
    ensures
        app_after(v, reports, threshold, lookahead) == (AppView {
            messages: v.messages + Seq::new(
                reports.len(),
                |i: int| compare_message(v.counter, lookahead, reports[i].shown),
            ),
            ..v
        }),
    decreases reports.len(),
{
    let after = app_after(v, reports, threshold, lookahead);
    if reports.len() > 0 {
        lemma_app_after_splitting(v, reports.drop_last(), threshold, lookahead);
    }
    assert(after.messages =~= v.messages + Seq::new(
        reports.len(),
        |i: int| compare_message(v.counter, lookahead, reports[i].shown),
    ));
}

/// Where no sample lies above the threshold nothing is cut, and the frames
/// form one scene, from the first to the last.
pub proof fn lemma_quiet_sweep_is_one_scene(samples: Seq<u64>, threshold: u64, frames: nat)
    requires
        frames >= 1,
        forall|i: int| 0 <= i < samples.len() ==> samples[i] <= threshold,
    ensures
        cut_points(samples, threshold) == Seq::<usize>::empty(),
        scene_list(cut_points(samples, threshold), frames) == seq![
            SceneBoundary { start: 0, end: (frames - 1) as usize },
        ],
    decreases samples.len(),
{
    if samples.len() > 0 {
        lemma_quiet_sweep_is_one_scene(samples.drop_last(), threshold, frames);
    }
    assert(scene_list(Seq::<usize>::empty(), frames) =~= seq![
        SceneBoundary { start: 0, end: (frames - 1) as usize },
    ]);
}

/// The frame at which the open scene began never moves back: after more
/// samples it is where it was after fewer, or later.
pub proof fn lemma_last_start_never_moves_back(samples: Seq<u64>, fewer: int, threshold: u64)
    requires
        0 <= fewer <= samples.len() <= usize::MAX,
    ensures
        last_start(cut_points(samples.take(fewer), threshold)) <= last_start(
            cut_points(samples, threshold),
        ),
    decreases samples.len(),
{
    if fewer == samples.len() {
        assert(samples.take(fewer) =~= samples);
    } else {
        let shorter = samples.drop_last();
        assert(shorter.take(fewer) =~= samples.take(fewer));
        lemma_last_start_never_moves_back(shorter, fewer, threshold);
        lemma_cut_points(shorter, threshold);
    }
}

/// The scenes of a sweep lie in order and cover the frames: there is one
/// more scene than cuts, the first begins at frame 0, the last ends at the
/// last frame, none ends before it begins, each begins at the frame at which
/// the one before it ended, and so no scene reaches past the start of a
/// later one.
pub proof fn lemma_scenes_in_order(samples: Seq<u64>, threshold: u64, frames: nat)
    requires
        samples.len() < frames <= usize::MAX,
    ensures
        ({
            let scenes = scene_list(cut_points(samples, threshold), frames);
            &&& scenes.len() == cut_points(samples, threshold).len() + 1
            &&& scenes[0].start == 0
            &&& scenes.last().end == frames - 1
            &&& forall|j: int| 0 <= j < scenes.len() ==> (#[trigger] scenes[j]).start <= scenes[j].end
            &&& forall|j: int|
                0 <= j < scenes.len() - 1 ==> (#[trigger] scenes[j]).end == scenes[j + 1].start
            &&& forall|j: int, k: int|
                0 <= j < k < scenes.len() ==> (#[trigger] scenes[j]).start <= (
                #[trigger] scenes[k]).start && scenes[j].end <= scenes[k].start
        }),
{
    lemma_cut_points(samples, threshold);
}

/// What a sweep finds depends on the scores alone: two tables that hold the
/// same scores, row by row, give the same scenes.
pub proof fn lemma_same_scores_same_scenes(
    one: Seq<Option<Reading>>,
    other: Seq<Option<Reading>>,
    frames: nat,
    lookahead: nat,
    threshold: u64,
)
    requires
        one.len() == other.len(),
        main_count(frames, lookahead) <= one.len(),
        forall|i: int|
            0 <= i < one.len() ==> one[i] is Some && other[i] is Some && one[i]->0.scores@
                == other[i]->0.scores@,
    ensures
        scene_list(cut_points(row_samples(one, main_count(frames, lookahead)), threshold), frames)
            == scene_list(
            cut_points(row_samples(other, main_count(frames, lookahead)), threshold),
            frames,
        ),
{
    assert(row_samples(one, main_count(frames, lookahead)) =~= row_samples(
        other,
        main_count(frames, lookahead),
    ));
}

/// A window that fits its place holds a score, and its sample is one of its
/// scores: the least of them.
pub proof fn lemma_sample_is_a_score(frames: nat, lookahead: nat, anchor: nat, scores: Seq<u64>)
    requires
        lookahead >= 1,
        anchor < window_count(frames, lookahead),
        scores.len() == candidate_count(frames, lookahead, anchor),
    ensures
        scores.len() >= 1,
        scores.contains(min_of(scores)),
        forall|i: int| 0 <= i < scores.len() ==> min_of(scores) <= #[trigger] scores[i],
{
    lemma_min_of(scores);
}

} // verus!
