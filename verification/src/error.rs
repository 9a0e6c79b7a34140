//! The failures that end a run.

use vstd::prelude::*;

verus! {

/// Why the work of an external tool counts as failed.
#[derive(Clone, Copy, Debug, PartialEq, Eq, Structural)]
pub enum SubprocessCause {
    /// The tool reported failure and the input file does not exist.
    InputMissing,
    /// The metadata probe reported failure although the input file is there.
    ProbeFailed,
    /// The extraction of the frames reported failure.
    ExtractionFailed,
    /// The slicing of a scene reported failure.
    SlicingFailed,
    /// The probe's answer is no frame rate.
    BadOutput,
    /// The probe's answer has a slash, but is no ratio of two numbers.
    BadFraction,
    /// The probe's answer is no frame count.
    BadFrameCount,
}

/// A fatal error of the pipeline. None of them is retried.
#[derive(Clone, Copy, Debug, PartialEq, Eq, Structural)]
pub enum PipelineError {
    /// A parameter of the run is invalid: the lookahead is below one.
    ConfigError,
    /// An external tool failed.
    SubprocessError(SubprocessCause),
    /// An extracted frame could not be read as an image.
    DecodeError,
    /// The frame cache could not be created or removed.
    IoError,
}

impl PipelineError {
    /// The text shown for this error.
    pub open spec fn spec_message(self) -> Seq<char> {
        match self {
            PipelineError::ConfigError => "lookahead must be at least 1"@,
            PipelineError::SubprocessError(SubprocessCause::InputMissing) => "input file does not exist"@,
            PipelineError::SubprocessError(SubprocessCause::ProbeFailed) => "ffprobe failed"@,
            PipelineError::SubprocessError(SubprocessCause::ExtractionFailed) => "failed to split to image sequence"@,
            PipelineError::SubprocessError(SubprocessCause::SlicingFailed) => "failed to split video"@,
            PipelineError::SubprocessError(SubprocessCause::BadOutput) => "failed to parse ffprobe output"@,
            PipelineError::SubprocessError(SubprocessCause::BadFraction) => "failed to parse framerate fraction"@,
            PipelineError::SubprocessError(SubprocessCause::BadFrameCount) => "could not parse frame count from ffprobe"@,
            PipelineError::DecodeError => "failed to open image from cache"@,
            PipelineError::IoError => "failed to prepare the frame cache"@,
        }
    }

    /// The human-readable cause of this error. A missing input file, each
    /// tool that failed and each answer that could not be read have a text
    /// of their own.
    pub fn message(&self) -> (text: String)
        ensures
            text@ == self.spec_message(),
    {
        match self {
            PipelineError::ConfigError => "lookahead must be at least 1".to_owned(),
            PipelineError::SubprocessError(SubprocessCause::InputMissing) => "input file does not exist".to_owned(),
            PipelineError::SubprocessError(SubprocessCause::ProbeFailed) => "ffprobe failed".to_owned(),
            PipelineError::SubprocessError(SubprocessCause::ExtractionFailed) => "failed to split to image sequence".to_owned(),
            PipelineError::SubprocessError(SubprocessCause::SlicingFailed) => "failed to split video".to_owned(),
            PipelineError::SubprocessError(SubprocessCause::BadOutput) => "failed to parse ffprobe output".to_owned(),
            PipelineError::SubprocessError(SubprocessCause::BadFraction) => "failed to parse framerate fraction".to_owned(),
            PipelineError::SubprocessError(SubprocessCause::BadFrameCount) => "could not parse frame count from ffprobe".to_owned(),
            PipelineError::DecodeError => "failed to open image from cache".to_owned(),
            PipelineError::IoError => "failed to prepare the frame cache".to_owned(),
        }
    }
}

} // verus!
