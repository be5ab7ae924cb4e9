//! What can go wrong, and how badly.

use vstd::prelude::*;

verus! {

/// Why a configuration is refused before the loop starts.
#[derive(Clone, Copy, Debug, PartialEq, Eq, Structural)]
pub enum ConfigError {
    /// The symbol ramp has fewer than two symbols.
    RampTooShort,
    /// A symbol occurs twice in the ramp.
    RampRepeatsSymbol,
    /// A width or a height is zero.
    EmptyResolution,
    /// A frame would not fit the machine's address range.
    ResolutionTooLarge,
    /// The frame rate is zero.
    ZeroFrameRate,
    /// The font scale is zero.
    ZeroFontScale,
    /// A canvas does not have the size the encoder was told.
    FrameSizeMismatch,
    /// The font could not be loaded.
    FontUnavailable,
}

/// Every failure the pipeline can meet.
#[derive(Clone, Copy, Debug, PartialEq, Eq, Structural)]
pub enum PipelineError {
    /// The startup configuration is invalid.
    Config(ConfigError),
    /// The device failed to deliver a frame.
    Capture,
    /// A frame's bytes are malformed or of the wrong size.
    Decode,
    /// The encoder process could not be started.
    SinkUnavailable,
    /// The encoder process has gone away.
    BrokenPipe,
    /// A still image could not be written.
    Io,
}

/// What the loop does about a failure.
#[derive(Clone, Copy, Debug, PartialEq, Eq, Structural)]
pub enum Severity {
    /// The process must not enter the loop.
    FatalAtStartup,
    /// The loop ends.
    FatalToLoop,
    /// The current frame is dropped and the loop goes on.
    DropFrame,
    /// The failure is reported; the configuration decides whether to go on.
    Reported,
}

impl PipelineError {
    pub open spec fn severity_spec(self) -> Severity {
        match self {
            PipelineError::Config(_) => Severity::FatalAtStartup,
            PipelineError::Capture => Severity::FatalToLoop,
            PipelineError::Decode => Severity::DropFrame,
            PipelineError::SinkUnavailable => Severity::FatalToLoop,
            PipelineError::BrokenPipe => Severity::FatalToLoop,
            PipelineError::Io => Severity::Reported,
        }
    }

    /// How the loop treats this failure.
    pub fn severity(self) -> (s: Severity)
        ensures
            s == self.severity_spec(),
    {
        match self {
            PipelineError::Config(_) => Severity::FatalAtStartup,
            PipelineError::Capture => Severity::FatalToLoop,
            PipelineError::Decode => Severity::DropFrame,
            PipelineError::SinkUnavailable => Severity::FatalToLoop,
            PipelineError::BrokenPipe => Severity::FatalToLoop,
            PipelineError::Io => Severity::Reported,
        }
    }
}

} // verus!
