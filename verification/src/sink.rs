//! The stream to the encoder process, as a protocol: what may be written
//! when, and what a failed write means. The process itself is started, fed
//! and awaited by the program around this library.

use vstd::prelude::*;
use crate::config::Resolution;
use crate::error::{ConfigError, PipelineError};
use crate::pixels::PixelBuffer;

verus! {

/// Where the stream stands.
#[derive(Clone, Copy, Debug, PartialEq, Eq, Structural)]
pub enum SinkState {
    /// The encoder has not been started.
    Idle,
    /// The encoder is running and takes frames.
    Streaming,
    /// The stream is over: it was closed, it broke, or it never started.
    Closed,
}

/// The mathematical model of a stream sink.
pub struct SinkShape {
    pub state: SinkState,
    /// The frame size the encoder was told.
    pub size: Resolution,
    /// The frame rate the encoder was told.
    pub frame_rate: u32,
    /// Whether an encoder process was started whose exit status nobody has
    /// collected yet.
    pub awaiting_exit: bool,
}

impl SinkShape {
    /// A running encoder is one that still has to be awaited; one that was
    /// never started does not.
    pub open spec fn wf(self) -> bool {
        &&& self.state == SinkState::Idle ==> !self.awaiting_exit
        &&& self.state == SinkState::Streaming ==> self.awaiting_exit
    }

    /// The sink after the attempt to start the encoder. Only an idle sink
    /// can be opened; an attempt on any other changes nothing.
    pub open spec fn opened(self, started: bool) -> SinkShape {
        if self.state != SinkState::Idle {
            self
        } else if started {
            SinkShape { state: SinkState::Streaming, awaiting_exit: true, ..self }
        } else {
            SinkShape { state: SinkState::Closed, ..self }
        }
    }

    /// What the attempt to start the encoder comes to: a sink that is
    /// already streaming stays so, one that is closed cannot be started.
    pub open spec fn open_verdict(self, started: bool) -> Result<(), PipelineError> {
        match self.state {
            SinkState::Idle => if started {
                Ok(())
            } else {
                Err(PipelineError::SinkUnavailable)
            },
            SinkState::Streaming => Ok(()),
            SinkState::Closed => Err(PipelineError::SinkUnavailable),
        }
    }

    /// Whether a canvas of the given size may be written now, and if not,
    /// why not.
    pub open spec fn write_verdict(self, width: nat, height: nat) -> Result<(), PipelineError> {
        match self.state {
            SinkState::Idle => Err(PipelineError::SinkUnavailable),
            SinkState::Closed => Err(PipelineError::BrokenPipe),
            SinkState::Streaming => if width == self.size.width && height == self.size.height {
                Ok(())
            } else {
                Err(PipelineError::Config(ConfigError::FrameSizeMismatch))
            },
        }
    }

    /// The sink after a write that the encoder accepted or did not accept.
    /// A write that was not accepted ends the stream.
    pub open spec fn after_write(self, accepted: bool) -> SinkShape {
        if self.state == SinkState::Streaming && !accepted {
            SinkShape { state: SinkState::Closed, ..self }
        } else {
            self
        }
    }

    /// The sink after it was closed.
    pub open spec fn closed(self) -> SinkShape {
        SinkShape { state: SinkState::Closed, awaiting_exit: false, ..self }
    }
}

/// Once a write has failed, every later write is refused with `BrokenPipe`,
/// whatever the canvas, and nothing brings the stream back.
pub proof fn lemma_broken_stays_broken(
    sink: SinkShape,
    width: nat,
    height: nat,
    started: bool,
    accepted: bool,
)
    requires
        sink.state == SinkState::Streaming,
    ensures
        sink.after_write(false).write_verdict(width, height) == Err::<(), PipelineError>(
            PipelineError::BrokenPipe,
        ),
        sink.after_write(false).opened(started).state == SinkState::Closed,
        sink.after_write(false).after_write(accepted).state == SinkState::Closed,
        sink.after_write(false).awaiting_exit == sink.awaiting_exit,
{
}

/// Every step keeps a well-formed sink well-formed, and an encoder that was
/// started stays one to be awaited until the sink is closed.
pub proof fn lemma_sink_steps_keep_wf(sink: SinkShape, flag: bool)
    requires
        sink.wf(),
    ensures
        sink.opened(flag).wf(),
        sink.after_write(flag).wf(),
        sink.closed().wf(),
        sink.awaiting_exit ==> sink.opened(flag).awaiting_exit && sink.after_write(
            flag,
        ).awaiting_exit,
        sink.closed().closed() == sink.closed(),
{
}

/// The stream to the encoder.
pub struct StreamSink {
    state: SinkState,
    size: Resolution,
    frame_rate: u32,
    awaiting_exit: bool,
}

impl View for StreamSink {
    type V = SinkShape;

    closed spec fn view(&self) -> SinkShape {
        SinkShape {
            state: self.state,
            size: self.size,
            frame_rate: self.frame_rate,
            awaiting_exit: self.awaiting_exit,
        }
    }
}

impl StreamSink {
    pub open spec fn wf(&self) -> bool {
        self@.wf()
    }

    /// An idle sink for frames of the given size and rate.
    pub fn new(size: Resolution, frame_rate: u32) -> (sink: StreamSink)
        ensures
            sink.wf(),
            sink@ == (SinkShape { state: SinkState::Idle, size, frame_rate, awaiting_exit: false }),
    {
        StreamSink { state: SinkState::Idle, size, frame_rate, awaiting_exit: false }
    }

    pub fn state(&self) -> (s: SinkState)
        ensures
            s == self@.state,
    {
        self.state
    }

    /// The frame size the encoder must be told.
    pub fn size(&self) -> (r: Resolution)
        ensures
            r == self@.size,
    {
        self.size
    }

    /// The frame rate the encoder must be told.
    pub fn frame_rate(&self) -> (r: u32)
        ensures
            r == self@.frame_rate,
    {
        self.frame_rate
    }

    /// Records the attempt to start the encoder: `started` says whether the
    /// process came up.
    pub fn open(&mut self, started: bool) -> (out: Result<(), PipelineError>)
        ensures
            final(self)@ == old(self)@.opened(started),
            out == old(self)@.open_verdict(started),
    {
        match self.state {
            SinkState::Idle => {
                if started {
                    self.state = SinkState::Streaming;
                    self.awaiting_exit = true;
                    Ok(())
                } else {
                    self.state = SinkState::Closed;
                    Err(PipelineError::SinkUnavailable)
                }
            },
            SinkState::Streaming => Ok(()),
            SinkState::Closed => Err(PipelineError::SinkUnavailable),
        }
    }

    /// The bytes to hand to the encoder for this canvas: its raw pixels,
    /// row by row, three bytes per pixel, nothing before, between or after.
    /// Refused unless the sink is streaming and the canvas has the size the
    /// encoder was told, so every frame that reaches the encoder has exactly
    /// the length it expects.
    pub fn frame_bytes<'a>(&self, canvas: &'a PixelBuffer) -> (out: Result<&'a [u8], PipelineError>)
        requires
            canvas.wf(),
        ensures
            out is Ok <==> self@.write_verdict(canvas@.width, canvas@.height) is Ok,
            out matches Ok(bytes) ==> bytes@ == canvas@.bytes && bytes@.len() == self@.size.width
                * self@.size.height * 3,
            out matches Err(e) ==> self@.write_verdict(canvas@.width, canvas@.height) == Err::<
                (),
                PipelineError,
            >(e),
    {
        match self.state {
            SinkState::Idle => Err(PipelineError::SinkUnavailable),
            SinkState::Closed => Err(PipelineError::BrokenPipe),
            SinkState::Streaming => {
                if canvas.width() == self.size.width && canvas.height() == self.size.height {
                    Ok(canvas.as_bytes())
                } else {
                    Err(PipelineError::Config(ConfigError::FrameSizeMismatch))
                }
            },
        }
    }

    /// Records how a write went: `accepted` says whether the encoder took
    /// all the bytes. A write that it did not take ends the stream.
    pub fn written(&mut self, accepted: bool) -> (out: Result<(), PipelineError>)
        ensures
            final(self)@ == old(self)@.after_write(accepted),
            out == (match old(self)@.state {
                SinkState::Idle => Err::<(), PipelineError>(PipelineError::SinkUnavailable),
                SinkState::Closed => Err(PipelineError::BrokenPipe),
                SinkState::Streaming => if accepted {
                    Ok(())
                } else {
                    Err(PipelineError::BrokenPipe)
                },
            }),
    {
        match self.state {
            SinkState::Idle => Err(PipelineError::SinkUnavailable),
            SinkState::Closed => Err(PipelineError::BrokenPipe),
            SinkState::Streaming => {
                if accepted {
                    Ok(())
                } else {
                    self.state = SinkState::Closed;
                    Err(PipelineError::BrokenPipe)
                }
            },
        }
    }

    /// Ends the stream. Returns whether an encoder process is left whose
    /// input must be closed and whose exit status must be collected.
    pub fn close(&mut self) -> (must_wait: bool)
        ensures
            final(self)@ == old(self)@.closed(),
            must_wait == old(self)@.awaiting_exit,
    {
        let must_wait = self.awaiting_exit;
        self.state = SinkState::Closed;
        self.awaiting_exit = false;
        must_wait
    }
}

} // verus!
