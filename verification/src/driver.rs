//! The decisions of the capture loop. The program around this library does
//! the blocking work (starting the encoder, pulling a frame, writing it,
//! waiting for the encoder) and reports each outcome; the driver answers
//! with what to do next.

use vstd::prelude::*;
use crate::config::SinkKind;
use crate::error::{ConfigError, PipelineError, Severity};

verus! {

/// Where the loop stands.
#[derive(Clone, Copy, Debug, PartialEq, Eq, Structural)]
pub enum Phase {
    /// Nothing has happened yet.
    Starting,
    /// The encoder is being started.
    Opening,
    /// Frames are being processed.
    Running,
    /// The encoder is being closed and awaited.
    Closing,
    /// The loop is over.
    Finished,
}

/// What the program reports to the driver.
#[derive(Clone, Copy, Debug, PartialEq, Eq, Structural)]
pub enum Event {
    /// The font is loaded.
    Ready,
    /// The font could not be loaded, or something else is wrong with the
    /// setup.
    StartupFailed(ConfigError),
    /// The encoder process came up.
    SinkOpened,
    /// The encoder process could not be started.
    SinkRefused,
    /// A frame went through all stages and reached the sink.
    FrameDone,
    /// A frame failed at some stage.
    FrameFailed(PipelineError),
    /// Someone asked the loop to stop.
    StopRequested,
    /// The encoder's input was closed and the process has exited;
    /// `success` is its exit status.
    SinkClosed { success: bool },
}

/// How the run ended.
#[derive(Clone, Copy, Debug, PartialEq, Eq, Structural)]
pub struct Outcome {
    /// The failure that ended the loop, if one did.
    pub failure: Option<PipelineError>,
    /// The encoder's exit status, if an encoder ran: `Some(false)` is
    /// reported, but does not by itself make the run a failure.
    pub encoder_ok: Option<bool>,
    /// Frames that reached the sink.
    pub frames: u64,
    /// Frames that did not reach the sink.
    pub dropped: u64,
}

impl Outcome {
    /// The process exit code: zero unless a failure ended the loop.
    pub open spec fn exit_code_spec(self) -> u8 {
        if self.failure is Some {
            1
        } else {
            0
        }
    }

    /// The process exit code: zero unless a failure ended the loop.
    pub fn exit_code(&self) -> (code: u8)
        ensures
            code == self.exit_code_spec(),
    {
        if self.failure.is_some() {
            1
        } else {
            0
        }
    }
}

/// What the program must do next.
#[derive(Clone, Copy, Debug, PartialEq, Eq, Structural)]
pub enum Action {
    /// Load the font, then report `Ready` or `StartupFailed`.
    LoadFont,
    /// Start the encoder process, then report `SinkOpened` or
    /// `SinkRefused`.
    OpenSink,
    /// Pull, decode, render and write one frame, then report `FrameDone`
    /// or `FrameFailed`; or report `StopRequested` instead.
    NextFrame,
    /// Close the encoder's input, wait for it, then report `SinkClosed`.
    CloseSink,
    /// Leave.
    Exit(Outcome),
}

/// The state of the loop.
#[derive(Clone, Copy, Debug, PartialEq, Eq, Structural)]
pub struct Driver {
    pub phase: Phase,
    /// Where frames go.
    pub sink: SinkKind,
    /// Stop after this many frames have reached the sink, if set.
    pub frame_limit: Option<u64>,
    /// Whether a still image that could not be written lets the loop go on.
    pub continue_on_io_error: bool,
    /// Frames that reached the sink.
    pub frames: u64,
    /// Frames that did not reach the sink.
    pub dropped: u64,
    /// The failure that ended the loop, if one did.
    pub failure: Option<PipelineError>,
    /// Whether an encoder process came up.
    pub encoder_started: bool,
    /// The encoder's exit status, once collected.
    pub encoder_ok: Option<bool>,
}

/// `n + 1`, or `n` at the top of the range.
pub open spec fn bump(n: u64) -> u64 {
    if n < u64::MAX {
        (n + 1) as u64
    } else {
        n
    }
}

impl Driver {
    /// A driver before its first event.
    pub open spec fn initial(
        sink: SinkKind,
        frame_limit: Option<u64>,
        continue_on_io_error: bool,
    ) -> Driver {
        Driver {
            phase: Phase::Starting,
            sink,
            frame_limit,
            continue_on_io_error,
            frames: 0,
            dropped: 0,
            failure: None,
            encoder_started: false,
            encoder_ok: None,
        }
    }

    /// How the run ended, or would end if it ended now.
    pub open spec fn outcome(self) -> Outcome {
        Outcome {
            failure: self.failure,
            encoder_ok: self.encoder_ok,
            frames: self.frames,
            dropped: self.dropped,
        }
    }

    /// Whether the frame limit has been reached.
    pub open spec fn limit_reached(self) -> bool {
        self.frame_limit matches Some(limit) && self.frames >= limit
    }

    /// What the program is expected to be doing in this state.
    pub open spec fn pending(self) -> Action {
        match self.phase {
            Phase::Starting => Action::LoadFont,
            Phase::Opening => Action::OpenSink,
            Phase::Running => Action::NextFrame,
            Phase::Closing => Action::CloseSink,
            Phase::Finished => Action::Exit(self.outcome()),
        }
    }

    /// The state in which the loop winds down: an encoder that was started
    /// is closed and awaited first, whatever ended the loop.
    pub open spec fn wound_down(self) -> Driver {
        match self.sink {
            SinkKind::Stream => Driver { phase: Phase::Closing, ..self },
            SinkKind::File => Driver { phase: Phase::Finished, ..self },
        }
    }

    /// Whether a failure ends the loop.
    pub open spec fn ends_loop(self, e: PipelineError) -> bool {
        match e.severity_spec() {
            Severity::DropFrame => false,
            Severity::Reported => !self.continue_on_io_error,
            Severity::FatalToLoop => true,
            Severity::FatalAtStartup => true,
        }
    }

    /// The state after an event. An event that the state does not expect
    /// changes nothing.
    pub open spec fn next(self, event: Event) -> Driver {
        match (self.phase, event) {
            (Phase::Starting, Event::Ready) => match self.sink {
                SinkKind::Stream => Driver { phase: Phase::Opening, ..self },
                SinkKind::File => if self.limit_reached() {
                    Driver { phase: Phase::Finished, ..self }
                } else {
                    Driver { phase: Phase::Running, ..self }
                },
            },
            (Phase::Starting, Event::StartupFailed(e)) => Driver {
                phase: Phase::Finished,
                failure: Some(PipelineError::Config(e)),
                ..self
            },
            (Phase::Opening, Event::SinkOpened) => if self.limit_reached() {
                Driver { phase: Phase::Closing, encoder_started: true, ..self }
            } else {
                Driver { phase: Phase::Running, encoder_started: true, ..self }
            },
            (Phase::Opening, Event::SinkRefused) => Driver {
                phase: Phase::Finished,
                failure: Some(PipelineError::SinkUnavailable),
                ..self
            },
            (Phase::Running, Event::FrameDone) => {
                let counted = Driver { frames: bump(self.frames), ..self };
                if counted.limit_reached() {
                    counted.wound_down()
                } else {
                    counted
                }
            },
            (Phase::Running, Event::FrameFailed(e)) => {
                let counted = Driver { dropped: bump(self.dropped), ..self };
                if self.ends_loop(e) {
                    (Driver { failure: Some(e), ..counted }).wound_down()
                } else {
                    counted
                }
            },
            (Phase::Running, Event::StopRequested) => self.wound_down(),
            (Phase::Closing, Event::SinkClosed { success }) => Driver {
                phase: Phase::Finished,
                encoder_ok: Some(success),
                ..self
            },
            _ => self,
        }
    }

    /// A driver before its first event.
    pub fn new(sink: SinkKind, frame_limit: Option<u64>, continue_on_io_error: bool) -> (driver:
        Driver)
        ensures
            driver == Driver::initial(sink, frame_limit, continue_on_io_error),
    {
        Driver {
            phase: Phase::Starting,
            sink,
            frame_limit,
            continue_on_io_error,
            frames: 0,
            dropped: 0,
            failure: None,
            encoder_started: false,
            encoder_ok: None,
        }
    }

    fn at_limit(&self) -> (b: bool)
        ensures
            b == self.limit_reached(),
    {
        match self.frame_limit {
            Some(limit) => self.frames >= limit,
            None => false,
        }
    }

    fn wind_down(&mut self)
        ensures
            *final(self) == old(self).wound_down(),
    {
        match self.sink {
            SinkKind::Stream => {
                self.phase = Phase::Closing;
            },
            SinkKind::File => {
                self.phase = Phase::Finished;
            },
        }
    }

    fn action(&self) -> (a: Action)
        ensures
            a == self.pending(),
    {
        match self.phase {
            Phase::Starting => Action::LoadFont,
            Phase::Opening => Action::OpenSink,
            Phase::Running => Action::NextFrame,
            Phase::Closing => Action::CloseSink,
            Phase::Finished => Action::Exit(self.result()),
        }
    }

    /// How the run ended, or would end if it ended now.
    pub fn result(&self) -> (o: Outcome)
        ensures
            o == self.outcome(),
    {
        Outcome {
            failure: self.failure,
            encoder_ok: self.encoder_ok,
            frames: self.frames,
            dropped: self.dropped,
        }
    }

    /// Takes an event and says what to do next.
    pub fn step(&mut self, event: Event) -> (action: Action)
        ensures
            *final(self) == old(self).next(event),
            action == old(self).next(event).pending(),
            old(self).inv() ==> final(self).inv(),
    {
        match (self.phase, event) {
            (Phase::Starting, Event::Ready) => {
                match self.sink {
                    SinkKind::Stream => {
                        self.phase = Phase::Opening;
                    },
                    SinkKind::File => {
                        if self.at_limit() {
                            self.phase = Phase::Finished;
                        } else {
                            self.phase = Phase::Running;
                        }
                    },
                }
            },
            (Phase::Starting, Event::StartupFailed(e)) => {
                self.phase = Phase::Finished;
                self.failure = Some(PipelineError::Config(e));
            },
            (Phase::Opening, Event::SinkOpened) => {
                self.encoder_started = true;
                if self.at_limit() {
                    self.phase = Phase::Closing;
                } else {
                    self.phase = Phase::Running;
                }
            },
            (Phase::Opening, Event::SinkRefused) => {
                self.phase = Phase::Finished;
                self.failure = Some(PipelineError::SinkUnavailable);
            },
            (Phase::Running, Event::FrameDone) => {
                if self.frames < u64::MAX {
                    self.frames = self.frames + 1;
                }
                if self.at_limit() {
                    self.wind_down();
                }
            },
            (Phase::Running, Event::FrameFailed(e)) => {
                if self.dropped < u64::MAX {
                    self.dropped = self.dropped + 1;
                }
                let fatal = match e.severity() {
                    Severity::DropFrame => false,
                    Severity::Reported => !self.continue_on_io_error,
                    Severity::FatalToLoop => true,
                    Severity::FatalAtStartup => true,
                };
                if fatal {
                    self.failure = Some(e);
                    self.wind_down();
                }
            },
            (Phase::Running, Event::StopRequested) => {
                self.wind_down();
            },
            (Phase::Closing, Event::SinkClosed { success }) => {
                self.phase = Phase::Finished;
                self.encoder_ok = Some(success);
            },
            _ => {},
        }
        self.action()
    }
}

impl Driver {
    /// What holds of every state that a run can reach.
    pub open spec fn inv(self) -> bool {
        &&& self.phase == Phase::Starting ==> self.frames == 0 && self.dropped == 0
        &&& (self.phase == Phase::Starting || self.phase == Phase::Opening) ==> self.failure is None
            && !self.encoder_started
        &&& (self.phase == Phase::Opening || self.phase == Phase::Closing) ==> self.sink
            == SinkKind::Stream
        &&& self.phase == Phase::Running ==> self.failure is None && !self.limit_reached()
        &&& (self.phase == Phase::Running || self.phase == Phase::Closing) ==> (self.encoder_started
            <==> self.sink == SinkKind::Stream)
        &&& self.encoder_started ==> self.sink == SinkKind::Stream
        &&& self.encoder_ok is Some <==> self.encoder_started && self.phase == Phase::Finished
        &&& self.frame_limit matches Some(limit) ==> self.frames <= limit
    }
}

/// A fresh driver is in a state a run can reach, and every event leads from
/// such a state to such a state.
pub proof fn lemma_run_keeps_inv(driver: Driver, event: Event)
    requires
        driver.inv(),
    ensures
        Driver::initial(driver.sink, driver.frame_limit, driver.continue_on_io_error).inv(),
        driver.next(event).inv(),
        driver.next(event).sink == driver.sink,
        driver.next(event).frame_limit == driver.frame_limit,
{
}

/// Every exit path collects the encoder's exit status: a run in which the
/// encoder came up cannot finish before the encoder was closed and awaited,
/// whatever ended the loop.
pub proof fn lemma_encoder_is_awaited(driver: Driver, event: Event)
    requires
        driver.inv(),
        driver.encoder_started,
    ensures
        driver.next(event).encoder_started,
        driver.next(event).pending() is Exit ==> driver.next(event).encoder_ok is Some,
        driver.next(event).phase == Phase::Finished ==> driver.phase == Phase::Closing
            || driver.phase == Phase::Finished,
{
}

/// The frame count never passes the limit, and no frame is asked for once
/// the limit is reached.
pub proof fn lemma_limit_is_kept(driver: Driver, event: Event)
    requires
        driver.inv(),
    ensures
        driver.frame_limit matches Some(limit) ==> driver.next(event).frames <= limit,
        driver.next(event).limit_reached() ==> driver.next(event).pending() != Action::NextFrame,
{
}

/// A frame that fails to decode is dropped and the loop goes on; a failed
/// capture, a refused or broken encoder end it.
pub proof fn lemma_failure_policy(driver: Driver, e: PipelineError)
    requires
        driver.inv(),
        driver.phase == Phase::Running,
    ensures
        e == PipelineError::Decode ==> driver.next(Event::FrameFailed(e)).pending()
            == Action::NextFrame && driver.next(Event::FrameFailed(e)).frames == driver.frames,
        (e == PipelineError::Capture || e == PipelineError::BrokenPipe || e
            == PipelineError::SinkUnavailable) ==> driver.next(Event::FrameFailed(e)).failure
            == Some(e) && driver.next(Event::FrameFailed(e)).pending() != Action::NextFrame,
        e == PipelineError::Io ==> (driver.next(Event::FrameFailed(e)).pending()
            == Action::NextFrame <==> driver.continue_on_io_error),
{
}

/// A request to stop is honoured at the next frame boundary: no further
/// frame is asked for, nothing is counted as a failure, and a running
/// encoder is closed first.
pub proof fn lemma_stop_is_honoured(driver: Driver)
    requires
        driver.inv(),
        driver.phase == Phase::Running,
    ensures
        driver.next(Event::StopRequested).pending() == (match driver.sink {
            SinkKind::Stream => Action::CloseSink,
            SinkKind::File => Action::Exit(driver.outcome()),
        }),
        driver.next(Event::StopRequested).failure is None,
        driver.next(Event::StopRequested).frames == driver.frames,
{
}

/// Once a failure has ended the loop, no further frame is asked for, and
/// the failure is the one the run reports.
pub proof fn lemma_failure_is_final(driver: Driver, event: Event)
    requires
        driver.inv(),
        driver.failure is Some,
    ensures
        driver.next(event).failure == driver.failure,
        driver.next(event).pending() != Action::NextFrame,
        driver.next(event).outcome().exit_code_spec() == 1,
{
}

/// A finished run stays finished.
pub proof fn lemma_finished_is_final(driver: Driver, event: Event)
    requires
        driver.phase == Phase::Finished,
    ensures
        driver.next(event) == driver,
        driver.pending() == Action::Exit(driver.outcome()),
{
}

} // verus!
