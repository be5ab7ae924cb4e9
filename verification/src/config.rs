//! The startup configuration: built once, checked once, never changed.

use vstd::prelude::*;
use crate::error::ConfigError;
use crate::filter::ColorFilter;
use crate::ramp::SymbolRamp;

verus! {

/// A width and a height in pixels.
#[derive(Clone, Copy, Debug, PartialEq, Eq, Structural)]
pub struct Resolution {
    pub width: usize,
    pub height: usize,
}

impl Resolution {
    /// Whether there is at least one pixel.
    pub open spec fn nonempty(self) -> bool {
        self.width > 0 && self.height > 0
    }

    /// Whether an RGB buffer of this size fits the machine's address range.
    pub open spec fn fits(self) -> bool {
        self.width * self.height * 3 <= usize::MAX
    }

    /// What is wrong with this size, if anything.
    pub open spec fn fault(self) -> Option<ConfigError> {
        if !self.nonempty() {
            Some(ConfigError::EmptyResolution)
        } else if !self.fits() {
            Some(ConfigError::ResolutionTooLarge)
        } else {
            None
        }
    }

    /// What is wrong with this size, if anything.
    pub fn check(&self) -> (out: Option<ConfigError>)
        ensures
            out == self.fault(),
    {
        if self.width == 0 || self.height == 0 {
            Some(ConfigError::EmptyResolution)
        } else if crate::pixels::buffer_len(self.width, self.height).is_none() {
            Some(ConfigError::ResolutionTooLarge)
        } else {
            None
        }
    }
}

/// What is drawn on each frame.
#[derive(Clone, Copy, Debug, PartialEq, Eq, Structural)]
pub enum RenderMode {
    /// The frame is replaced by character art.
    Art,
    /// A line of text is drawn over the frame.
    Overlay,
}

/// Where rendered frames go.
#[derive(Clone, Copy, Debug, PartialEq, Eq, Structural)]
pub enum SinkKind {
    /// One still image per frame.
    File,
    /// Raw pixels piped to an encoder process.
    Stream,
}

/// The sizes and rates of a configuration.
#[derive(Clone, Copy, Debug, PartialEq, Eq, Structural)]
pub struct Geometry {
    /// Size of the frames the device delivers.
    pub capture: Resolution,
    /// Size of the canvas that character art is drawn on.
    pub output: Resolution,
    /// Size of the symbol grid: columns by rows.
    pub grid: Resolution,
    /// Font size in pixels.
    pub font_scale: u32,
    /// Frames per second that the encoder is told.
    pub frame_rate: u32,
}

impl Geometry {
    /// Milliseconds between two frames at the configured rate, rounded
    /// down; zero where the rate is zero.
    pub open spec fn frame_interval_spec(self) -> u64 {
        if self.frame_rate == 0 {
            0
        } else {
            (1000int / (self.frame_rate as int)) as u64
        }
    }

    /// Milliseconds between two frames at the configured rate.
    pub fn frame_interval_millis(&self) -> (ms: u64)
        ensures
            ms == self.frame_interval_spec(),
    {
        if self.frame_rate == 0 {
            0
        } else {
            1000 / (self.frame_rate as u64)
        }
    }
}

/// The first fault of a configuration, in the order capture size, output
/// size, grid size, frame rate, font scale, ramp; `None` if it is valid.
pub open spec fn config_fault(geometry: Geometry, symbols: Seq<char>) -> Option<ConfigError> {
    if geometry.capture.fault() is Some {
        geometry.capture.fault()
    } else if geometry.output.fault() is Some {
        geometry.output.fault()
    } else if geometry.grid.fault() is Some {
        geometry.grid.fault()
    } else if geometry.frame_rate == 0 {
        Some(ConfigError::ZeroFrameRate)
    } else if geometry.font_scale == 0 {
        Some(ConfigError::ZeroFontScale)
    } else if symbols.len() < 2 {
        Some(ConfigError::RampTooShort)
    } else if !symbols.no_duplicates() {
        Some(ConfigError::RampRepeatsSymbol)
    } else {
        None
    }
}

/// The mathematical model of a configuration.
pub struct ConfigShape {
    pub geometry: Geometry,
    pub symbols: Seq<char>,
    pub filter: ColorFilter,
    pub render: RenderMode,
    pub sink: SinkKind,
    pub frame_limit: Option<u64>,
}

impl ConfigShape {
    pub open spec fn wf(self) -> bool {
        config_fault(self.geometry, self.symbols) is None
    }

    /// The size of the canvases that reach the sink: the output size for
    /// character art, the capture size for an overlay.
    pub open spec fn canvas_size(self) -> Resolution {
        match self.render {
            RenderMode::Art => self.geometry.output,
            RenderMode::Overlay => self.geometry.capture,
        }
    }
}

/// A checked configuration.
pub struct PipelineConfig {
    geometry: Geometry,
    ramp: SymbolRamp,
    filter: ColorFilter,
    render: RenderMode,
    sink: SinkKind,
    frame_limit: Option<u64>,
}

impl View for PipelineConfig {
    type V = ConfigShape;

    closed spec fn view(&self) -> ConfigShape {
        ConfigShape {
            geometry: self.geometry,
            symbols: self.ramp@,
            filter: self.filter,
            render: self.render,
            sink: self.sink,
            frame_limit: self.frame_limit,
        }
    }
}

impl PipelineConfig {
    pub open spec fn wf(&self) -> bool {
        self@.wf()
    }

    /// Checks the settings and keeps them. The filter is the one that
    /// suppresses blue.
    pub fn new(
        geometry: Geometry,
        symbols: Vec<char>,
        render: RenderMode,
        sink: SinkKind,
        frame_limit: Option<u64>,
    ) -> (out: Result<PipelineConfig, ConfigError>)
        ensures
            out is Ok <==> config_fault(geometry, symbols@) is None,
            out matches Ok(config) ==> config.wf() && config@ == (ConfigShape {
                geometry,
                symbols: symbols@,
                filter: ColorFilter::blue_spec(),
                render,
                sink,
                frame_limit,
            }),
            out matches Err(e) ==> config_fault(geometry, symbols@) == Some(e),
    {
        if let Some(e) = geometry.capture.check() {
            return Err(e);
        }
        if let Some(e) = geometry.output.check() {
            return Err(e);
        }
        if let Some(e) = geometry.grid.check() {
            return Err(e);
        }
        if geometry.frame_rate == 0 {
            return Err(ConfigError::ZeroFrameRate);
        }
        if geometry.font_scale == 0 {
            return Err(ConfigError::ZeroFontScale);
        }
        match SymbolRamp::new(symbols) {
            Ok(ramp) => Ok(
                PipelineConfig {
                    geometry,
                    ramp,
                    filter: ColorFilter::blue(),
                    render,
                    sink,
                    frame_limit,
                },
            ),
            Err(e) => Err(e),
        }
    }

    /// The same configuration with another colour filter.
    pub fn with_filter(self, filter: ColorFilter) -> (config: PipelineConfig)
        ensures
            config@ == (ConfigShape { filter, ..self@ }),
    {
        PipelineConfig { filter, ..self }
    }

    pub fn geometry(&self) -> (g: Geometry)
        ensures
            g == self@.geometry,
    {
        self.geometry
    }

    pub fn ramp(&self) -> (ramp: &SymbolRamp)
        ensures
            ramp@ == self@.symbols,
    {
        &self.ramp
    }

    pub fn filter(&self) -> (f: ColorFilter)
        ensures
            f == self@.filter,
    {
        self.filter
    }

    pub fn render(&self) -> (m: RenderMode)
        ensures
            m == self@.render,
    {
        self.render
    }

    pub fn sink(&self) -> (k: SinkKind)
        ensures
            k == self@.sink,
    {
        self.sink
    }

    pub fn frame_limit(&self) -> (n: Option<u64>)
        ensures
            n == self@.frame_limit,
    {
        self.frame_limit
    }

    /// The size of the canvases that reach the sink.
    pub fn canvas_size(&self) -> (r: Resolution)
        ensures
            r == self@.canvas_size(),
    {
        match self.render {
            RenderMode::Art => self.geometry.output,
            RenderMode::Overlay => self.geometry.capture,
        }
    }
}

} // verus!
