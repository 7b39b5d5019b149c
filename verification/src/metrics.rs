//! The geometry of a character cell, derived from what a sized face reports.

use crate::engine::EngineStage;
use crate::units::{FontSize, PixelLength};
use vstd::prelude::*;
use vstd::string::*;

verus! {

/// What the host reads from the first font's face once it is set to the
/// requested size: the cell it spans, and the scalars of its size metrics.
#[derive(Clone, Copy, Debug, PartialEq, Eq, Structural)]
pub struct FaceReading {
    pub cell_width: PixelLength,
    pub cell_height: PixelLength,
    /// The descender of the sized face, in 26.6 fixed point.
    pub descender: i32,
    /// The thickness of the underline, in font units.
    pub underline_thickness: i16,
    /// The position of the underline, in font units.
    pub underline_position: i16,
    /// The factor from font units to 26.6 pixels, in 16.16 fixed point.
    pub y_scale: i32,
}

/// What the host answered when asked to size and read the first face.
#[derive(Clone, Copy, Debug, PartialEq, Eq, Structural)]
pub enum FaceReply {
    Measured(FaceReading),
    Failed(EngineStage),
}

/// What the host has to do to a face before it is read: open it, where
/// `open` is set, and size it, where `resize` is set.
#[derive(Clone, Copy, Debug, PartialEq, Eq, Structural)]
pub struct FaceRequest {
    pub font_idx: usize,
    pub font_size: FontSize,
    pub dpi: u32,
    pub open: bool,
    pub resize: bool,
}

/// Why the metrics could not be had.
#[derive(Clone, Copy, Debug, PartialEq, Eq, Structural)]
pub enum MetricsError {
    /// The chain has no first font to take metrics from.
    NoFirstFont,
    /// The host failed at this step with the first font's face.
    Engine(EngineStage),
}

impl MetricsError {
    /// What the error says in words.
    pub open spec fn spec_message(self) -> Seq<char> {
        match self {
            MetricsError::NoFirstFont => "unable to load first font!?"@,
            MetricsError::Engine(stage) => "unable to load first font: could not "@
                + stage.spec_text(),
        }
    }

    /// What the error says in words.
    pub fn message(&self) -> (text: String)
        ensures
            text@ == self.spec_message(),
    {
        match self {
            MetricsError::NoFirstFont => "unable to load first font!?".to_owned(),
            MetricsError::Engine(stage) => {
                let mut text: String = "unable to load first font: could not ".to_owned();
                text.append(stage.text());
                text
            },
        }
    }
}

/// Where a query for metrics stands: done with metrics, done with an
/// error, or in need of a reading of the first face.
#[derive(Clone, Copy, Debug, PartialEq, Eq, Structural)]
pub enum MetricsStep {
    Metrics(FontMetrics),
    Failed(MetricsError),
    Ask(FaceRequest),
}

/// The layout geometry of a font at one size and density.
#[derive(Clone, Copy, Debug, PartialEq, Eq, Structural)]
pub struct FontMetrics {
    pub cell_width: PixelLength,
    pub cell_height: PixelLength,
    pub descender: PixelLength,
    pub underline_thickness: PixelLength,
    pub underline_position: PixelLength,
}

impl FontMetrics {
    /// The metrics that follow from a reading: the cell as read, the
    /// descender divided by 64, and the underline's thickness and position
    /// scaled by `y_scale / 65536` and divided by 64.
    pub open spec fn spec_from_reading(reading: FaceReading) -> FontMetrics {
        FontMetrics {
            cell_width: reading.cell_width,
            cell_height: reading.cell_height,
            descender: PixelLength::spec_from_26_6(reading.descender),
            underline_thickness: PixelLength {
                units: (reading.underline_thickness * reading.y_scale) as i64,
            },
            underline_position: PixelLength {
                units: (reading.underline_position * reading.y_scale) as i64,
            },
        }
    }

    /// Derives the metrics from a reading of the sized face.
    pub fn from_reading(reading: &FaceReading) -> (metrics: FontMetrics)
        ensures
            metrics == Self::spec_from_reading(*reading),
            metrics.underline_thickness.units == reading.underline_thickness * reading.y_scale,
            metrics.underline_position.units == reading.underline_position * reading.y_scale,
    {
        let scale: i64 = reading.y_scale as i64;
        let thickness: i64 = reading.underline_thickness as i64;
        let position: i64 = reading.underline_position as i64;
        assert(-0x8000_0000_0000 <= thickness * scale <= 0x8000_0000_0000) by (nonlinear_arith)
            requires
                -0x8000 <= thickness <= 0x8000,
                -0x8000_0000 <= scale <= 0x8000_0000,
        ;
        assert(-0x8000_0000_0000 <= position * scale <= 0x8000_0000_0000) by (nonlinear_arith)
            requires
                -0x8000 <= position <= 0x8000,
                -0x8000_0000 <= scale <= 0x8000_0000,
        ;
        FontMetrics {
            cell_width: reading.cell_width,
            cell_height: reading.cell_height,
            descender: PixelLength::from_26_6(reading.descender),
            underline_thickness: PixelLength { units: thickness * scale },
            underline_position: PixelLength { units: position * scale },
        }
    }
}

} // verus!
