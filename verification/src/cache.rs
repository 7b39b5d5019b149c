//! What is remembered of the faces of the chain, and what follows from it
//! for the host: which face to open, which to size, and what a reply tells
//! of a face.

use crate::engine::{EngineStage, Reply};
use crate::metrics::{FaceReply, FaceRequest, FontMetrics, MetricsError, MetricsStep};
use crate::units::FontSize;
use vstd::prelude::*;

verus! {

/// A size in points together with a display density.
#[derive(Clone, Copy, Debug, PartialEq, Eq, Structural)]
pub struct FaceSize {
    pub size: FontSize,
    pub dpi: u32,
}

/// What is remembered of an opened face: the size and density that it was
/// last set to, or that it has not been set to any yet.
#[derive(Clone, Copy, Debug, PartialEq, Eq)]
pub struct FontPair {
    pub sized: Option<FaceSize>,
}

/// What the chain holds at a position.
#[derive(Clone, Copy, Debug, PartialEq, Eq)]
pub enum Fallback {
    /// The position is past the end of the chain.
    Exhausted,
    /// A font whose face has not been opened yet.
    Vacant,
    /// A font whose face is open.
    Cached(FontPair),
}

/// What has to be done to a face before it is used.
#[derive(Clone, Copy, Debug, PartialEq, Eq, Structural)]
pub struct FaceSetup {
    pub open: bool,
    pub resize: bool,
}

/// What is remembered of a face once it is open: what was remembered of it
/// before, and of a face that was not open, that it has no size yet.
pub open spec fn opened(slot: Option<FontPair>) -> FontPair {
    match slot {
        Some(pair) => pair,
        None => FontPair { sized: None },
    }
}

/// Whether a face is known to be set to exactly this size and density. A
/// face that is not open, or that was never sized, is set to none.
pub open spec fn is_set_to(slot: Option<FontPair>, size: FontSize, dpi: u32) -> bool {
    slot matches Some(pair) && pair.sized == Some(FaceSize { size, dpi })
}

/// A face is opened where none is cached, and sized unless it is known to
/// be set to the size and the density asked for.
pub open spec fn setup_for(slot: Option<FontPair>, size: FontSize, dpi: u32) -> FaceSetup {
    FaceSetup { open: slot is None, resize: !is_set_to(slot, size, dpi) }
}

/// What is remembered of a face after the host has worked on a request for
/// `size` and `dpi`. A request that failed to open the face changes
/// nothing; one that failed to size it leaves an open face with what was
/// remembered of its size, which is nothing for a face that was never
/// sized; any other leaves it open at the size asked for.
pub open spec fn slot_after(
    slot: Option<FontPair>,
    size: FontSize,
    dpi: u32,
    failed: Option<EngineStage>,
) -> Option<FontPair> {
    match failed {
        Some(EngineStage::Open) => slot,
        Some(EngineStage::Resize) => Some(opened(slot)),
        _ => Some(FontPair { sized: Some(FaceSize { size, dpi }) }),
    }
}

/// The step at which a reply says that the engine failed, if it does.
pub open spec fn failed_stage(reply: Reply) -> Option<EngineStage> {
    match reply {
        Reply::Shaped(_) => None,
        Reply::Failed(stage) => Some(stage),
    }
}

/// The step at which a reply says that the host failed with a face.
pub open spec fn face_failed_stage(reply: FaceReply) -> Option<EngineStage> {
    match reply {
        FaceReply::Measured(_) => None,
        FaceReply::Failed(stage) => Some(stage),
    }
}

/// Where a query for metrics at `size` and `dpi` stands, with a chain of
/// `chain_len` fonts, `slot` remembered of the first face, and `answer` the
/// host's reading, if there is one yet.
///
/// Without a first font there are no metrics. Without a reading, one is
/// asked for, with the face opened and sized as far as needed. A reading
/// yields the metrics, and a failure is handed on.
pub open spec fn metrics_step(
    chain_len: usize,
    slot: Option<FontPair>,
    size: FontSize,
    dpi: u32,
    answer: Option<FaceReply>,
) -> MetricsStep {
    if chain_len == 0 {
        MetricsStep::Failed(MetricsError::NoFirstFont)
    } else {
        match answer {
            None => MetricsStep::Ask(
                FaceRequest {
                    font_idx: 0,
                    font_size: size,
                    dpi,
                    open: setup_for(slot, size, dpi).open,
                    resize: setup_for(slot, size, dpi).resize,
                },
            ),
            Some(FaceReply::Failed(stage)) => MetricsStep::Failed(MetricsError::Engine(stage)),
            Some(FaceReply::Measured(reading)) => MetricsStep::Metrics(
                FontMetrics::spec_from_reading(reading),
            ),
        }
    }
}

} // verus!
