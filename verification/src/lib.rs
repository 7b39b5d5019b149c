//! Multi-font fallback text shaping: the decisions of a shaper that draws
//! glyphs from a ranked chain of fonts, with the geometry it reports.
//!
//! The shaping engine and the font backend stay with the host. The shaper
//! in [`shaper`] is asked for a text; where it needs the engine, its step
//! is a request, which the host performs and whose reply it records in a
//! transcript ([`engine`]) before it asks again, until the step holds
//! glyphs or an error. What a step is, for given answers, is defined in
//! [`model`]; [`laws`], [`partition`], [`split`] and [`replay`] state what
//! follows. [`cache`] holds what is remembered of each face, [`clusters`]
//! the spans of glyphs, [`metrics`] the geometry of a cell, [`handle`] the
//! data behind a font, and [`locator`] the strategies that find fonts.

pub mod cache;
pub mod clusters;
pub mod engine;
pub mod glyph;
pub mod handle;
pub mod laws;
pub mod locator;
pub mod metrics;
pub mod model;
pub mod partition;
pub mod replay;
pub mod shaper;
pub mod split;
pub mod text;
pub mod units;
