//! What passes between the shaper and the shaping engine that its host runs.
//!
//! The shaper never calls the engine. Where it needs a run of text shaped
//! with one font of the chain, it hands out an [`EngineRequest`]; the host
//! opens and sizes the face as the request says, shapes the text, and
//! records the [`EngineReply`] in a [`Transcript`], from which the shaper
//! reads it when it is asked again.

use crate::glyph::RawGlyph;
use crate::units::FontSize;
use vstd::prelude::*;

verus! {

/// The step of a request at which the host's engine gave up.
#[derive(Clone, Copy, Debug, PartialEq, Eq, Structural)]
pub enum EngineStage {
    /// The font's data could not be opened as a face.
    Open,
    /// The face could not be set to the requested size.
    Resize,
    /// The engine could not be set up to shape the text.
    Shape,
    /// The sized face could not be read.
    Read,
}

impl EngineStage {
    /// What the host was about to do at the step.
    pub open spec fn spec_text(self) -> Seq<char> {
        match self {
            EngineStage::Open => "open the face"@,
            EngineStage::Resize => "size the face"@,
            EngineStage::Shape => "shape the text"@,
            EngineStage::Read => "read the face"@,
        }
    }

    /// What the host was about to do at the step, in words.
    pub fn text(self) -> (text: &'static str)
        ensures
            text@ == self.spec_text(),
    {
        match self {
            EngineStage::Open => "open the face",
            EngineStage::Resize => "size the face",
            EngineStage::Shape => "shape the text",
            EngineStage::Read => "read the face",
        }
    }
}

/// What the engine answered to one request.
#[derive(Clone, Debug, PartialEq, Eq)]
pub enum EngineReply {
    /// The glyphs of the text, in the engine's order.
    Shaped(Vec<RawGlyph>),
    /// No glyphs: the request failed at this step.
    Failed(EngineStage),
}

/// An [`EngineReply`] as mathematical values.
pub enum Reply {
    Shaped(Seq<RawGlyph>),
    Failed(EngineStage),
}

impl View for EngineReply {
    type V = Reply;

    open spec fn view(&self) -> Reply {
        match self {
            EngineReply::Shaped(glyphs) => Reply::Shaped(glyphs@),
            EngineReply::Failed(stage) => Reply::Failed(*stage),
        }
    }
}

/// What the engine is asked: this text, with the font at this position of
/// the chain, at this size and density.
pub struct Query {
    pub font_idx: usize,
    pub text: Seq<char>,
    pub font_size: FontSize,
    pub dpi: u32,
}

/// A [`Query`] together with what the host has to do to the face before it
/// shapes: open it, where `open` is set, and size it, where `resize` is set.
#[derive(Clone, Debug, PartialEq, Eq)]
pub struct EngineRequest {
    pub font_idx: usize,
    pub text: String,
    pub font_size: FontSize,
    pub dpi: u32,
    pub open: bool,
    pub resize: bool,
}

impl View for EngineRequest {
    type V = Query;

    open spec fn view(&self) -> Query {
        Query {
            font_idx: self.font_idx,
            text: self.text@,
            font_size: self.font_size,
            dpi: self.dpi,
        }
    }
}

/// One recorded question with its answer.
struct Exchange {
    font_idx: usize,
    text: String,
    font_size: FontSize,
    dpi: u32,
    reply: EngineReply,
}

impl Exchange {
    spec fn query(self) -> Query {
        Query {
            font_idx: self.font_idx,
            text: self.text@,
            font_size: self.font_size,
            dpi: self.dpi,
        }
    }
}

/// The answers that a sequence of exchanges holds: a later answer to the
/// same query replaces an earlier one.
spec fn answers_of(entries: Seq<Exchange>) -> Map<Query, Reply>
    decreases entries.len(),
{
    if entries.len() == 0 {
        Map::empty()
    } else {
        answers_of(entries.drop_last()).insert(entries.last().query(), entries.last().reply@)
    }
}

/// The engine's replies so far, each under the query that it answers.
pub struct Transcript {
    entries: Vec<Exchange>,
}

impl View for Transcript {
    type V = Map<Query, Reply>;

    closed spec fn view(&self) -> Map<Query, Reply> {
        answers_of(self.entries@)
    }
}

impl Transcript {
    /// A transcript without answers.
    pub fn new() -> (transcript: Self)
        ensures
            transcript@ == Map::<Query, Reply>::empty(),
    {
        Transcript { entries: Vec::new() }
    }

    /// Records `reply` as the answer to the query made of the four other
    /// arguments, in place of any answer that the query had.
    pub fn record(
        &mut self,
        font_idx: usize,
        text: &str,
        font_size: FontSize,
        dpi: u32,
        reply: EngineReply,
    )
        ensures
            final(self)@ == old(self)@.insert(
                Query { font_idx, text: text@, font_size, dpi },
                reply@,
            ),
    {
        let exchange = Exchange { font_idx, text: text.to_owned(), font_size, dpi, reply };
        self.entries.push(exchange);
        assert(self.entries@.drop_last() =~= old(self).entries@);
    }

    /// Looks up the answer to a query: `None` exactly when it has none yet.
    pub fn find(&self, font_idx: usize, text: &str, font_size: FontSize, dpi: u32) -> (found:
        Option<&EngineReply>)
        ensures
            found is Some <==> self@.contains_key(Query { font_idx, text: text@, font_size, dpi }),
            found matches Some(reply) ==> self@[(Query { font_idx, text: text@, font_size, dpi })]
                == reply@,
    {
        let key: String = text.to_owned();
        let ghost query = Query { font_idx, text: text@, font_size, dpi };
        let mut i: usize = self.entries.len();
        assert(self.entries@.take(i as int) =~= self.entries@);
        while i > 0
            invariant
                i <= self.entries@.len(),
                key@ == text@,
                query == (Query { font_idx, text: text@, font_size, dpi }),
                answers_of(self.entries@).contains_key(query) == answers_of(
                    self.entries@.take(i as int),
                ).contains_key(query),
                answers_of(self.entries@).contains_key(query) ==> answers_of(self.entries@)[query]
                    == answers_of(self.entries@.take(i as int))[query],
            decreases i,
        {
            i -= 1;
            let entry = &self.entries[i];
            proof {
                let upto = self.entries@.take(i + 1);
                assert(upto.drop_last() =~= self.entries@.take(i as int));
                assert(upto.last() == self.entries@[i as int]);
            }
            if entry.font_idx == font_idx && entry.font_size == font_size && entry.dpi == dpi
                && entry.text == key {
                return Some(&entry.reply);
            }
        }
        proof {
            assert(self.entries@.take(0).len() == 0);
        }
        None
    }
}

} // verus!
