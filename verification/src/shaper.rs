//! The shaper: a fixed chain of fonts, what is known of each font's face,
//! and shaping with fallback along the chain.

use crate::cache::{
    face_failed_stage, failed_stage, metrics_step, setup_for, slot_after, FaceSetup, FaceSize,
    Fallback, FontPair,
};
use crate::clusters::{cluster_size, cluster_sizes};
use crate::engine::{EngineReply, EngineRequest, EngineStage, Query, Reply, Transcript};
use crate::glyph::{glyphs_view, make_glyphinfo, GlyphInfo, GlyphInfoView, RawGlyph};
use crate::handle::{handles_view, FontData, FontDataHandle};
use crate::metrics::{FaceReply, FaceRequest, FontMetrics, MetricsError, MetricsStep};
use crate::model::{
    emit, flush, scan, shape_run, shifted, substitute, Run, ShapeError, ShapeMode, ShapeStep,
};
use crate::text::{
    code_points_of, cut, is_replacement, lemma_empty_text_has_no_bytes,
    lemma_replacement_is_one_byte,
};
use crate::units::FontSize;
use vstd::prelude::*;
use vstd::string::*;
use vstd::utf8::*;

verus! {

/// No glyph of a finished step lies past byte `limit`.
pub open spec fn clusters_within(step: ShapeStep, limit: int) -> bool {
    step matches ShapeStep::Glyphs(glyphs) ==> forall|j: int|
        0 <= j < glyphs@.len() ==> (#[trigger] glyphs@[j]).cluster <= limit
}

/// The views of two runs of glyphs, one after the other.
proof fn lemma_glyphs_view_concat(a: Seq<GlyphInfo>, b: Seq<GlyphInfo>)
    ensures
        glyphs_view(a + b) == glyphs_view(a) + glyphs_view(b),
{
    assert(glyphs_view(a + b) =~= glyphs_view(a) + glyphs_view(b));
}

/// Moves the cluster offset of every glyph up by `by` bytes.
fn shift_glyphs(glyphs: Vec<GlyphInfo>, by: u32) -> (moved: Vec<GlyphInfo>)
    requires
        forall|j: int| 0 <= j < glyphs@.len() ==> (#[trigger] glyphs@[j]).cluster + by <= u32::MAX,
    ensures
        glyphs_view(moved@) == shifted(glyphs_view(glyphs@), by as int),
        moved@.len() == glyphs@.len(),
        forall|j: int|
            0 <= j < glyphs@.len() ==> (#[trigger] moved@[j]).cluster == glyphs@[j].cluster + by,
{
    let mut moved: Vec<GlyphInfo> = glyphs;
    let n: usize = moved.len();
    let mut j: usize = 0;
    while j < n
        invariant
            j <= n,
            n == glyphs@.len(),
            moved@.len() == n,
            forall|k: int|
                0 <= k < glyphs@.len() ==> (#[trigger] glyphs@[k]).cluster + by <= u32::MAX,
            forall|k: int| j <= k < n ==> moved@[k] == glyphs@[k],
            forall|k: int|
                0 <= k < j ==> (#[trigger] moved@[k])@ == (GlyphInfoView {
                    cluster: (glyphs@[k].cluster + by) as u32,
                    ..glyphs@[k]@
                }),
        decreases n - j,
    {
        let old_one = &moved[j];
        let new_one = GlyphInfo {
            text: old_one.text.clone(),
            num_cells: old_one.num_cells,
            font_idx: old_one.font_idx,
            glyph_pos: old_one.glyph_pos,
            cluster: old_one.cluster + by,
            x_advance: old_one.x_advance,
            y_advance: old_one.y_advance,
            x_offset: old_one.x_offset,
            y_offset: old_one.y_offset,
        };
        moved.set(j, new_one);
        j += 1;
    }
    assert(glyphs_view(moved@) =~= shifted(glyphs_view(glyphs@), by as int));
    moved
}

/// A shaper over a fixed chain of fonts. Position 0 is the preferred font;
/// each later position is consulted for what the fonts before it lack.
pub struct HarfbuzzShaper {
    handles: Vec<FontDataHandle>,
    fonts: Vec<Option<FontPair>>,
}

impl HarfbuzzShaper {
    #[verifier::type_invariant]
    spec fn one_slot_per_handle(self) -> bool {
        self.fonts@.len() == self.handles@.len()
    }

    /// The number of fonts in the chain.
    pub closed spec fn chain_len(&self) -> usize {
        self.handles@.len() as usize
    }

    /// The fonts of the chain, in order.
    pub closed spec fn handles(&self) -> Seq<FontData> {
        handles_view(self.handles@)
    }

    /// What is remembered of the face at a position: `None` where no face
    /// is open there.
    pub closed spec fn cached(&self, font_idx: int) -> Option<FontPair> {
        if 0 <= font_idx < self.fonts@.len() {
            self.fonts@[font_idx]
        } else {
            None
        }
    }

    /// What stays the same while one text is shaped with this shaper.
    pub open spec fn run(&self, font_size: FontSize, dpi: u32, answers: Map<Query, Reply>) -> Run {
        Run { answers, chain_len: self.chain_len(), font_size, dpi }
    }

    /// A step that asks the engine asks for a font of the chain, and has
    /// the face opened and sized as what is cached of it requires.
    pub open spec fn asks_as_cached(&self, step: ShapeStep) -> bool {
        step matches ShapeStep::Ask(request) ==> {
            &&& request.font_idx < self.chain_len()
            &&& request.open == setup_for(
                self.cached(request.font_idx as int),
                request.font_size,
                request.dpi,
            ).open
            &&& request.resize == setup_for(
                self.cached(request.font_idx as int),
                request.font_size,
                request.dpi,
            ).resize
        }
    }

    /// A shaper over copies of `handles`, with no face open.
    pub fn new(handles: &[FontDataHandle]) -> (shaper: Self)
        ensures
            shaper.chain_len() == handles@.len(),
            shaper.handles() == handles_view(handles@),
            forall|i: int| shaper.cached(i) is None,
    {
        let n: usize = handles.len();
        let mut own: Vec<FontDataHandle> = Vec::new();
        let mut fonts: Vec<Option<FontPair>> = Vec::new();
        let mut i: usize = 0;
        while i < n
            invariant
                i <= n,
                n == handles@.len(),
                own@.len() == i,
                fonts@.len() == i,
                forall|k: int| 0 <= k < i ==> (#[trigger] own@[k])@ == handles@[k]@,
                forall|k: int| 0 <= k < i ==> (#[trigger] fonts@[k]) is None,
            decreases n - i,
        {
            own.push(handles[i].clone());
            fonts.push(None);
            i += 1;
        }
        assert(handles_view(own@) =~= handles_view(handles@));
        HarfbuzzShaper { handles: own, fonts }
    }

    /// The font at a position of the chain; `None` past its end.
    pub fn handle(&self, font_idx: usize) -> (handle: Option<&FontDataHandle>)
        ensures
            handle is Some <==> font_idx < self.chain_len(),
            handle matches Some(h) ==> h@ == self.handles()[font_idx as int],
    {
        if font_idx < self.handles.len() {
            Some(&self.handles[font_idx])
        } else {
            None
        }
    }

    /// What the chain holds at a position: nothing past its end, else a
    /// font whose face is open or not.
    pub fn load_fallback(&self, font_idx: usize) -> (found: Fallback)
        ensures
            found == (if font_idx >= self.chain_len() {
                Fallback::Exhausted
            } else {
                match self.cached(font_idx as int) {
                    None => Fallback::Vacant,
                    Some(pair) => Fallback::Cached(pair),
                }
            }),
    {
        proof {
            use_type_invariant(self);
        }
        if font_idx >= self.handles.len() {
            return Fallback::Exhausted;
        }
        match self.fonts[font_idx] {
            None => Fallback::Vacant,
            Some(pair) => Fallback::Cached(pair),
        }
    }

    /// What has to be done to the face at a position before it is used at
    /// `size` and `dpi`; `None` past the end of the chain.
    pub fn face_setup(&self, font_idx: usize, size: FontSize, dpi: u32) -> (setup: Option<
        FaceSetup,
    >)
        ensures
            setup == (if font_idx >= self.chain_len() {
                None
            } else {
                Some(setup_for(self.cached(font_idx as int), size, dpi))
            }),
    {
        match self.load_fallback(font_idx) {
            Fallback::Exhausted => None,
            Fallback::Vacant => Some(FaceSetup { open: true, resize: true }),
            Fallback::Cached(pair) => match pair.sized {
                None => Some(FaceSetup { open: false, resize: true }),
                Some(last) => Some(
                    FaceSetup { open: false, resize: last.size != size || last.dpi != dpi },
                ),
            },
        }
    }

    /// Takes note of how far the host got with the face at a position when
    /// it worked on a request for `size` and `dpi`: `failed` names the step
    /// at which it gave up, if it did. Nothing changes past the chain's end.
    pub fn note_face(
        &mut self,
        font_idx: usize,
        size: FontSize,
        dpi: u32,
        failed: Option<EngineStage>,
    )
        ensures
            final(self).chain_len() == old(self).chain_len(),
            final(self).handles() == old(self).handles(),
            forall|i: int| i != font_idx ==> final(self).cached(i) == old(self).cached(i),
            font_idx < old(self).chain_len() ==> final(self).cached(font_idx as int) == slot_after(
                old(self).cached(font_idx as int),
                size,
                dpi,
                failed,
            ),
            font_idx >= old(self).chain_len() ==> final(self).cached(font_idx as int) == old(
                self,
            ).cached(font_idx as int),
    {
        proof {
            use_type_invariant(&*self);
        }
        if font_idx < self.fonts.len() {
            let slot: Option<FontPair> = self.fonts[font_idx];
            let next: Option<FontPair> = match failed {
                Some(EngineStage::Open) => slot,
                Some(EngineStage::Resize) => match slot {
                    Some(pair) => Some(pair),
                    None => Some(FontPair { sized: None }),
                },
                _ => Some(FontPair { sized: Some(FaceSize { size, dpi }) }),
            };
            self.fonts[font_idx] = next;
        }
    }

    /// Records the engine's reply to a request: the answer goes into the
    /// transcript, and what the reply tells of the face into the cache.
    pub fn record(&mut self, transcript: &mut Transcript, request: &EngineRequest, reply: EngineReply)
        ensures
            final(transcript)@ == old(transcript)@.insert(request@, reply@),
            final(self).chain_len() == old(self).chain_len(),
            final(self).handles() == old(self).handles(),
            forall|i: int| i != request.font_idx ==> final(self).cached(i) == old(self).cached(i),
            request.font_idx < old(self).chain_len() ==> final(self).cached(
                request.font_idx as int,
            ) == slot_after(
                old(self).cached(request.font_idx as int),
                request.font_size,
                request.dpi,
                failed_stage(reply@),
            ),
            request.font_idx >= old(self).chain_len() ==> final(self).cached(
                request.font_idx as int,
            ) == old(self).cached(request.font_idx as int),
    {
        let failed: Option<EngineStage> = match &reply {
            EngineReply::Shaped(_) => None,
            EngineReply::Failed(stage) => Some(*stage),
        };
        self.note_face(request.font_idx, request.font_size, request.dpi, failed);
        transcript.record(
            request.font_idx,
            request.text.as_str(),
            request.font_size,
            request.dpi,
            reply,
        );
    }

    /// Records the host's reply to a request for a reading: what the reply
    /// tells of the face goes into the cache.
    pub fn record_face(&mut self, request: &FaceRequest, reply: &FaceReply)
        ensures
            final(self).chain_len() == old(self).chain_len(),
            final(self).handles() == old(self).handles(),
            forall|i: int| i != request.font_idx ==> final(self).cached(i) == old(self).cached(i),
            request.font_idx < old(self).chain_len() ==> final(self).cached(
                request.font_idx as int,
            ) == slot_after(
                old(self).cached(request.font_idx as int),
                request.font_size,
                request.dpi,
                face_failed_stage(*reply),
            ),
            request.font_idx >= old(self).chain_len() ==> final(self).cached(
                request.font_idx as int,
            ) == old(self).cached(request.font_idx as int),
    {
        let failed: Option<EngineStage> = match reply {
            FaceReply::Measured(_) => None,
            FaceReply::Failed(stage) => Some(*stage),
        };
        self.note_face(request.font_idx, request.font_size, request.dpi, failed);
    }

    /// The metrics of the first font at `size` and `dpi`, from the host's
    /// reading of its face; the request for a reading where `answer` holds
    /// none yet.
    pub fn metrics(&self, size: FontSize, dpi: u32, answer: Option<FaceReply>) -> (step:
        MetricsStep)
        ensures
            step == metrics_step(self.chain_len(), self.cached(0), size, dpi, answer),
    {
        match self.face_setup(0, size, dpi) {
            None => MetricsStep::Failed(MetricsError::NoFirstFont),
            Some(setup) => match answer {
                None => MetricsStep::Ask(
                    FaceRequest {
                        font_idx: 0,
                        font_size: size,
                        dpi,
                        open: setup.open,
                        resize: setup.resize,
                    },
                ),
                Some(FaceReply::Failed(stage)) => MetricsStep::Failed(MetricsError::Engine(stage)),
                Some(FaceReply::Measured(reading)) => MetricsStep::Metrics(
                    FontMetrics::from_reading(&reading),
                ),
            },
        }
    }

    /// Shapes `text` at `size` and `dpi`, from the first font on.
    ///
    /// The step is the model's outcome for the answers in the transcript:
    /// glyphs or an error where they suffice, else the next request.
    pub fn shape(&self, text: &str, size: FontSize, dpi: u32, answers: &Transcript) -> (step:
        ShapeStep)
        requires
            text.spec_bytes().len() <= u32::MAX,
        ensures
            step@ == shape_run(self.run(size, dpi, answers@), 0, text@, ShapeMode::Normal),
            self.asks_as_cached(step),
            clusters_within(step, text.spec_bytes().len() as int),
    {
        self.do_shape(0, text, size, dpi, ShapeMode::Normal, answers)
    }

    /// Shapes `s` with the font at `font_idx` and, for what that font
    /// lacks, with the fonts after it.
    pub fn do_shape(
        &self,
        font_idx: usize,
        s: &str,
        font_size: FontSize,
        dpi: u32,
        mode: ShapeMode,
        answers: &Transcript,
    ) -> (step: ShapeStep)
        requires
            s.spec_bytes().len() <= u32::MAX,
        ensures
            step@ == shape_run(self.run(font_size, dpi, answers@), font_idx, s@, mode),
            self.asks_as_cached(step),
            clusters_within(step, s.spec_bytes().len() as int),
        decreases mode.rank(), self.chain_len() - font_idx, 3nat, 0nat,
    {
        if s.is_empty() {
            let none: Vec<GlyphInfo> = Vec::new();
            assert(glyphs_view(none@) =~= Seq::empty());
            return ShapeStep::Glyphs(none);
        }
        if font_idx >= self.handles.len() {
            return ShapeStep::Failed(ShapeError::NoMoreFallbacks { codepoints: code_points_of(s) });
        }
        match answers.find(font_idx, s, font_size, dpi) {
            None => {
                let setup: FaceSetup = self.face_setup(font_idx, font_size, dpi).unwrap();
                ShapeStep::Ask(
                    EngineRequest {
                        font_idx,
                        text: s.to_owned(),
                        font_size,
                        dpi,
                        open: setup.open,
                        resize: setup.resize,
                    },
                )
            },
            Some(reply) => match reply {
                EngineReply::Failed(stage) => ShapeStep::Failed(
                    ShapeError::Engine { font_idx, stage: *stage },
                ),
                EngineReply::Shaped(glyphs) => self.scan_glyphs(
                    font_idx,
                    s,
                    font_size,
                    dpi,
                    mode,
                    answers,
                    glyphs,
                ),
            },
        }
    }

    /// Scans the engine's glyphs for `s`: hands on those that the font has,
    /// and has each stretch that it lacks shaped further down the chain.
    fn scan_glyphs(
        &self,
        font_idx: usize,
        s: &str,
        font_size: FontSize,
        dpi: u32,
        mode: ShapeMode,
        answers: &Transcript,
        glyphs: &Vec<RawGlyph>,
    ) -> (step: ShapeStep)
        requires
            font_idx < self.chain_len(),
            0 < s.spec_bytes().len() <= u32::MAX,
        ensures
            step@ == scan(
                self.run(font_size, dpi, answers@),
                font_idx,
                s@,
                mode,
                glyphs@,
                0,
                None,
                Seq::empty(),
            ),
            self.asks_as_cached(step),
            clusters_within(step, s.spec_bytes().len() as int),
        decreases mode.rank(), self.chain_len() - font_idx, 2nat, 0nat,
    {
        let ghost run = self.run(font_size, dpi, answers@);
        let ghost whole = scan(run, font_idx, s@, mode, glyphs@, 0, None, Seq::empty());
        let len: usize = s.len();
        let n: usize = glyphs.len();
        let sizes: Vec<usize> = cluster_sizes(glyphs.as_slice(), len);
        let mut cluster: Vec<GlyphInfo> = Vec::new();
        let mut first_fallback_pos: Option<usize> = None;
        let mut i: usize = 0;
        assert(glyphs_view(cluster@) =~= Seq::empty());
        while i < n
            invariant
                i <= n,
                n == glyphs@.len(),
                len == s.spec_bytes().len(),
                0 < len <= u32::MAX,
                font_idx < self.chain_len(),
                run == self.run(font_size, dpi, answers@),
                whole == scan(run, font_idx, s@, mode, glyphs@, 0, None, Seq::empty()),
                sizes@.len() == n,
                forall|k: int|
                    0 <= k < n ==> sizes@[k] as int == cluster_size(glyphs@, len as int, k),
                whole == scan(
                    run,
                    font_idx,
                    s@,
                    mode,
                    glyphs@,
                    i as int,
                    pending_start(first_fallback_pos),
                    glyphs_view(cluster@),
                ),
                forall|j: int| 0 <= j < cluster@.len() ==> (#[trigger] cluster@[j]).cluster <= len,
            decreases n - i,
        {
            let info: RawGlyph = glyphs[i];
            let pos: usize = info.cluster as usize;
            if info.codepoint == 0 {
                if first_fallback_pos.is_none() {
                    first_fallback_pos = Some(pos);
                }
            } else {
                let ghost before = glyphs_view(cluster@);
                let ghost stretch_view: Seq<GlyphInfoView>;
                if let Some(start_pos) = first_fallback_pos {
                    let stretch = self.flush(
                        font_idx,
                        s,
                        font_size,
                        dpi,
                        mode,
                        answers,
                        start_pos,
                        pos,
                    );
                    match stretch {
                        ShapeStep::Glyphs(mut shape) => {
                            proof {
                                stretch_view = glyphs_view(shape@);
                                lemma_glyphs_view_concat(cluster@, shape@);
                            }
                            cluster.append(&mut shape);
                        },
                        other => {
                            return other;
                        },
                    }
                    first_fallback_pos = None;
                } else {
                    proof {
                        stretch_view = Seq::empty();
                        assert(before + stretch_view =~= before);
                    }
                }
                let own = self.emit(font_idx, s, font_size, dpi, mode, answers, glyphs, &sizes, i);
                match own {
                    ShapeStep::Glyphs(mut shape) => {
                        proof {
                            lemma_glyphs_view_concat(cluster@, shape@);
                        }
                        cluster.append(&mut shape);
                    },
                    other => {
                        return other;
                    },
                }
            }
            i += 1;
        }
        if let Some(start_pos) = first_fallback_pos {
            let stretch = self.flush(font_idx, s, font_size, dpi, mode, answers, start_pos, len);
            match stretch {
                ShapeStep::Glyphs(mut shape) => {
                    proof {
                        lemma_glyphs_view_concat(cluster@, shape@);
                    }
                    cluster.append(&mut shape);
                },
                other => {
                    return other;
                },
            }
        }
        ShapeStep::Glyphs(cluster)
    }

    /// Has the stretch of `s` from byte `start` up to `end` shaped with the
    /// next font, and puts the replacement in its place where that fails.
    fn flush(
        &self,
        font_idx: usize,
        s: &str,
        font_size: FontSize,
        dpi: u32,
        mode: ShapeMode,
        answers: &Transcript,
        start: usize,
        end: usize,
    ) -> (step: ShapeStep)
        requires
            font_idx < self.chain_len(),
            0 < s.spec_bytes().len() <= u32::MAX,
        ensures
            step@ == flush(
                self.run(font_size, dpi, answers@),
                font_idx,
                s@,
                mode,
                start as int,
                end as int,
            ),
            self.asks_as_cached(step),
            clusters_within(step, s.spec_bytes().len() as int),
        decreases mode.rank(), self.chain_len() - font_idx, 1nat, 0nat,
    {
        match cut(s, start, end) {
            None => self.substitute(font_idx, s, font_size, dpi, mode, answers, 0),
            Some(piece) => {
                proof {
                    lemma_empty_text_has_no_bytes(piece@);
                }
                match self.do_shape(font_idx + 1, piece, font_size, dpi, mode, answers) {
                    ShapeStep::Glyphs(shape) => ShapeStep::Glyphs(
                        shift_glyphs(shape, start as u32),
                    ),
                    ShapeStep::Ask(request) => ShapeStep::Ask(request),
                    ShapeStep::Failed(_) => self.substitute(
                        font_idx,
                        s,
                        font_size,
                        dpi,
                        mode,
                        answers,
                        start as u32,
                    ),
                }
            },
        }
    }

    /// Hands on glyph `i`, which the font has, with the text of its span;
    /// the replacement where the span is not cut between characters.
    fn emit(
        &self,
        font_idx: usize,
        s: &str,
        font_size: FontSize,
        dpi: u32,
        mode: ShapeMode,
        answers: &Transcript,
        glyphs: &Vec<RawGlyph>,
        sizes: &Vec<usize>,
        i: usize,
    ) -> (step: ShapeStep)
        requires
            font_idx < self.chain_len(),
            0 < s.spec_bytes().len() <= u32::MAX,
            i < glyphs@.len(),
            sizes@.len() == glyphs@.len(),
            sizes@[i as int] as int == cluster_size(
                glyphs@,
                s.spec_bytes().len() as int,
                i as int,
            ),
        ensures
            step@ == emit(
                self.run(font_size, dpi, answers@),
                font_idx,
                s@,
                mode,
                glyphs@,
                i as int,
            ),
            self.asks_as_cached(step),
            clusters_within(step, s.spec_bytes().len() as int),
        decreases mode.rank(), self.chain_len() - font_idx, 1nat, 0nat,
    {
        broadcast use encode_utf8_valid_utf8;

        let len: usize = s.len();
        let pos: usize = glyphs[i].cluster as usize;
        let size: usize = sizes[i];
        if pos <= len && size <= len - pos && s.is_char_boundary(pos) {
            if let Some(text) = cut(s, pos, pos + size) {
                let shape: Vec<GlyphInfo> = vec![make_glyphinfo(text, font_idx, &glyphs[i])];
                assert(glyphs_view(shape@) =~= seq![shape@[0]@]);
                return ShapeStep::Glyphs(shape);
            }
        }
        self.substitute(font_idx, s, font_size, dpi, mode, answers, 0)
    }

    /// Shapes the replacement text from the first font on and moves its
    /// glyphs up by `by` bytes; fails where a failure here is final.
    fn substitute(
        &self,
        font_idx: usize,
        s: &str,
        font_size: FontSize,
        dpi: u32,
        mode: ShapeMode,
        answers: &Transcript,
        by: u32,
    ) -> (step: ShapeStep)
        requires
            font_idx < self.chain_len(),
            by < u32::MAX,
        ensures
            step@ == substitute(
                self.run(font_size, dpi, answers@),
                font_idx,
                s@,
                mode,
                by as int,
            ),
            self.asks_as_cached(step),
            clusters_within(step, by + 1),
        decreases mode.rank(), self.chain_len() - font_idx, 0nat, 0nat,
    {
        let last_resort: bool = match mode {
            ShapeMode::Replacement => true,
            ShapeMode::Normal => font_idx == 0 && is_replacement(s),
        };
        if last_resort {
            return ShapeStep::Failed(ShapeError::NoReplacement);
        }
        proof {
            reveal_strlit("?");
            assert("?"@ =~= crate::model::replacement_text());
            lemma_replacement_is_one_byte();
        }
        match self.do_shape(0, "?", font_size, dpi, ShapeMode::Replacement, answers) {
            ShapeStep::Glyphs(shape) => ShapeStep::Glyphs(shift_glyphs(shape, by)),
            other => other,
        }
    }
}

/// The start of an open stretch as the model counts it.
pub open spec fn pending_start(first_fallback_pos: Option<usize>) -> Option<int> {
    match first_fallback_pos {
        Some(pos) => Some(pos as int),
        None => None,
    }
}

} // verus!
