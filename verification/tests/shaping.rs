use font_shaper::engine::{EngineReply, EngineRequest, EngineStage, Transcript};
use font_shaper::glyph::{GlyphInfo, RawGlyph};
use font_shaper::handle::FontDataHandle;
use font_shaper::model::{ShapeError, ShapeMode, ShapeStep};
use font_shaper::shaper::HarfbuzzShaper;
use font_shaper::units::{FontSize, PixelLength};

fn chain(fonts: usize) -> Vec<FontDataHandle> {
    let mut handles = Vec::new();
    for index in 0..fonts {
        handles.push(FontDataHandle::Memory { data: vec![index as u8], index: 0 });
    }
    handles
}

fn size() -> FontSize {
    FontSize { bits: 12.0f64.to_bits() }
}

/// One glyph for each character at its byte offset, ten pixels wide; glyph 0
/// where `covers` says that the font lacks the character.
fn glyph_per_char(request: &EngineRequest, covers: &dyn Fn(usize, char) -> bool) -> EngineReply {
    let mut glyphs = Vec::new();
    for (offset, c) in request.text.char_indices() {
        let codepoint = if covers(request.font_idx, c) { c as u32 } else { 0 };
        glyphs.push(RawGlyph {
            cluster: offset as u32,
            codepoint,
            x_advance: 640,
            y_advance: 0,
            x_offset: 0,
            y_offset: 0,
        });
    }
    EngineReply::Shaped(glyphs)
}

fn run(
    shaper: &mut HarfbuzzShaper,
    text: &str,
    engine: &dyn Fn(&EngineRequest) -> EngineReply,
) -> (Result<Vec<GlyphInfo>, ShapeError>, Vec<EngineRequest>) {
    let mut transcript = Transcript::new();
    let mut asked = Vec::new();
    loop {
        match shaper.shape(text, size(), 96, &transcript) {
            ShapeStep::Glyphs(glyphs) => return (Ok(glyphs), asked),
            ShapeStep::Failed(error) => return (Err(error), asked),
            ShapeStep::Ask(request) => {
                assert!(asked.len() < 64, "the shaper keeps asking");
                let answered =
                    transcript.find(request.font_idx, &request.text, request.font_size, 96);
                assert!(answered.is_none(), "the shaper asks for what it has");
                assert!(request.font_idx < shaper_len(shaper));
                let reply = engine(&request);
                shaper.record(&mut transcript, &request, reply);
                asked.push(request);
            }
        }
    }
}

fn shaper_len(shaper: &HarfbuzzShaper) -> usize {
    let mut len = 0;
    while shaper.handle(len).is_some() {
        len += 1;
    }
    len
}

fn ascii_then_symbols(font_idx: usize, c: char) -> bool {
    if font_idx == 0 {
        c.is_ascii()
    } else {
        !c.is_ascii()
    }
}

fn ten_pixels() -> PixelLength {
    PixelLength { units: 10 * 4194304 }
}

fn zero() -> PixelLength {
    PixelLength { units: 0 }
}

#[test]
fn smiley_between_letters_comes_from_the_second_font() {
    let mut shaper = HarfbuzzShaper::new(&chain(2));
    let (result, asked) = run(&mut shaper, "A☺B", &|r| glyph_per_char(r, &ascii_then_symbols));
    let glyphs = result.unwrap();
    assert_eq!(glyphs.len(), 3);
    assert_eq!(
        glyphs[0],
        GlyphInfo {
            text: "A".to_string(),
            num_cells: 1,
            font_idx: 0,
            glyph_pos: 'A' as u32,
            cluster: 0,
            x_advance: ten_pixels(),
            y_advance: zero(),
            x_offset: zero(),
            y_offset: zero(),
        }
    );
    assert_eq!(glyphs[1].text, "☺");
    assert_eq!(glyphs[1].font_idx, 1);
    assert_eq!(glyphs[1].glyph_pos, '☺' as u32);
    assert_eq!(glyphs[1].cluster, 1);
    assert_eq!(glyphs[2].text, "B");
    assert_eq!(glyphs[2].font_idx, 0);
    assert_eq!(glyphs[2].cluster, 4);
    assert_eq!(asked.len(), 2);
    assert_eq!(asked[0].text, "A☺B");
    assert_eq!(asked[0].font_idx, 0);
    assert_eq!(asked[1].text, "☺");
    assert_eq!(asked[1].font_idx, 1);
}

#[test]
fn empty_text_shapes_to_nothing_without_asking() {
    let mut shaper = HarfbuzzShaper::new(&chain(1));
    let (result, asked) = run(&mut shaper, "", &|r| glyph_per_char(r, &ascii_then_symbols));
    assert_eq!(result, Ok(vec![]));
    assert!(asked.is_empty());
}

#[test]
fn empty_text_shapes_to_nothing_without_fonts() {
    let mut shaper = HarfbuzzShaper::new(&chain(0));
    let (result, asked) = run(&mut shaper, "", &|r| glyph_per_char(r, &ascii_then_symbols));
    assert_eq!(result, Ok(vec![]));
    assert!(asked.is_empty());
}

#[test]
fn text_without_fonts_names_its_code_points() {
    let mut shaper = HarfbuzzShaper::new(&chain(0));
    let (result, asked) = run(&mut shaper, "A☺", &|r| glyph_per_char(r, &ascii_then_symbols));
    assert_eq!(result, Err(ShapeError::NoMoreFallbacks { codepoints: vec![0x41, 0x263a] }));
    assert!(asked.is_empty());
}

#[test]
fn text_of_the_first_font_stays_with_it() {
    let mut shaper = HarfbuzzShaper::new(&chain(3));
    let (result, asked) = run(&mut shaper, "hello", &|r| glyph_per_char(r, &ascii_then_symbols));
    let glyphs = result.unwrap();
    assert_eq!(glyphs.len(), 5);
    for (i, glyph) in glyphs.iter().enumerate() {
        assert_eq!(glyph.font_idx, 0);
        assert_eq!(glyph.cluster as usize, i);
        assert_eq!(glyph.text.len(), 1);
    }
    assert_eq!(asked.len(), 1);
}

#[test]
fn what_no_font_has_becomes_the_replacement() {
    let mut shaper = HarfbuzzShaper::new(&chain(2));
    let only_ascii = |_font: usize, c: char| c.is_ascii();
    let (result, asked) = run(&mut shaper, "a☺b", &|r| glyph_per_char(r, &only_ascii));
    let glyphs = result.unwrap();
    assert_eq!(glyphs.len(), 3);
    assert_eq!(glyphs[1].text, "?");
    assert_eq!(glyphs[1].glyph_pos, '?' as u32);
    assert_eq!(glyphs[1].font_idx, 0);
    assert_eq!(glyphs[1].cluster, 1);
    assert_eq!(glyphs[2].cluster, 4);
    let texts: Vec<(usize, &str)> = asked.iter().map(|r| (r.font_idx, r.text.as_str())).collect();
    assert_eq!(texts, vec![(0, "a☺b"), (1, "☺"), (0, "?")]);
}

#[test]
fn a_replacement_that_no_font_has_is_an_error() {
    let mut shaper = HarfbuzzShaper::new(&chain(2));
    let nothing = |_font: usize, _c: char| false;
    let (result, _) = run(&mut shaper, "x", &|r| glyph_per_char(r, &nothing));
    assert_eq!(result, Err(ShapeError::NoReplacement));
    let (result, _) = run(&mut shaper, "?", &|r| glyph_per_char(r, &nothing));
    assert_eq!(result, Err(ShapeError::NoReplacement));
}

#[test]
fn a_face_that_fails_to_open_at_the_first_font_is_an_error() {
    let mut shaper = HarfbuzzShaper::new(&chain(1));
    let (result, asked) = run(&mut shaper, "x", &|_r| EngineReply::Failed(EngineStage::Open));
    assert_eq!(result, Err(ShapeError::Engine { font_idx: 0, stage: EngineStage::Open }));
    assert_eq!(asked.len(), 1);
    assert!(asked[0].open);
}

#[test]
fn do_shape_past_the_chain_fails_in_either_mode() {
    let shaper = HarfbuzzShaper::new(&chain(1));
    let transcript = Transcript::new();
    let step = shaper.do_shape(1, "x", size(), 96, ShapeMode::Replacement, &transcript);
    assert_eq!(step, ShapeStep::Failed(ShapeError::NoMoreFallbacks { codepoints: vec![0x78] }));
}

fn one_glyph_at(cluster: u32, codepoint: u32) -> RawGlyph {
    RawGlyph { cluster, codepoint, x_advance: 640, y_advance: 0, x_offset: 0, y_offset: 0 }
}

#[test]
fn a_ligature_carries_the_text_of_both_letters() {
    let mut shaper = HarfbuzzShaper::new(&chain(1));
    let (result, _) = run(&mut shaper, "fig", &|_r| {
        EngineReply::Shaped(vec![one_glyph_at(0, 900), one_glyph_at(2, 71)])
    });
    let glyphs = result.unwrap();
    let seen: Vec<(&str, u32, u32)> =
        glyphs.iter().map(|g| (g.text.as_str(), g.cluster, g.glyph_pos)).collect();
    assert_eq!(seen, vec![("fi", 0, 900), ("g", 2, 71)]);
}

#[test]
fn a_stretch_of_several_characters_is_shaped_as_one() {
    let mut shaper = HarfbuzzShaper::new(&chain(2));
    let (result, asked) = run(&mut shaper, "a☺☻b", &|r| glyph_per_char(r, &ascii_then_symbols));
    let glyphs = result.unwrap();
    let seen: Vec<(&str, usize, u32)> =
        glyphs.iter().map(|g| (g.text.as_str(), g.font_idx, g.cluster)).collect();
    assert_eq!(seen, vec![("a", 0, 0), ("☺", 1, 1), ("☻", 1, 4), ("b", 0, 7)]);
    let texts: Vec<(usize, &str)> = asked.iter().map(|r| (r.font_idx, r.text.as_str())).collect();
    assert_eq!(texts, vec![(0, "a☺☻b"), (1, "☺☻")]);
}

#[test]
fn a_stretch_at_the_end_is_closed_at_the_end_of_the_text() {
    let mut shaper = HarfbuzzShaper::new(&chain(2));
    let (result, asked) = run(&mut shaper, "ab☺", &|r| glyph_per_char(r, &ascii_then_symbols));
    let glyphs = result.unwrap();
    let seen: Vec<(&str, usize, u32)> =
        glyphs.iter().map(|g| (g.text.as_str(), g.font_idx, g.cluster)).collect();
    assert_eq!(seen, vec![("a", 0, 0), ("b", 0, 1), ("☺", 1, 2)]);
    assert_eq!(asked.len(), 2);
}

#[test]
fn the_third_font_is_reached_through_the_second() {
    let mut shaper = HarfbuzzShaper::new(&chain(3));
    let covers = |font: usize, c: char| match font {
        0 => c.is_ascii(),
        1 => c == '☻',
        _ => c == '☺',
    };
    let (result, asked) = run(&mut shaper, "x☺☻", &|r| glyph_per_char(r, &covers));
    let glyphs = result.unwrap();
    let seen: Vec<(&str, usize, u32)> =
        glyphs.iter().map(|g| (g.text.as_str(), g.font_idx, g.cluster)).collect();
    assert_eq!(seen, vec![("x", 0, 0), ("☺", 2, 1), ("☻", 1, 4)]);
    let texts: Vec<(usize, &str)> = asked.iter().map(|r| (r.font_idx, r.text.as_str())).collect();
    assert_eq!(texts, vec![(0, "x☺☻"), (1, "☺☻"), (2, "☺")]);
}

#[test]
fn the_replacement_may_come_from_a_later_font() {
    let mut shaper = HarfbuzzShaper::new(&chain(2));
    let covers = |font: usize, c: char| match font {
        0 => c == 'a',
        _ => c == '?',
    };
    let (result, asked) = run(&mut shaper, "a☺", &|r| glyph_per_char(r, &covers));
    let glyphs = result.unwrap();
    let seen: Vec<(&str, usize, u32)> =
        glyphs.iter().map(|g| (g.text.as_str(), g.font_idx, g.cluster)).collect();
    assert_eq!(seen, vec![("a", 0, 0), ("?", 1, 1)]);
    let texts: Vec<(usize, &str)> = asked.iter().map(|r| (r.font_idx, r.text.as_str())).collect();
    assert_eq!(texts, vec![(0, "a☺"), (1, "☺"), (0, "?"), (1, "?")]);
}

#[test]
fn a_later_font_that_fails_is_replaced() {
    let mut shaper = HarfbuzzShaper::new(&chain(2));
    let (result, asked) = run(&mut shaper, "a☺", &|r| {
        if r.font_idx == 1 {
            EngineReply::Failed(EngineStage::Resize)
        } else {
            glyph_per_char(r, &ascii_then_symbols)
        }
    });
    let glyphs = result.unwrap();
    let seen: Vec<(&str, usize, u32)> =
        glyphs.iter().map(|g| (g.text.as_str(), g.font_idx, g.cluster)).collect();
    assert_eq!(seen, vec![("a", 0, 0), ("?", 0, 1)]);
    assert_eq!(asked.len(), 3);
}

#[test]
fn a_span_that_cuts_a_character_gets_the_replacement() {
    let mut shaper = HarfbuzzShaper::new(&chain(1));
    let (result, asked) = run(&mut shaper, "é", &|r| {
        if r.text == "?" {
            EngineReply::Shaped(vec![one_glyph_at(0, 63)])
        } else {
            EngineReply::Shaped(vec![one_glyph_at(0, 10), one_glyph_at(0, 11)])
        }
    });
    let glyphs = result.unwrap();
    let seen: Vec<(&str, u32, u32)> =
        glyphs.iter().map(|g| (g.text.as_str(), g.cluster, g.glyph_pos)).collect();
    assert_eq!(seen, vec![("?", 0, 63), ("é", 0, 11)]);
    assert_eq!(asked.len(), 2);
}

#[test]
fn clusters_past_the_text_get_the_replacement() {
    let mut shaper = HarfbuzzShaper::new(&chain(1));
    let (result, _) = run(&mut shaper, "ab", &|r| {
        if r.text == "?" {
            EngineReply::Shaped(vec![one_glyph_at(0, 63)])
        } else {
            EngineReply::Shaped(vec![one_glyph_at(0, 10), one_glyph_at(u32::MAX, 11)])
        }
    });
    let glyphs = result.unwrap();
    let seen: Vec<(&str, u32, u32)> =
        glyphs.iter().map(|g| (g.text.as_str(), g.cluster, g.glyph_pos)).collect();
    assert_eq!(seen, vec![("?", 0, 63), ("?", 0, 63)]);
}

#[test]
fn a_stretch_that_cuts_a_character_gets_the_replacement_as_it_is() {
    let mut shaper = HarfbuzzShaper::new(&chain(2));
    let (result, asked) = run(&mut shaper, "aé", &|r| {
        if r.text == "?" {
            EngineReply::Shaped(vec![one_glyph_at(0, 63)])
        } else {
            EngineReply::Shaped(vec![one_glyph_at(0, 10), one_glyph_at(2, 0)])
        }
    });
    let glyphs = result.unwrap();
    let seen: Vec<(&str, u32, u32)> =
        glyphs.iter().map(|g| (g.text.as_str(), g.cluster, g.glyph_pos)).collect();
    assert_eq!(seen, vec![("?", 0, 63), ("?", 0, 63)]);
    let texts: Vec<(usize, &str)> = asked.iter().map(|r| (r.font_idx, r.text.as_str())).collect();
    assert_eq!(texts, vec![(0, "aé"), (0, "?")]);
}

#[test]
fn a_malformed_replacement_is_an_error() {
    let mut shaper = HarfbuzzShaper::new(&chain(1));
    let (result, _) =
        run(&mut shaper, "é", &|_r| EngineReply::Shaped(vec![one_glyph_at(1, 10)]));
    assert_eq!(result, Err(ShapeError::NoReplacement));
}

#[test]
fn no_glyphs_for_a_text_are_no_glyphs() {
    let mut shaper = HarfbuzzShaper::new(&chain(1));
    let (result, asked) = run(&mut shaper, "abc", &|_r| EngineReply::Shaped(vec![]));
    assert_eq!(result, Ok(vec![]));
    assert_eq!(asked.len(), 1);
}

#[test]
fn spans_of_resolved_text_cover_it_end_to_end() {
    let mut shaper = HarfbuzzShaper::new(&chain(3));
    let covers = |font: usize, c: char| match font {
        0 => c.is_ascii(),
        1 => c == '☻',
        _ => true,
    };
    let text = "ab☺☻汉c";
    let (result, _) = run(&mut shaper, text, &|r| glyph_per_char(r, &covers));
    let glyphs = result.unwrap();
    let mut at = 0;
    for glyph in &glyphs {
        assert_eq!(glyph.cluster as usize, at);
        assert_eq!(&text[at..at + glyph.text.len()], glyph.text);
        at += glyph.text.len();
    }
    assert_eq!(at, text.len());
}

#[test]
fn answers_recorded_later_do_not_change_what_was_reached() {
    let mut shaper = HarfbuzzShaper::new(&chain(2));
    let mut transcript = Transcript::new();
    let mut steps = 0;
    let reached = loop {
        match shaper.shape("a☺b", size(), 96, &transcript) {
            ShapeStep::Ask(request) => {
                steps += 1;
                assert!(steps < 8);
                let reply = glyph_per_char(&request, &ascii_then_symbols);
                shaper.record(&mut transcript, &request, reply);
            }
            done => break done,
        }
    };
    transcript.record(0, "?", size(), 96, EngineReply::Failed(EngineStage::Shape));
    transcript.record(1, "zzz", size(), 96, EngineReply::Shaped(vec![]));
    transcript.record(0, "a☺b", size(), 72, EngineReply::Shaped(vec![]));
    assert_eq!(shaper.shape("a☺b", size(), 96, &transcript), reached);
    assert!(matches!(reached, ShapeStep::Glyphs(ref glyphs) if glyphs.len() == 3));
}

#[test]
fn the_transcript_alone_decides_the_outcome() {
    let shaper = HarfbuzzShaper::new(&chain(2));
    let mut transcript = Transcript::new();
    transcript.record(
        0,
        "a☺",
        size(),
        96,
        EngineReply::Shaped(vec![one_glyph_at(0, 97), one_glyph_at(1, 0)]),
    );
    transcript.record(1, "☺", size(), 96, EngineReply::Shaped(vec![one_glyph_at(0, 7)]));
    let step = shaper.do_shape(0, "a☺", size(), 96, ShapeMode::Normal, &transcript);
    let glyphs = match step {
        ShapeStep::Glyphs(glyphs) => glyphs,
        _ => panic!("the answers suffice"),
    };
    let seen: Vec<(&str, usize, u32, u32)> =
        glyphs.iter().map(|g| (g.text.as_str(), g.font_idx, g.cluster, g.glyph_pos)).collect();
    assert_eq!(seen, vec![("a", 0, 0, 97), ("☺", 1, 1, 7)]);
    let step = shaper.do_shape(1, "a☺", size(), 96, ShapeMode::Normal, &transcript);
    assert!(matches!(step, ShapeStep::Ask(ref request) if request.font_idx == 1
        && request.text == "a☺" && request.open && request.resize));
}

#[test]
fn errors_say_what_went_wrong() {
    let exhausted = ShapeError::NoMoreFallbacks { codepoints: vec![0x41, 0x263a, 0, 0x10ffff] };
    assert_eq!(exhausted.message(), "No more fallbacks while shaping [41, 263a, 0, 10ffff]");
    let nothing = ShapeError::NoMoreFallbacks { codepoints: vec![] };
    assert_eq!(nothing.message(), "No more fallbacks while shaping []");
    let engine = ShapeError::Engine { font_idx: 12, stage: EngineStage::Open };
    assert_eq!(engine.message(), "unable to open the face in font_idx 12");
    let sizing = ShapeError::Engine { font_idx: 0, stage: EngineStage::Resize };
    assert_eq!(sizing.message(), "unable to size the face in font_idx 0");
    let shaping = ShapeError::Engine { font_idx: 109, stage: EngineStage::Shape };
    assert_eq!(shaping.message(), "unable to shape the text in font_idx 109");
    assert_eq!(
        ShapeError::NoReplacement.message(),
        "unable to find any usable glyphs for `?` in font_idx 0"
    );
}

#[test]
fn an_engine_that_cannot_shape_fails_the_first_font() {
    let mut shaper = HarfbuzzShaper::new(&chain(2));
    let (result, asked) = run(&mut shaper, "x", &|_r| EngineReply::Failed(EngineStage::Shape));
    assert_eq!(result, Err(ShapeError::Engine { font_idx: 0, stage: EngineStage::Shape }));
    assert_eq!(asked.len(), 1);
}

#[test]
fn shaping_without_the_replacement_is_the_same_where_none_is_needed() {
    let shaper = HarfbuzzShaper::new(&chain(2));
    let mut transcript = Transcript::new();
    let mut request = match shaper.do_shape(0, "a☺", size(), 96, ShapeMode::Replacement, &transcript)
    {
        ShapeStep::Ask(request) => request,
        _ => panic!("the shaper did not ask"),
    };
    loop {
        let reply = glyph_per_char(&request, &ascii_then_symbols);
        transcript.record(request.font_idx, &request.text, size(), 96, reply);
        match shaper.do_shape(0, "a☺", size(), 96, ShapeMode::Replacement, &transcript) {
            ShapeStep::Ask(next) => request = next,
            strict => {
                let normal = shaper.do_shape(0, "a☺", size(), 96, ShapeMode::Normal, &transcript);
                assert_eq!(strict, normal);
                assert!(matches!(strict, ShapeStep::Glyphs(ref glyphs) if glyphs.len() == 2));
                break;
            }
        }
    }
}

fn assert_clusters_split(text: &str, glyphs: &[GlyphInfo]) {
    assert!(!glyphs.is_empty());
    assert_eq!(glyphs[0].cluster, 0);
    for pair in glyphs.windows(2) {
        assert!(pair[0].cluster < pair[1].cluster);
    }
    for glyph in glyphs {
        assert!((glyph.cluster as usize) < text.len());
        assert!(text.is_char_boundary(glyph.cluster as usize));
    }
}

#[test]
fn clusters_split_the_text_also_around_replacements() {
    let covers = |font: usize, c: char| match font {
        0 => c.is_ascii() && c != 'q',
        1 => c == '\u{263b}',
        _ => false,
    };
    for text in ["a\u{263a}b", "\u{263a}", "q\u{263a}\u{263b}q", "\u{6c49}\u{263b}\u{5b57}x", "?", "xyz"] {
        let mut shaper = HarfbuzzShaper::new(&chain(3));
        let (result, _) = run(&mut shaper, text, &|r| glyph_per_char(r, &covers));
        let glyphs = result.unwrap();
        assert_clusters_split(text, &glyphs);
    }
}

#[test]
fn a_stretch_that_no_font_has_is_one_replacement_at_its_start() {
    let mut shaper = HarfbuzzShaper::new(&chain(2));
    let only_ascii = |_font: usize, c: char| c.is_ascii();
    let (result, _) = run(&mut shaper, "a\u{263a}\u{263b}\u{6c49}b", &|r| glyph_per_char(r, &only_ascii));
    let glyphs = result.unwrap();
    let seen: Vec<(&str, usize, u32)> =
        glyphs.iter().map(|g| (g.text.as_str(), g.font_idx, g.cluster)).collect();
    assert_eq!(seen, vec![("a", 0, 0), ("?", 0, 1), ("b", 0, 10)]);
}

#[test]
fn the_texts_of_resolved_glyphs_join_to_the_text() {
    let covers = |font: usize, c: char| match font {
        0 => c.is_ascii(),
        1 => c == '\u{263b}',
        _ => true,
    };
    let text = "ab\u{263a}\u{263b}\u{6c49}c \u{e9}";
    let mut shaper = HarfbuzzShaper::new(&chain(3));
    let (result, _) = run(&mut shaper, text, &|r| glyph_per_char(r, &covers));
    let glyphs = result.unwrap();
    let joined: String = glyphs.iter().map(|g| g.text.as_str()).collect();
    assert_eq!(joined, text);
    for glyph in &glyphs {
        let at = glyph.cluster as usize;
        assert_eq!(&text[at..at + glyph.text.len()], glyph.text);
    }
}

#[test]
fn with_a_replacement_at_hand_shaping_fails_only_past_the_chain() {
    let covers = |font: usize, c: char| match font {
        0 => c == '?' || c == 'a',
        1 => c == 'b',
        _ => false,
    };
    for text in ["a", "b", "c", "abc", "cba", "\u{263a}\u{263b}", "?", "a?c?"] {
        for font_idx in 0..5 {
            let shaper = HarfbuzzShaper::new(&chain(3));
            let mut transcript = Transcript::new();
            let step = loop {
                match shaper.do_shape(font_idx, text, size(), 96, ShapeMode::Normal, &transcript) {
                    ShapeStep::Ask(request) => {
                        let reply = glyph_per_char(&request, &covers);
                        transcript.record(request.font_idx, &request.text, size(), 96, reply);
                    }
                    done => break done,
                }
            };
            assert_eq!(matches!(step, ShapeStep::Failed(_)), font_idx >= 3);
        }
    }
}
