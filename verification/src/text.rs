//! What showing a run of glyphs does in each text rendering mode.
use vstd::prelude::*;

verus! {

/// How text is painted: filled, stroked, both, not at all, and whether its
/// outlines are added to the clip.
#[derive(Clone, Copy, Debug, PartialEq, Eq, Structural)]
pub enum TextRenderingMode {
    Fill,
    Stroke,
    FillStroke,
    Invisible,
    FillAndClip,
    StrokeAndClip,
    FillAndStrokeAndClip,
    Clip,
}

/// The draws a run of glyphs makes, in this order: filled, stroked, or drawn
/// invisibly (so that its text can still be read out), and whether its
/// outlines are added to the clip.
#[derive(Clone, Copy, Debug, PartialEq, Eq, Structural)]
pub struct GlyphRunDraws {
    pub fill: bool,
    pub stroke: bool,
    pub invisible: bool,
    pub clip: bool,
}

/// Whether a mode paints the glyphs' insides.
pub open spec fn mode_fills(mode: TextRenderingMode) -> bool {
    mode == TextRenderingMode::Fill || mode == TextRenderingMode::FillStroke || mode
        == TextRenderingMode::FillAndClip || mode == TextRenderingMode::FillAndStrokeAndClip
}

/// Whether a mode strokes the glyphs' outlines.
pub open spec fn mode_strokes(mode: TextRenderingMode) -> bool {
    mode == TextRenderingMode::Stroke || mode == TextRenderingMode::FillStroke || mode
        == TextRenderingMode::StrokeAndClip || mode == TextRenderingMode::FillAndStrokeAndClip
}

/// Whether a mode adds the glyphs' outlines to the clip.
pub open spec fn mode_clips(mode: TextRenderingMode) -> bool {
    mode == TextRenderingMode::FillAndClip || mode == TextRenderingMode::StrokeAndClip || mode
        == TextRenderingMode::FillAndStrokeAndClip || mode == TextRenderingMode::Clip
}

/// The number a content stream's `Tr` operator gives a mode.
pub open spec fn mode_number(mode: TextRenderingMode) -> nat {
    match mode {
        TextRenderingMode::Fill => 0,
        TextRenderingMode::Stroke => 1,
        TextRenderingMode::FillStroke => 2,
        TextRenderingMode::Invisible => 3,
        TextRenderingMode::FillAndClip => 4,
        TextRenderingMode::StrokeAndClip => 5,
        TextRenderingMode::FillAndStrokeAndClip => 6,
        TextRenderingMode::Clip => 7,
    }
}

/// The modes form a grid by their numbers: modes 4 to 7 add their outlines to
/// the clip, and otherwise paint as modes 0 to 3 do; of those, 0 fills, 1
/// strokes, 2 does both and 3 does neither.
pub proof fn lemma_mode_grid(mode: TextRenderingMode)
    ensures
        mode_clips(mode) <==> mode_number(mode) >= 4,
        mode_fills(mode) <==> (mode_number(mode) % 4 == 0 || mode_number(mode) % 4 == 2),
        mode_strokes(mode) <==> (mode_number(mode) % 4 == 1 || mode_number(mode) % 4 == 2),
        mode_number(mode) < 8,
{
}

/// The draws a run of glyphs makes in `mode`: fill and stroke as the mode
/// says, an invisible draw for invisible text, and the clip for the four
/// clipping modes. Only the pure clipping mode draws nothing.
pub fn glyph_run_draws(mode: TextRenderingMode) -> (r: GlyphRunDraws)
    ensures
        r.fill == mode_fills(mode),
        r.stroke == mode_strokes(mode),
        r.invisible == (mode == TextRenderingMode::Invisible),
        r.clip == mode_clips(mode),
        !(r.fill || r.stroke || r.invisible) <==> mode == TextRenderingMode::Clip,
{
    match mode {
        TextRenderingMode::Fill => GlyphRunDraws { fill: true, stroke: false, invisible: false, clip: false },
        TextRenderingMode::Stroke => GlyphRunDraws { fill: false, stroke: true, invisible: false, clip: false },
        TextRenderingMode::FillStroke => GlyphRunDraws { fill: true, stroke: true, invisible: false, clip: false },
        TextRenderingMode::Invisible => GlyphRunDraws { fill: false, stroke: false, invisible: true, clip: false },
        TextRenderingMode::FillAndClip => GlyphRunDraws { fill: true, stroke: false, invisible: false, clip: true },
        TextRenderingMode::StrokeAndClip => GlyphRunDraws { fill: false, stroke: true, invisible: false, clip: true },
        TextRenderingMode::FillAndStrokeAndClip => GlyphRunDraws {
            fill: true,
            stroke: true,
            invisible: false,
            clip: true,
        },
        TextRenderingMode::Clip => GlyphRunDraws { fill: false, stroke: false, invisible: false, clip: true },
    }
}

/// Whether every byte is ASCII.
pub open spec fn all_ascii(bytes: Seq<u8>) -> bool {
    forall|i: int| 0 <= i < bytes.len() ==> #[trigger] bytes[i] < 128
}

/// Whether every byte is ASCII.
pub fn is_ascii(bytes: &[u8]) -> (r: bool)
    ensures
        r == all_ascii(bytes@),
{
    let mut i: usize = 0;
    while i < bytes.len()
        invariant
            i <= bytes@.len(),
            forall|j: int| 0 <= j < i ==> #[trigger] bytes@[j] < 128,
        decreases bytes.len() - i,
    {
        if bytes[i] >= 128 {
            return false;
        }
        i = i + 1;
    }
    true
}

/// Whether the glyphs of a string are shown: always with a font of the
/// document, and with the fallback font (used where none or an unusable one
/// was set) only when the string is ASCII.
pub fn show_glyphs(fallback_font: bool, bytes: &[u8]) -> (r: bool)
    ensures
        r == (!fallback_font || all_ascii(bytes@)),
{
    !fallback_font || is_ascii(bytes)
}

} // verus!
