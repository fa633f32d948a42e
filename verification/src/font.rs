//! One interface over the two font formats: glyph lookup, font height and
//! text measurement.

use crate::error::DecodeError;
use crate::glyph::{GenericGlyph, GlyphView};
use crate::psf2_font::Psf2Font;
use crate::text::chars_of;
use crate::tile_font::{TileFont, CELL_SIDE};
use vstd::prelude::*;

verus! {

/// A decoded font of either format.
pub enum WrappedFont {
    /// A fixed-width PSF2 font.
    Psf2(Psf2Font),
    /// A proportional tile font.
    Uf2(TileFont),
}

impl WrappedFont {
    /// The font of either format is well formed.
    pub open spec fn wf(&self) -> bool {
        match self {
            WrappedFont::Psf2(font) => font.wf(),
            WrappedFont::Uf2(font) => font.wf(),
        }
    }

    /// The height of every glyph of the font, in pixel rows.
    pub open spec fn spec_height(&self) -> nat {
        match self {
            WrappedFont::Psf2(font) => font.spec_height(),
            WrappedFont::Uf2(_) => CELL_SIDE as nat,
        }
    }

    /// The glyph of `ch`, if the font has one.
    pub open spec fn spec_glyph(&self, ch: char) -> Option<GlyphView> {
        match self {
            WrappedFont::Psf2(font) => font.spec_glyph(ch),
            WrappedFont::Uf2(font) => font.spec_glyph(ch),
        }
    }

    /// The number of pixel columns that `ch` takes when drawn: the width of
    /// its glyph, or nothing if it has none.
    pub open spec fn spec_advance(&self, ch: char) -> nat {
        match self.spec_glyph(ch) {
            Some(glyph) => glyph.width,
            None => 0,
        }
    }

    /// The sum of the glyph widths of the characters of `text` that have a
    /// glyph: the width of `text` when drawn.
    pub open spec fn glyph_span(&self, text: Seq<char>) -> nat
        decreases text.len(),
    {
        if text.len() == 0 {
            0
        } else {
            self.glyph_span(text.drop_last()) + self.spec_advance(text.last())
        }
    }

    /// The width that is reserved for `text`. A PSF2 font is fixed-width, so
    /// every character counts with the font's glyph width; in a tile font
    /// the widths of the glyphs are summed.
    pub open spec fn spec_determine_width(&self, text: Seq<char>) -> nat {
        match self {
            WrappedFont::Psf2(font) => text.len() * font.spec_width(),
            WrappedFont::Uf2(_) => self.glyph_span(text),
        }
    }

    /// Adding a character to a text adds its advance to the span.
    pub proof fn lemma_span_step(&self, text: Seq<char>, n: int)
        requires
            0 <= n < text.len(),
        ensures
            self.glyph_span(text.take(n + 1)) == self.glyph_span(text.take(n)) + self.spec_advance(
                text[n],
            ),
    {
        assert(text.take(n + 1).drop_last() =~= text.take(n));
    }

    /// The span of a prefix of a text is at most the span of the text.
    pub proof fn lemma_span_prefix(&self, text: Seq<char>, n: int)
        requires
            0 <= n <= text.len(),
        ensures
            self.glyph_span(text.take(n)) <= self.glyph_span(text),
        decreases text.len() - n,
    {
        if n == text.len() {
            assert(text.take(n) =~= text);
        } else {
            self.lemma_span_step(text, n);
            self.lemma_span_prefix(text, n + 1);
        }
    }

    /// The height of every glyph of the font, in pixel rows.
    pub fn height(&self) -> (height: usize)
        ensures
            height == self.spec_height(),
            height > 0,
    {
        match self {
            WrappedFont::Psf2(font) => font.height(),
            WrappedFont::Uf2(font) => font.height(),
        }
    }

    /// The glyph of `ch`, if the font has one.
    pub fn glyph(&self, ch: char) -> (glyph: Option<GenericGlyph>)
        ensures
            match glyph {
                Some(g) => g.wf() && g@.height == self.spec_height() && self.spec_glyph(ch) == Some(
                    g@,
                ),
                None => self.spec_glyph(ch) is None,
            },
    {
        match self {
            WrappedFont::Psf2(font) => font.glyph(ch),
            WrappedFont::Uf2(font) => font.glyph(ch),
        }
    }

    /// The number of pixel columns that `ch` takes when drawn.
    pub fn advance(&self, ch: char) -> (width: usize)
        ensures
            width == self.spec_advance(ch),
    {
        match self {
            WrappedFont::Psf2(font) => font.advance(ch),
            WrappedFont::Uf2(font) => font.advance(ch),
        }
    }

    /// The width of `text` when drawn: the summed widths of the glyphs of
    /// its characters, skipping those without a glyph.
    pub fn span(&self, text: &Vec<char>) -> (width: usize)
        requires
            self.glyph_span(text@) <= usize::MAX,
        ensures
            width == self.glyph_span(text@),
    {
        let mut width: usize = 0;
        let mut n: usize = 0;
        while n < text.len()
            invariant
                self.glyph_span(text@) <= usize::MAX,
                n <= text.len(),
                width == self.glyph_span(text@.take(n as int)),
            decreases text.len() - n,
        {
            proof {
                self.lemma_span_step(text@, n as int);
                self.lemma_span_prefix(text@, n + 1);
            }
            width = width + self.advance(text[n]);
            n += 1;
        }
        assert(text@.take(n as int) =~= text@);
        width
    }

    /// The width of `text` when drawn, unless it is more than `limit`.
    pub fn span_within(&self, text: &Vec<char>, limit: usize) -> (width: Option<usize>)
        ensures
            match width {
                Some(w) => w == self.glyph_span(text@) && w <= limit,
                None => self.glyph_span(text@) > limit,
            },
    {
        let mut width: usize = 0;
        let mut n: usize = 0;
        while n < text.len()
            invariant
                n <= text.len(),
                width <= limit,
                width == self.glyph_span(text@.take(n as int)),
            decreases text.len() - n,
        {
            proof {
                self.lemma_span_step(text@, n as int);
                self.lemma_span_prefix(text@, n + 1);
            }
            let advance = self.advance(text[n]);
            if advance > limit - width {
                return None;
            }
            width = width + advance;
            n += 1;
        }
        assert(text@.take(n as int) =~= text@);
        Some(width)
    }

    /// The width in pixels that is reserved for `text`.
    pub fn determine_width(&self, text: &str) -> (width: usize)
        requires
            self.spec_determine_width(text@) <= usize::MAX,
        ensures
            width == self.spec_determine_width(text@),
    {
        match self {
            WrappedFont::Psf2(font) => text.unicode_len() * font.width(),
            WrappedFont::Uf2(_) => {
                let chars = chars_of(text);
                self.span(&chars)
            },
        }
    }

    /// The width in pixels that is reserved for `text`, unless it is more
    /// than a machine word holds.
    pub fn checked_determine_width(&self, text: &str) -> (width: Option<usize>)
        ensures
            match width {
                Some(w) => w == self.spec_determine_width(text@),
                None => self.spec_determine_width(text@) > usize::MAX,
            },
    {
        match self {
            WrappedFont::Psf2(font) => text.unicode_len().checked_mul(font.width()),
            WrappedFont::Uf2(_) => {
                let chars = chars_of(text);
                self.span_within(&chars, usize::MAX)
            },
        }
    }
}

/// In a fixed-width font, a text whose characters all have a glyph is as
/// wide when drawn as the width reserved for it: the number of characters
/// times the glyph width.
pub proof fn lemma_fixed_width_span(font: WrappedFont, text: Seq<char>)
    requires
        font is Psf2,
        forall|i: int| 0 <= i < text.len() ==> font.spec_glyph(#[trigger] text[i]) is Some,
    ensures
        font.glyph_span(text) == font.spec_determine_width(text),
    decreases text.len(),
{
    if text.len() > 0 {
        let front = text.drop_last();
        assert forall|i: int| 0 <= i < front.len() implies font.spec_glyph(
            #[trigger] front[i],
        ) is Some by {
            assert(front[i] == text[i]);
        }
        lemma_fixed_width_span(font, front);
        assert(font.spec_glyph(text[text.len() - 1]) is Some);
        let w = font->Psf2_0.spec_width();
        assert(front.len() * w + w == text.len() * w) by (nonlinear_arith)
            requires
                front.len() + 1 == text.len(),
        ;
    }
}

/// In either font, the width reserved for a text is the sum of the widths of
/// the glyphs of its characters, provided that in a fixed-width font every
/// character of the text has a glyph.
pub proof fn lemma_determine_width_is_glyph_sum(font: WrappedFont, text: Seq<char>)
    requires
        font is Psf2 ==> forall|i: int|
            0 <= i < text.len() ==> font.spec_glyph(#[trigger] text[i]) is Some,
    ensures
        font.spec_determine_width(text) == font.glyph_span(text),
{
    if font is Psf2 {
        lemma_fixed_width_span(font, text);
    }
}

/// A character without a glyph adds nothing to the width of a drawn text,
/// and neither does one whose glyph has no columns.
pub proof fn lemma_blank_adds_nothing(font: WrappedFont, text: Seq<char>, ch: char)
    requires
        font.spec_advance(ch) == 0,
    ensures
        font.glyph_span(text.push(ch)) == font.glyph_span(text),
{
    assert(text.push(ch).drop_last() =~= text);
}

/// In a tile font, an ASCII character whose declared width is zero adds
/// nothing to the width that is reserved for a text.
pub proof fn lemma_zero_width_adds_nothing(font: WrappedFont, text: Seq<char>, ch: char)
    requires
        font matches WrappedFont::Uf2(tiles) && tiles.bytes()[ch as int] == 0,
        (ch as u32) < 128,
    ensures
        font.spec_determine_width(text.push(ch)) == font.spec_determine_width(text),
{
    lemma_blank_adds_nothing(font, text, ch);
}

/// Whether `extension` names the tile font format.
pub fn is_tile_font_extension(extension: &str) -> (yes: bool)
    ensures
        yes == (extension@ == "uf2"@),
{
    proof {
        reveal_strlit("uf2");
    }
    let chars = chars_of(extension);
    let yes = chars.len() == 3 && chars[0] == 'u' && chars[1] == 'f' && chars[2] == '2';
    proof {
        if yes {
            assert(extension@ =~= "uf2"@);
        }
    }
    yes
}

/// Decodes the bytes of a font file. The extension of the file's name picks
/// the format: `uf2` is a tile font, and a file with any other extension, or
/// with none, is tried as PSF2.
pub fn load_font(extension: Option<&str>, bytes: Vec<u8>) -> (loaded: Result<WrappedFont, DecodeError>)
    ensures
        extension matches Some(e) && e@ == "uf2"@ ==> {
            &&& loaded is Ok <==> bytes@.len() == crate::tile_font::FILE_SIZE
            &&& loaded matches Ok(font) ==> font matches WrappedFont::Uf2(tiles) && tiles.bytes() == bytes@
            &&& loaded matches Err(e) ==> e == DecodeError::WrongSize
        },
        !(extension matches Some(e) && e@ == "uf2"@) ==> {
            &&& loaded is Ok <==> crate::psf2_font::usable(bytes@)
            &&& loaded matches Ok(font) ==> font matches WrappedFont::Psf2(psf) && psf.data() == bytes@
            &&& loaded matches Err(e) ==> crate::psf2_font::decode_error(bytes@) == Some(e)
        },
        loaded matches Ok(font) ==> font.wf(),
{
    let tiles = match extension {
        Some(e) => is_tile_font_extension(e),
        None => false,
    };
    if tiles {
        match TileFont::new(bytes.as_slice()) {
            Ok(font) => Ok(WrappedFont::Uf2(font)),
            Err(e) => Err(e),
        }
    } else {
        match Psf2Font::new(bytes) {
            Ok(font) => Ok(WrappedFont::Psf2(font)),
            Err(e) => Err(e),
        }
    }
}

} // verus!
