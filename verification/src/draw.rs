//! Rasterising text and the usage graph into blocks.

use crate::block::{filled, ink, Block, BlockView, Pixel};
use crate::font::WrappedFont;
use crate::glyph::{lemma_cell_in_bounds, lemma_cell_index, lemma_index_cell, GenericGlyph};
use crate::history::History;
use crate::text::chars_of;
use vstd::prelude::*;

verus! {

/// Whether the pixel in column `x` of row `y` of a drawn text is set. The
/// glyphs stand side by side, left to right, each as wide as it declares;
/// characters without a glyph take no room.
pub open spec fn text_ink(font: WrappedFont, text: Seq<char>, x: int, y: int) -> bool
    decreases text.len(),
{
    if text.len() == 0 {
        false
    } else {
        let front = text.drop_last();
        let start = font.glyph_span(front);
        if x < start {
            text_ink(font, front, x, y)
        } else {
            match font.spec_glyph(text.last()) {
                Some(glyph) => x - start < glyph.width && glyph.pixel(x - start, y),
                None => false,
            }
        }
    }
}

/// The block that drawing `text` gives: as high as the font, as wide as the
/// glyphs of the text together, foreground where a glyph pixel is set and
/// background elsewhere.
pub open spec fn text_block(
    font: WrappedFont,
    text: Seq<char>,
    foreground: Pixel,
    background: Pixel,
) -> BlockView {
    let width = font.glyph_span(text);
    let height = font.spec_height();
    BlockView {
        width,
        height,
        pixels: Seq::new(
            width * height,
            |i: int|
                ink(
                    text_ink(font, text, i % (width as int), i / (width as int)),
                    foreground,
                    background,
                ),
        ),
    }
}

/// The sample of a load of 100 percent. A sample is a load in millionths of
/// a percent, so that a load is kept finely enough for a column of any
/// height that a font has.
pub const FULL_LOAD: u32 = 100_000_000;

/// The number of rows, counted from the bottom, that a load fills in a
/// column of `height` rows: the share of the load in a full load, times
/// `height`, rounded to the nearest row, halves up. A load above 100 percent
/// fills the column.
pub open spec fn graph_fill(sample: nat, height: nat) -> nat {
    let capped = if sample > FULL_LOAD {
        FULL_LOAD as nat
    } else {
        sample
    };
    (capped * height + (FULL_LOAD / 2) as nat) / (FULL_LOAD as nat)
}

/// The block that drawing a history as a graph gives: one column per sample,
/// newest leftmost; in each column the rows from `height - graph_fill` down
/// are foreground and those above are background.
pub open spec fn graph_block(
    samples: Seq<u32>,
    height: nat,
    foreground: Pixel,
    background: Pixel,
) -> BlockView {
    let width = samples.len();
    BlockView {
        width,
        height,
        pixels: Seq::new(
            width * height,
            |i: int|
                ink(
                    i / (width as int) >= height - graph_fill(
                        samples[i % (width as int)] as nat,
                        height,
                    ),
                    foreground,
                    background,
                ),
        ),
    }
}

/// A text of one character that has a glyph is drawn as that glyph.
pub proof fn lemma_single_glyph_text(font: WrappedFont, ch: char, x: int, y: int)
    requires
        font.spec_glyph(ch) is Some,
        0 <= x < font.spec_glyph(ch)->0.width,
    ensures
        font.glyph_span(seq![ch]) == font.spec_glyph(ch)->0.width,
        text_ink(font, seq![ch], x, y) == font.spec_glyph(ch)->0.pixel(x, y),
{
    let text = seq![ch];
    assert(text.drop_last() =~= Seq::<char>::empty());
    assert(text.last() == ch);
    reveal_with_fuel(text_ink, 2);
    assert(font.glyph_span(text) == font.glyph_span(text.drop_last()) + font.spec_advance(ch));
}

/// No pixel is set to the right of the glyphs of a text.
pub proof fn lemma_no_ink_beyond_span(font: WrappedFont, text: Seq<char>, x: int, y: int)
    requires
        x >= font.glyph_span(text),
    ensures
        !text_ink(font, text, x, y),
    decreases text.len(),
{
    if text.len() > 0 {
        lemma_no_ink_beyond_span(font, text.drop_last(), x, y);
    }
}

/// Copies `glyph` into a buffer of `height` rows of `width` pixels, with its
/// left edge in column `start`. The columns that the glyph covers are set to
/// foreground or background as the glyph says; all others are kept.
fn stamp(
    pixels: &mut Vec<Pixel>,
    width: usize,
    height: usize,
    start: usize,
    glyph: &GenericGlyph,
    foreground: Pixel,
    background: Pixel,
)
    requires
        glyph.wf(),
        glyph@.height == height,
        start + glyph@.width <= width,
        old(pixels)@.len() == width * height,
    ensures
        final(pixels)@.len() == old(pixels)@.len(),
        forall|i: int|
            0 <= i < width * height ==> #[trigger] final(pixels)@[i] == (if start <= i % (
            width as int) < start + glyph@.width {
                ink(
                    glyph@.pixel(i % (width as int) - start, i / (width as int)),
                    foreground,
                    background,
                )
            } else {
                old(pixels)@[i]
            }),
{
    let ghost before = pixels@;
    let ghost w = width as int;
    let glyph_width = glyph.width();
    assert(pixels.len() <= usize::MAX);
    let mut y: usize = 0;
    while y < height
        invariant
            glyph.wf(),
            glyph@.height == height,
            glyph_width == glyph@.width,
            start + glyph_width <= width,
            w == width,
            before.len() == width * height,
            before.len() <= usize::MAX,
            pixels@.len() == before.len(),
            y <= height,
            forall|i: int|
                0 <= i < before.len() ==> #[trigger] pixels@[i] == (if start <= i % w < start
                    + glyph_width && i / w < y {
                    ink(glyph@.pixel(i % w - start, i / w), foreground, background)
                } else {
                    before[i]
                }),
        decreases height - y,
    {
        let mut x: usize = 0;
        while x < glyph_width
            invariant
                glyph.wf(),
                glyph@.height == height,
                glyph_width == glyph@.width,
                start + glyph_width <= width,
                w == width,
                before.len() == width * height,
                before.len() <= usize::MAX,
                pixels@.len() == before.len(),
                y < height,
                x <= glyph_width,
                forall|i: int|
                    0 <= i < before.len() ==> #[trigger] pixels@[i] == (if start <= i % w < start
                        + glyph_width && (i / w < y || (i / w == y && i % w - start < x)) {
                        ink(glyph@.pixel(i % w - start, i / w), foreground, background)
                    } else {
                        before[i]
                    }),
            decreases glyph_width - x,
        {
            proof {
                lemma_cell_in_bounds(start + x, y as int, w, height as int);
                lemma_cell_index(start + x, y as int, w);
            }
            let on = glyph.pixel(x, y);
            let colour = if on {
                foreground
            } else {
                background
            };
            let at = y * width + start + x;
            pixels[at] = colour;
            proof {
                assert forall|i: int| 0 <= i < before.len() implies #[trigger] pixels@[i] == (
                if start <= i % w < start + glyph_width && (i / w < y || (i / w == y && i % w
                    - start < x + 1)) {
                    ink(glyph@.pixel(i % w - start, i / w), foreground, background)
                } else {
                    before[i]
                }) by {
                    lemma_index_cell(i, w, height as int);
                }
            }
            x += 1;
        }
        y += 1;
    }
    proof {
        assert forall|i: int| 0 <= i < width * height implies #[trigger] pixels@[i] == (
        if start <= i % w < start + glyph@.width {
            ink(glyph@.pixel(i % w - start, i / w), foreground, background)
        } else {
            before[i]
        }) by {
            lemma_index_cell(i, w, height as int);
        }
    }
}

/// Draws `text`: the glyphs of its characters side by side, left to right,
/// in foreground on background. Characters without a glyph are skipped.
pub fn draw_chars(text: &Vec<char>, font: &WrappedFont, foreground: Pixel, background: Pixel) -> (block:
    Block)
    requires
        font.glyph_span(text@) * font.spec_height() <= usize::MAX,
    ensures
        block.wf(),
        block@ == text_block(*font, text@, foreground, background),
{
    let height = font.height();
    proof {
        assert(font.glyph_span(text@) <= font.glyph_span(text@) * font.spec_height())
            by (nonlinear_arith)
            requires
                font.spec_height() > 0,
        ;
    }
    let width = font.span(text);
    let mut pixels = filled(width * height, background);
    let ghost w = width as int;
    let mut start: usize = 0;
    let mut n: usize = 0;
    while n < text.len()
        invariant
            height == font.spec_height(),
            width == font.glyph_span(text@),
            w == width,
            width * height <= usize::MAX,
            pixels@.len() == width * height,
            n <= text.len(),
            start == font.glyph_span(text@.take(n as int)),
            forall|i: int|
                0 <= i < width * height ==> #[trigger] pixels@[i] == ink(
                    text_ink(*font, text@.take(n as int), i % w, i / w),
                    foreground,
                    background,
                ),
        decreases text.len() - n,
    {
        let ghost done = text@.take(n as int);
        let ghost next = text@.take(n + 1);
        proof {
            font.lemma_span_step(text@, n as int);
            font.lemma_span_prefix(text@, n + 1);
            assert(next.drop_last() =~= done);
            assert(next.last() == text@[n as int]);
        }
        match font.glyph(text[n]) {
            Some(glyph) => {
                let ghost before = pixels@;
                stamp(&mut pixels, width, height, start, &glyph, foreground, background);
                proof {
                    assert forall|i: int| 0 <= i < width * height implies #[trigger] pixels@[i]
                        == ink(text_ink(*font, next, i % w, i / w), foreground, background) by {
                        assert(before[i] == ink(
                            text_ink(*font, done, i % w, i / w),
                            foreground,
                            background,
                        ));
                        if i % w >= start {
                            lemma_no_ink_beyond_span(*font, done, i % w, i / w);
                        }
                    }
                }
                start = start + glyph.width();
            },
            None => {
                proof {
                    assert forall|i: int| 0 <= i < width * height implies #[trigger] pixels@[i]
                        == ink(text_ink(*font, next, i % w, i / w), foreground, background) by {
                        if i % w >= start {
                            lemma_no_ink_beyond_span(*font, done, i % w, i / w);
                        }
                    }
                }
            },
        }
        n += 1;
    }
    proof {
        assert(text@.take(n as int) =~= text@);
        assert(pixels@ =~= text_block(*font, text@, foreground, background).pixels);
    }
    Block::from_pixels(pixels, width, height)
}

/// Draws `text` as [`draw_chars`] draws its characters.
pub fn draw(text: &str, font: &WrappedFont, foreground: Pixel, background: Pixel) -> (block: Block)
    requires
        font.glyph_span(text@) * font.spec_height() <= usize::MAX,
    ensures
        block.wf(),
        block@ == text_block(*font, text@, foreground, background),
{
    let chars = chars_of(text);
    draw_chars(&chars, font, foreground, background)
}

/// The number of rows that a load of `sample` fills in a column of
/// `height` rows.
pub fn fill_rows(sample: u32, height: usize) -> (rows: usize)
    ensures
        rows == graph_fill(sample as nat, height as nat),
        rows <= height,
{
    let capped: u128 = if sample > FULL_LOAD {
        FULL_LOAD as u128
    } else {
        sample as u128
    };
    assert(capped * height <= FULL_LOAD * height) by (nonlinear_arith)
        requires
            capped <= FULL_LOAD,
    ;
    let scaled: u128 = capped * (height as u128) + (FULL_LOAD / 2) as u128;
    (scaled / (FULL_LOAD as u128)) as usize
}

/// Draws a history of loads as a graph `height` rows high: one
/// column per sample, the newest leftmost, filled from the bottom.
pub fn draw_graph(history: &History<u32>, height: usize, foreground: Pixel, background: Pixel) -> (block:
    Block)
    requires
        history@.len() * height <= usize::MAX,
    ensures
        block.wf(),
        block@ == graph_block(history@, height as nat, foreground, background),
{
    let width = history.len();
    let mut pixels: Vec<Pixel> = Vec::new();
    let mut y: usize = 0;
    while y < height
        invariant
            width == history@.len(),
            width * height <= usize::MAX,
            y <= height,
            pixels@.len() == y * width,
            forall|i: int|
                0 <= i < pixels@.len() ==> #[trigger] pixels@[i] == ink(
                    i / (width as int) >= height - graph_fill(
                        history@[i % (width as int)] as nat,
                        height as nat,
                    ),
                    foreground,
                    background,
                ),
        decreases height - y,
    {
        let mut x: usize = 0;
        while x < width
            invariant
                width == history@.len(),
                width * height <= usize::MAX,
                y < height,
                x <= width,
                pixels@.len() == y * width + x,
                forall|i: int|
                    0 <= i < pixels@.len() ==> #[trigger] pixels@[i] == ink(
                        i / (width as int) >= height - graph_fill(
                            history@[i % (width as int)] as nat,
                            height as nat,
                        ),
                        foreground,
                        background,
                    ),
            decreases width - x,
        {
            let blank = height - fill_rows(*history.get(x), height);
            let colour = if y < blank {
                background
            } else {
                foreground
            };
            proof {
                lemma_cell_index(x as int, y as int, width as int);
            }
            pixels.push(colour);
            x += 1;
        }
        assert((y + 1) * width == y * width + width) by (nonlinear_arith);
        y += 1;
    }
    proof {
        assert(y * width == width as nat * height as nat) by (nonlinear_arith)
            requires
                y == height,
        ;
        assert(pixels@ =~= graph_block(
            history@,
            height as nat,
            foreground,
            background,
        ).pixels);
    }
    Block::from_pixels(pixels, width, height)
}

} // verus!
