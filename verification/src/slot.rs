//! How wide the slot of a text must be to hold the widest text that an
//! element of its kind can show.
//!
//! In a fixed-width font every character is as wide as any other, so a slot
//! is measured on a pattern of the right length. In a tile font the slot has
//! room for the widest character in every place where the text varies: the
//! widest digit, and for a percentage also the space that pads a short
//! number and the dash that stands for an unknown one.

use crate::font::WrappedFont;
use crate::text::{decimal, digit, digit_char, padded};
use vstd::prelude::*;

verus! {

/// The larger of two widths.
pub open spec fn larger(a: nat, b: nat) -> nat {
    if a >= b {
        a
    } else {
        b
    }
}

/// The width of the widest of the digits below `n`.
pub open spec fn widest_digit_below(font: WrappedFont, n: nat) -> nat
    decreases n,
{
    if n == 0 {
        0
    } else {
        larger(
            widest_digit_below(font, (n - 1) as nat),
            font.spec_advance(digit_char((n - 1) as nat)),
        )
    }
}

/// The width of the widest of the ten digits.
pub open spec fn widest_digit(font: WrappedFont) -> nat {
    widest_digit_below(font, 10)
}

/// The width of the widest character that can stand before the percent
/// sign: a digit, the space that pads a short number, or the dash of an
/// unknown one.
pub open spec fn widest_percent_char(font: WrappedFont) -> nat {
    larger(larger(font.spec_advance(' '), font.spec_advance('-')), widest_digit(font))
}

/// The width of the slot of a percentage: three characters and a percent
/// sign.
pub open spec fn percent_slot(font: WrappedFont) -> nat {
    match font {
        WrappedFont::Psf2(_) => font.spec_determine_width("000%"@),
        WrappedFont::Uf2(_) => font.spec_advance('%') + 3 * widest_percent_char(font),
    }
}

/// The width of the slot of a date: eight digits and two hyphens.
pub open spec fn date_slot(font: WrappedFont) -> nat {
    match font {
        WrappedFont::Psf2(_) => font.spec_determine_width("0000-00-00"@),
        WrappedFont::Uf2(_) => 2 * font.spec_advance('-') + 8 * widest_digit(font),
    }
}

/// The width of the slot of a time: six digits and two colons.
pub open spec fn time_slot(font: WrappedFont) -> nat {
    match font {
        WrappedFont::Psf2(_) => font.spec_determine_width("00:00:00"@),
        WrappedFont::Uf2(_) => 2 * font.spec_advance(':') + 6 * widest_digit(font),
    }
}

/// The character is one of the ten digits.
pub open spec fn is_digit(ch: char) -> bool {
    exists|d: nat| d < 10 && ch == #[trigger] digit_char(d)
}

/// In a tile font no character is wider than a byte says.
pub proof fn lemma_tile_advance_small(font: WrappedFont, ch: char)
    requires
        font is Uf2,
    ensures
        font.spec_advance(ch) <= u8::MAX,
{
}

/// No digit is wider than the widest digit.
pub proof fn lemma_digit_advance(font: WrappedFont, ch: char)
    requires
        is_digit(ch),
    ensures
        font.spec_advance(ch) <= widest_digit(font),
{
    reveal_with_fuel(widest_digit_below, 11);
}

/// The widest digit of a tile font is no wider than a byte says.
pub proof fn lemma_tile_digits_small(font: WrappedFont)
    requires
        font is Uf2,
    ensures
        widest_digit(font) <= u8::MAX,
{
    reveal_with_fuel(widest_digit_below, 11);
    assert forall|d: nat| d < 10 implies font.spec_advance(#[trigger] digit_char(d)) <= u8::MAX by {
        lemma_tile_advance_small(font, digit_char(d));
    }
}

/// The numeral of a number consists of digits, and of no more of them than
/// the number has places.
pub proof fn lemma_decimal_shape(n: nat)
    ensures
        decimal(n).len() >= 1,
        forall|i: int| 0 <= i < decimal(n).len() ==> is_digit(#[trigger] decimal(n)[i]),
        n < 10 ==> decimal(n).len() == 1,
        n < 100 ==> decimal(n).len() <= 2,
        n < 1000 ==> decimal(n).len() <= 3,
        n < 10000 ==> decimal(n).len() <= 4,
    decreases n,
{
    if n < 10 {
        assert(is_digit(digit_char(n)));
    } else {
        lemma_decimal_shape(n / 10);
        assert(is_digit(digit_char(n % 10)));
        let front = decimal(n / 10);
        assert forall|i: int| 0 <= i < decimal(n).len() implies is_digit(
            #[trigger] decimal(n)[i],
        ) by {
            if i < front.len() {
                assert(decimal(n)[i] == front[i]);
            }
        }
    }
}

/// The numeral of a number that has no more than `width` places, put to
/// `width` characters, has exactly that many, each of them a digit or the
/// padding.
pub proof fn lemma_padded_shape(n: nat, width: nat, pad: char)
    requires
        decimal(n).len() <= width,
    ensures
        padded(decimal(n), width, pad).len() == width,
        forall|i: int|
            0 <= i < width ==> {
                let ch = #[trigger] padded(decimal(n), width, pad)[i];
                ch == pad || is_digit(ch)
            },
{
    lemma_decimal_shape(n);
    let body = decimal(n);
    let text = padded(body, width, pad);
    assert forall|i: int| 0 <= i < width implies {
        let ch = #[trigger] text[i];
        ch == pad || is_digit(ch)
    } by {
        if body.len() < width && i >= width - body.len() {
            assert(text[i] == body[i - (width - body.len())]);
        } else if body.len() >= width {
            assert(text[i] == body[i]);
        }
    }
}

/// The width of a text when drawn is the sum of the widths of its parts.
pub proof fn lemma_span_concat(font: WrappedFont, left: Seq<char>, right: Seq<char>)
    ensures
        font.glyph_span(left + right) == font.glyph_span(left) + font.glyph_span(right),
    decreases right.len(),
{
    if right.len() == 0 {
        assert(left + right =~= left);
    } else {
        lemma_span_concat(font, left, right.drop_last());
        assert((left + right).drop_last() =~= left + right.drop_last());
        assert((left + right).last() == right.last());
    }
}

/// A text of characters none of which is wider than `most` is no wider than
/// its length times `most`.
pub proof fn lemma_span_bound(font: WrappedFont, text: Seq<char>, most: nat)
    requires
        forall|i: int| 0 <= i < text.len() ==> font.spec_advance(#[trigger] text[i]) <= most,
    ensures
        font.glyph_span(text) <= text.len() * most,
    decreases text.len(),
{
    if text.len() > 0 {
        let front = text.drop_last();
        assert forall|i: int| 0 <= i < front.len() implies font.spec_advance(
            #[trigger] front[i],
        ) <= most by {
            assert(front[i] == text[i]);
        }
        lemma_span_bound(font, front, most);
        assert(font.spec_advance(text[text.len() - 1]) <= most);
        assert(front.len() * most + most == text.len() * most) by (nonlinear_arith)
            requires
                front.len() + 1 == text.len(),
        ;
    }
}

/// A text of one character is as wide as that character.
pub proof fn lemma_span_single(font: WrappedFont, ch: char)
    ensures
        font.glyph_span(seq![ch]) == font.spec_advance(ch),
{
    let text = seq![ch];
    assert(text.drop_last() =~= Seq::<char>::empty());
    assert(text.last() == ch);
    assert(font.glyph_span(text) == font.glyph_span(text.drop_last()) + font.spec_advance(ch));
}

/// In a fixed-width font no text is wider when drawn than the width that is
/// reserved for it.
pub proof fn lemma_fixed_span_within(font: WrappedFont, text: Seq<char>)
    requires
        font is Psf2,
    ensures
        font.glyph_span(text) <= font.spec_determine_width(text),
{
    let width = font->Psf2_0.spec_width();
    lemma_span_bound(font, text, width);
}

/// The width of the widest of the ten digits.
pub fn widest_digit_of(font: &WrappedFont) -> (width: usize)
    ensures
        width == widest_digit(*font),
{
    let mut width: usize = 0;
    let mut d: u32 = 0;
    while d < 10
        invariant
            d <= 10,
            width == widest_digit_below(*font, d as nat),
        decreases 10 - d,
    {
        let advance = font.advance(digit(d));
        if advance > width {
            width = advance;
        }
        d += 1;
    }
    width
}

/// The width of the widest character that can stand before the percent
/// sign.
pub fn widest_percent_char_of(font: &WrappedFont) -> (width: usize)
    ensures
        width == widest_percent_char(*font),
{
    let space = font.advance(' ');
    let dash = font.advance('-');
    let digits = widest_digit_of(font);
    let blank = if space >= dash {
        space
    } else {
        dash
    };
    if blank >= digits {
        blank
    } else {
        digits
    }
}

/// The width of the slot of a percentage in a tile font.
fn tile_percent_slot(font: &WrappedFont) -> (width: usize)
    requires
        font is Uf2,
    ensures
        width == percent_slot(*font),
{
    proof {
        lemma_tile_advance_small(*font, '%');
        lemma_tile_advance_small(*font, ' ');
        lemma_tile_advance_small(*font, '-');
        lemma_tile_digits_small(*font);
    }
    font.advance('%') + 3 * widest_percent_char_of(font)
}

/// The width of the slot of a date in a tile font.
fn tile_date_slot(font: &WrappedFont) -> (width: usize)
    requires
        font is Uf2,
    ensures
        width == date_slot(*font),
{
    proof {
        lemma_tile_advance_small(*font, '-');
        lemma_tile_digits_small(*font);
    }
    2 * font.advance('-') + 8 * widest_digit_of(font)
}

/// The width of the slot of a time in a tile font.
fn tile_time_slot(font: &WrappedFont) -> (width: usize)
    requires
        font is Uf2,
    ensures
        width == time_slot(*font),
{
    proof {
        lemma_tile_advance_small(*font, ':');
        lemma_tile_digits_small(*font);
    }
    2 * font.advance(':') + 6 * widest_digit_of(font)
}

/// The width of the slot of a percentage.
pub fn percent_slot_of(font: &WrappedFont) -> (width: usize)
    requires
        percent_slot(*font) <= usize::MAX,
    ensures
        width == percent_slot(*font),
{
    match font {
        WrappedFont::Psf2(_) => font.determine_width("000%"),
        WrappedFont::Uf2(_) => tile_percent_slot(font),
    }
}

/// The width of the slot of a date.
pub fn date_slot_of(font: &WrappedFont) -> (width: usize)
    requires
        date_slot(*font) <= usize::MAX,
    ensures
        width == date_slot(*font),
{
    match font {
        WrappedFont::Psf2(_) => font.determine_width("0000-00-00"),
        WrappedFont::Uf2(_) => tile_date_slot(font),
    }
}

/// The width of the slot of a time.
pub fn time_slot_of(font: &WrappedFont) -> (width: usize)
    requires
        time_slot(*font) <= usize::MAX,
    ensures
        width == time_slot(*font),
{
    match font {
        WrappedFont::Psf2(_) => font.determine_width("00:00:00"),
        WrappedFont::Uf2(_) => tile_time_slot(font),
    }
}

/// The width of the slot of a percentage, unless it is more than a machine
/// word holds.
pub fn checked_percent_slot(font: &WrappedFont) -> (width: Option<usize>)
    ensures
        match width {
            Some(w) => w == percent_slot(*font),
            None => percent_slot(*font) > usize::MAX,
        },
{
    match font {
        WrappedFont::Psf2(_) => font.checked_determine_width("000%"),
        WrappedFont::Uf2(_) => Some(tile_percent_slot(font)),
    }
}

/// The width of the slot of a date, unless it is more than a machine word
/// holds.
pub fn checked_date_slot(font: &WrappedFont) -> (width: Option<usize>)
    ensures
        match width {
            Some(w) => w == date_slot(*font),
            None => date_slot(*font) > usize::MAX,
        },
{
    match font {
        WrappedFont::Psf2(_) => font.checked_determine_width("0000-00-00"),
        WrappedFont::Uf2(_) => Some(tile_date_slot(font)),
    }
}

/// The width of the slot of a time, unless it is more than a machine word
/// holds.
pub fn checked_time_slot(font: &WrappedFont) -> (width: Option<usize>)
    ensures
        match width {
            Some(w) => w == time_slot(*font),
            None => time_slot(*font) > usize::MAX,
        },
{
    match font {
        WrappedFont::Psf2(_) => font.checked_determine_width("00:00:00"),
        WrappedFont::Uf2(_) => Some(tile_time_slot(font)),
    }
}

} // verus!
