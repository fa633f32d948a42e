//! The fields of the status display: what each shows, how wide a slot it
//! reserves, and to which side of the slot it is aligned.

use crate::block::{Block, BlockView, Pixel};
use crate::draw::{draw_chars, draw_graph, graph_block, text_block};
use crate::font::WrappedFont;
use crate::history::History;
use crate::slot::{
    checked_date_slot, checked_percent_slot, checked_time_slot, date_slot, date_slot_of, is_digit,
    lemma_decimal_shape, lemma_digit_advance, lemma_fixed_span_within, lemma_padded_shape,
    lemma_span_bound, lemma_span_concat, lemma_span_single, percent_slot, percent_slot_of,
    time_slot, time_slot_of, widest_digit, widest_percent_char,
};
use crate::text::{chars_of, decimal, digit_char, padded, push_number};
use vstd::prelude::*;

verus! {

/// What the music player is doing.
#[derive(Debug, Clone, Copy, PartialEq, Eq, Structural)]
pub enum PlaybackState {
    Stop,
    Play,
    Pause,
}

/// A calendar date.
#[derive(Debug, Clone, Copy, PartialEq, Eq, Structural)]
pub struct Date {
    pub year: u32,
    pub month: u32,
    pub day: u32,
}

/// A time of day.
#[derive(Debug, Clone, Copy, PartialEq, Eq, Structural)]
pub struct Time {
    pub hour: u32,
    pub minute: u32,
    pub second: u32,
}

/// The side of its slot on which an element is drawn.
#[derive(Debug, Clone, Copy, PartialEq, Eq, Structural)]
pub enum Alignment {
    Left,
    Right,
}

/// One field of the status display.
#[derive(Debug, Clone)]
pub enum Element {
    /// Empty room of the given width in pixels.
    Padding(usize),
    /// Empty room as wide as two spaces.
    Space,
    /// A fixed text.
    Label(String),
    /// The date, as `YYYY-MM-DD`.
    Date(Date),
    /// The time, as `HH:MM:SS`.
    Time(Time),
    /// The share of memory in use, in percent, if it is known.
    Mem(Option<u32>),
    /// The processor load in percent, if it is known.
    Cpu(Option<u32>),
    /// The charge of the battery in percent, if it is known.
    Battery(Option<u32>),
    /// The recent processor load as a graph. A sample is a load in
    /// millionths of a percent.
    CpuGraph(History<u32>),
    /// What the music player is doing, as a symbol.
    PlaybackState(PlaybackState),
}

/// The symbol that stands for a playback state.
pub open spec fn spec_playback_symbol(state: PlaybackState) -> Seq<char> {
    match state {
        PlaybackState::Stop => "#"@,
        PlaybackState::Play => ">"@,
        PlaybackState::Pause => "\""@,
    }
}

/// The symbol that stands for a playback state.
pub fn playback_state_symbol(state: PlaybackState) -> (symbol: &'static str)
    ensures
        symbol@ == spec_playback_symbol(state),
{
    match state {
        PlaybackState::Stop => "#",
        PlaybackState::Play => ">",
        PlaybackState::Pause => "\"",
    }
}

/// A date as text: the year put to four digits, month and day to two, with
/// zeros, and hyphens between them.
pub open spec fn date_text(date: Date) -> Seq<char> {
    padded(decimal(date.year as nat), 4, '0') + seq!['-'] + padded(
        decimal(date.month as nat),
        2,
        '0',
    ) + seq!['-'] + padded(decimal(date.day as nat), 2, '0')
}

/// A time as text: hour, minute and second, each put to two digits with
/// zeros, and colons between them.
pub open spec fn time_text(time: Time) -> Seq<char> {
    padded(decimal(time.hour as nat), 2, '0') + seq![':'] + padded(
        decimal(time.minute as nat),
        2,
        '0',
    ) + seq![':'] + padded(decimal(time.second as nat), 2, '0')
}

/// A percentage as text: the number put to three characters with spaces in
/// front, then a percent sign; dashes in place of a number that is not
/// known.
pub open spec fn percent_text(value: Option<u32>) -> Seq<char> {
    match value {
        Some(percent) => padded(decimal(percent as nat), 3, ' ') + seq!['%'],
        None => "---%"@,
    }
}

/// A percentage that is unknown or has no more than three digits is no
/// wider when drawn than the slot of a percentage.
pub proof fn lemma_percent_fits(font: WrappedFont, value: Option<u32>)
    requires
        value matches Some(percent) ==> percent <= 999,
    ensures
        font.glyph_span(percent_text(value)) <= percent_slot(font),
{
    reveal_strlit("---%");
    reveal_strlit("000%");
    let text = percent_text(value);
    let body = match value {
        Some(percent) => padded(decimal(percent as nat), 3, ' '),
        None => seq!['-', '-', '-'],
    };
    assert(text =~= body + seq!['%']);
    if let Some(percent) = value {
        lemma_decimal_shape(percent as nat);
        lemma_padded_shape(percent as nat, 3, ' ');
    }
    assert(body.len() == 3);
    if font is Psf2 {
        assert(text.len() == 4);
        lemma_span_bound(font, text, font->Psf2_0.spec_width());
    } else {
        let most = widest_percent_char(font);
        assert forall|i: int| 0 <= i < body.len() implies font.spec_advance(#[trigger] body[i])
            <= most by {
            if is_digit(body[i]) {
                lemma_digit_advance(font, body[i]);
            }
        }
        lemma_span_bound(font, body, most);
        lemma_span_concat(font, body, seq!['%']);
        lemma_span_single(font, '%');
    }
}

/// The digits of a date or a time: the numeral of `n`, which has no more
/// than `width` places, put to `width` digits, is no wider when drawn in a
/// tile font than `width` of the widest digit.
proof fn lemma_digits_fit(font: WrappedFont, n: nat, width: nat)
    requires
        decimal(n).len() <= width,
    ensures
        padded(decimal(n), width, '0').len() == width,
        font.glyph_span(padded(decimal(n), width, '0')) <= width * widest_digit(font),
{
    lemma_padded_shape(n, width, '0');
    let text = padded(decimal(n), width, '0');
    assert(is_digit(digit_char(0)));
    assert forall|i: int| 0 <= i < text.len() implies font.spec_advance(#[trigger] text[i])
        <= widest_digit(font) by {
        lemma_digit_advance(font, text[i]);
    }
    lemma_span_bound(font, text, widest_digit(font));
}

/// Three groups of digits with a mark after the first and after the second
/// are as wide when drawn as the groups and the two marks together.
proof fn lemma_marked_span(
    font: WrappedFont,
    first: Seq<char>,
    second: Seq<char>,
    third: Seq<char>,
    mark: char,
)
    ensures
        font.glyph_span(first + seq![mark] + second + seq![mark] + third) == font.glyph_span(first)
            + font.glyph_span(second) + font.glyph_span(third) + 2 * font.spec_advance(mark),
{
    lemma_span_single(font, mark);
    lemma_span_concat(font, first, seq![mark]);
    lemma_span_concat(font, first + seq![mark], second);
    lemma_span_concat(font, first + seq![mark] + second, seq![mark]);
    lemma_span_concat(font, first + seq![mark] + second + seq![mark], third);
}

/// A date with a year of no more than four digits, and a month and a day of
/// no more than two, is no wider when drawn than the slot of a date.
pub proof fn lemma_date_fits(font: WrappedFont, date: Date)
    requires
        date.year <= 9999,
        date.month <= 99,
        date.day <= 99,
    ensures
        font.glyph_span(date_text(date)) <= date_slot(font),
{
    reveal_strlit("0000-00-00");
    lemma_decimal_shape(date.year as nat);
    lemma_decimal_shape(date.month as nat);
    lemma_decimal_shape(date.day as nat);
    lemma_digits_fit(font, date.year as nat, 4);
    lemma_digits_fit(font, date.month as nat, 2);
    lemma_digits_fit(font, date.day as nat, 2);
    let text = date_text(date);
    if font is Psf2 {
        assert(text.len() == 10);
        lemma_span_bound(font, text, font->Psf2_0.spec_width());
    } else {
        lemma_marked_span(
            font,
            padded(decimal(date.year as nat), 4, '0'),
            padded(decimal(date.month as nat), 2, '0'),
            padded(decimal(date.day as nat), 2, '0'),
            '-',
        );
    }
}

/// A time with an hour, a minute and a second of no more than two digits is
/// no wider when drawn than the slot of a time.
pub proof fn lemma_time_fits(font: WrappedFont, time: Time)
    requires
        time.hour <= 99,
        time.minute <= 99,
        time.second <= 99,
    ensures
        font.glyph_span(time_text(time)) <= time_slot(font),
{
    reveal_strlit("00:00:00");
    lemma_decimal_shape(time.hour as nat);
    lemma_decimal_shape(time.minute as nat);
    lemma_decimal_shape(time.second as nat);
    lemma_digits_fit(font, time.hour as nat, 2);
    lemma_digits_fit(font, time.minute as nat, 2);
    lemma_digits_fit(font, time.second as nat, 2);
    let text = time_text(time);
    if font is Psf2 {
        assert(text.len() == 8);
        lemma_span_bound(font, text, font->Psf2_0.spec_width());
    } else {
        lemma_marked_span(
            font,
            padded(decimal(time.hour as nat), 2, '0'),
            padded(decimal(time.minute as nat), 2, '0'),
            padded(decimal(time.second as nat), 2, '0'),
            ':',
        );
    }
}

/// An element whose value is in range is no wider when drawn than its slot,
/// in either font: the slot is as wide as the widest text that an element
/// of its kind can show.
pub proof fn lemma_in_range_fits(element: Element, font: WrappedFont)
    requires
        element.in_range(),
    ensures
        element.fits_slot(font),
{
    match element {
        Element::Label(text) => {
            if font is Psf2 {
                lemma_fixed_span_within(font, text@);
            }
        },
        Element::Date(date) => {
            lemma_date_fits(font, date);
        },
        Element::Time(time) => {
            lemma_time_fits(font, time);
        },
        Element::Mem(value) => {
            lemma_percent_fits(font, value);
        },
        Element::Cpu(value) => {
            lemma_percent_fits(font, value);
        },
        Element::Battery(value) => {
            lemma_percent_fits(font, value);
        },
        Element::PlaybackState(state) => {
            if font is Psf2 {
                lemma_fixed_span_within(font, spec_playback_symbol(state));
            }
        },
        _ => {},
    }
}

/// Where a block goes in its slot, and where the next slot begins. The slot
/// begins at `x` and is `slot` wide; the block is `block` wide. A block on
/// the left begins at `x`, one on the right ends where the slot ends. The
/// next slot begins at `x + slot` either way.
pub fn place(alignment: Alignment, x: usize, slot: usize, block: usize) -> (placed: (usize, usize))
    requires
        block <= slot,
        x + slot <= usize::MAX,
    ensures
        placed.0 == spec_block_start(alignment, x as nat, slot as nat, block as nat),
        placed.1 == x + slot,
{
    let overshoot = slot - block;
    match alignment {
        Alignment::Left => (x, x + overshoot + block),
        Alignment::Right => (x + overshoot, x + overshoot + block),
    }
}

/// A block that is no wider than its slot lies within the slot, on either
/// side: it begins at or after `x` and ends at or before `x + slot`. On the
/// right it ends exactly where the slot ends, on the left it begins exactly
/// where the slot begins.
pub proof fn lemma_block_in_slot(alignment: Alignment, x: nat, slot: nat, block: nat)
    requires
        block <= slot,
    ensures
        x <= spec_block_start(alignment, x, slot, block),
        spec_block_start(alignment, x, slot, block) + block <= x + slot,
        alignment == Alignment::Right ==> spec_block_start(alignment, x, slot, block) + block == x
            + slot,
        alignment == Alignment::Left ==> spec_block_start(alignment, x, slot, block) == x,
{
}

/// The column in which a block begins that is drawn into the slot at `x`.
pub open spec fn spec_block_start(alignment: Alignment, x: nat, slot: nat, block: nat) -> nat {
    match alignment {
        Alignment::Left => x,
        Alignment::Right => (x + slot - block) as nat,
    }
}

impl Element {
    /// The text that the element shows now, if it shows text.
    pub open spec fn spec_text(&self) -> Option<Seq<char>> {
        match self {
            Element::Padding(_) => None,
            Element::Space => None,
            Element::Label(text) => Some(text@),
            Element::Date(date) => Some(date_text(*date)),
            Element::Time(time) => Some(time_text(*time)),
            Element::Mem(value) => Some(percent_text(*value)),
            Element::Cpu(value) => Some(percent_text(*value)),
            Element::Battery(value) => Some(percent_text(*value)),
            Element::CpuGraph(_) => None,
            Element::PlaybackState(state) => Some(spec_playback_symbol(*state)),
        }
    }

    /// The width of the slot that the element reserves: the width of the
    /// widest text that an element of its kind can show, or its own width
    /// where it shows no text. A label and a playback symbol are measured as
    /// they stand; a date, a time and a percentage get room for the widest
    /// character in every place that varies.
    pub open spec fn spec_width(&self, font: WrappedFont) -> nat {
        match self {
            Element::Padding(width) => *width as nat,
            Element::Space => font.spec_determine_width("  "@),
            Element::Label(text) => font.spec_determine_width(text@),
            Element::Date(_) => date_slot(font),
            Element::Time(_) => time_slot(font),
            Element::Mem(_) => percent_slot(font),
            Element::Cpu(_) => percent_slot(font),
            Element::Battery(_) => percent_slot(font),
            Element::CpuGraph(history) => history@.len(),
            Element::PlaybackState(_) => {
                let stop = font.spec_determine_width("#"@);
                let play = font.spec_determine_width(">"@);
                let pause = font.spec_determine_width("\""@);
                if stop >= play && stop >= pause {
                    stop
                } else if play >= pause {
                    play
                } else {
                    pause
                }
            },
        }
    }

    /// The value of the element is one that its slot is made for: a
    /// percentage that is unknown or has no more than three digits, a year
    /// of no more than four digits, and a month, day, hour, minute and
    /// second of no more than two. Every other element is always in range.
    pub open spec fn in_range(&self) -> bool {
        match self {
            Element::Date(date) => date.year <= 9999 && date.month <= 99 && date.day <= 99,
            Element::Time(time) => time.hour <= 99 && time.minute <= 99 && time.second <= 99,
            Element::Mem(value) => value matches Some(percent) ==> percent <= 999,
            Element::Cpu(value) => value matches Some(percent) ==> percent <= 999,
            Element::Battery(value) => value matches Some(percent) ==> percent <= 999,
            _ => true,
        }
    }

    /// The side of its slot on which the element is drawn: date and time on
    /// the left, everything else on the right.
    pub open spec fn spec_alignment(&self) -> Alignment {
        match self {
            Element::Date(_) => Alignment::Left,
            Element::Time(_) => Alignment::Left,
            _ => Alignment::Right,
        }
    }

    /// The width of what the element draws now, if it draws anything.
    pub open spec fn spec_block_width(&self, font: WrappedFont) -> Option<nat> {
        match self {
            Element::Padding(_) => None,
            Element::Space => None,
            Element::CpuGraph(history) => Some(history@.len()),
            _ => Some(font.glyph_span(self.spec_text()->0)),
        }
    }

    /// What the element draws now, if it draws anything: its text, or the
    /// graph of its history as high as the font.
    pub open spec fn spec_block(
        &self,
        font: WrappedFont,
        foreground: Pixel,
        background: Pixel,
    ) -> Option<BlockView> {
        match self {
            Element::Padding(_) => None,
            Element::Space => None,
            Element::CpuGraph(history) => Some(
                graph_block(history@, font.spec_height(), foreground, background),
            ),
            _ => Some(text_block(font, self.spec_text()->0, foreground, background)),
        }
    }

    /// What the element draws now is no wider than its slot.
    pub open spec fn fits_slot(&self, font: WrappedFont) -> bool {
        match self.spec_block_width(font) {
            Some(width) => width <= self.spec_width(font),
            None => true,
        }
    }

    /// The text that the element shows now, if it shows text.
    pub fn text(&self) -> (text: Option<Vec<char>>)
        ensures
            match text {
                Some(chars) => self.spec_text() == Some(chars@),
                None => self.spec_text() is None,
            },
    {
        match self {
            Element::Padding(_) => None,
            Element::Space => None,
            Element::Label(text) => Some(chars_of(text.as_str())),
            Element::Date(date) => {
                let mut out: Vec<char> = Vec::new();
                push_number(&mut out, date.year, 4, '0');
                out.push('-');
                push_number(&mut out, date.month, 2, '0');
                out.push('-');
                push_number(&mut out, date.day, 2, '0');
                assert(out@ =~= date_text(*date));
                Some(out)
            },
            Element::Time(time) => {
                let mut out: Vec<char> = Vec::new();
                push_number(&mut out, time.hour, 2, '0');
                out.push(':');
                push_number(&mut out, time.minute, 2, '0');
                out.push(':');
                push_number(&mut out, time.second, 2, '0');
                assert(out@ =~= time_text(*time));
                Some(out)
            },
            Element::Mem(value) => Some(percent_chars(*value)),
            Element::Cpu(value) => Some(percent_chars(*value)),
            Element::Battery(value) => Some(percent_chars(*value)),
            Element::CpuGraph(_) => None,
            Element::PlaybackState(state) => Some(chars_of(playback_state_symbol(*state))),
        }
    }

    /// The width of the slot that the element reserves. An element whose
    /// value is in range is no wider when drawn than this.
    pub fn width_with_font(&self, font: &WrappedFont) -> (width: usize)
        requires
            self.slot_measurable(*font),
        ensures
            width == self.spec_width(*font),
            self.in_range() ==> self.fits_slot(*font),
    {
        proof {
            if self.in_range() {
                lemma_in_range_fits(*self, *font);
            }
        }
        match self {
            Element::Padding(width) => *width,
            Element::Space => font.determine_width("  "),
            Element::Label(text) => font.determine_width(text.as_str()),
            Element::Date(_) => date_slot_of(font),
            Element::Time(_) => time_slot_of(font),
            Element::Mem(_) => percent_slot_of(font),
            Element::Cpu(_) => percent_slot_of(font),
            Element::Battery(_) => percent_slot_of(font),
            Element::CpuGraph(history) => history.len(),
            Element::PlaybackState(_) => {
                let stop = font.determine_width(playback_state_symbol(PlaybackState::Stop));
                let play = font.determine_width(playback_state_symbol(PlaybackState::Play));
                let pause = font.determine_width(playback_state_symbol(PlaybackState::Pause));
                if stop >= play && stop >= pause {
                    stop
                } else if play >= pause {
                    play
                } else {
                    pause
                }
            },
        }
    }

    /// The width of the slot that the element reserves, unless a text that
    /// is measured for it is wider than a machine word holds.
    pub fn checked_width(&self, font: &WrappedFont) -> (width: Option<usize>)
        ensures
            match width {
                Some(w) => self.slot_measurable(*font) && w == self.spec_width(*font),
                None => !self.slot_measurable(*font),
            },
    {
        match self {
            Element::Padding(width) => Some(*width),
            Element::Space => font.checked_determine_width("  "),
            Element::Label(text) => font.checked_determine_width(text.as_str()),
            Element::Date(_) => checked_date_slot(font),
            Element::Time(_) => checked_time_slot(font),
            Element::Mem(_) => checked_percent_slot(font),
            Element::Cpu(_) => checked_percent_slot(font),
            Element::Battery(_) => checked_percent_slot(font),
            Element::CpuGraph(history) => Some(history.len()),
            Element::PlaybackState(_) => {
                let stop = font.checked_determine_width("#");
                let play = font.checked_determine_width(">");
                let pause = font.checked_determine_width("\"");
                match (stop, play, pause) {
                    (Some(_), Some(_), Some(_)) => Some(self.width_with_font(font)),
                    _ => None,
                }
            },
        }
    }

    /// Every text that is measured for the slot of the element has a width
    /// that fits a machine word.
    pub open spec fn slot_measurable(&self, font: WrappedFont) -> bool {
        match self {
            Element::PlaybackState(_) => {
                &&& font.spec_determine_width("#"@) <= usize::MAX
                &&& font.spec_determine_width(">"@) <= usize::MAX
                &&& font.spec_determine_width("\""@) <= usize::MAX
            },
            _ => self.spec_width(font) <= usize::MAX,
        }
    }

    /// Whether what the element draws now is no wider than its slot.
    pub fn fits(&self, font: &WrappedFont) -> (fits: bool)
        requires
            self.slot_measurable(*font),
        ensures
            fits == self.fits_slot(*font),
    {
        match self.text() {
            Some(chars) => {
                let slot = self.width_with_font(font);
                font.span_within(&chars, slot).is_some()
            },
            None => true,
        }
    }

    /// The side of its slot on which the element is drawn.
    pub fn alignment(&self) -> (alignment: Alignment)
        ensures
            alignment == self.spec_alignment(),
    {
        match self {
            Element::Padding(_)
            | Element::Space
            | Element::Label(_)
            | Element::Mem(_)
            | Element::Cpu(_)
            | Element::Battery(_)
            | Element::CpuGraph(_)
            | Element::PlaybackState(_) => Alignment::Right,
            Element::Date(_) | Element::Time(_) => Alignment::Left,
        }
    }

    /// Draws what the element shows now, if it shows anything.
    pub fn render(&self, font: &WrappedFont, foreground: Pixel, background: Pixel) -> (block: Option<
        Block,
    >)
        requires
            self.spec_block_width(*font) matches Some(width) ==> width * font.spec_height()
                <= usize::MAX,
        ensures
            match block {
                Some(b) => b.wf() && self.spec_block(*font, foreground, background) == Some(b@),
                None => self.spec_block(*font, foreground, background) is None,
            },
    {
        match self {
            Element::Padding(_) => None,
            Element::Space => None,
            Element::CpuGraph(history) => Some(
                draw_graph(history, font.height(), foreground, background),
            ),
            _ => {
                match self.text() {
                    Some(chars) => Some(draw_chars(&chars, font, foreground, background)),
                    None => None,
                }
            },
        }
    }
}

/// A percentage as text.
fn percent_chars(value: Option<u32>) -> (text: Vec<char>)
    ensures
        text@ == percent_text(value),
{
    match value {
        Some(percent) => {
            let mut out: Vec<char> = Vec::new();
            push_number(&mut out, percent, 3, ' ');
            out.push('%');
            assert(out@ =~= percent_text(value));
            out
        },
        None => chars_of("---%"),
    }
}

} // verus!
