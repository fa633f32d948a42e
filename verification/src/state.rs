//! The whole display: a font, two colours and the elements in order; how
//! readings change it, and how it is laid out on the surface.

use crate::block::{blit, lemma_blit_keeps_outside, Pixel, PIXEL_SIZE};
use crate::element::{
    lemma_block_in_slot, lemma_in_range_fits, place, spec_block_start, Alignment, Date, Element,
    PlaybackState, Time,
};
use crate::font::WrappedFont;
use crate::history::{pushed, History, DEFAULT_LEN};
use crate::parse::{blank_samples, first_date, first_time};
use vstd::prelude::*;

verus! {

/// What was sampled for one tick of the display.
#[derive(Debug, Clone, Copy)]
pub struct Readings {
    /// The date now.
    pub date: Date,
    /// The time now.
    pub time: Time,
    /// The share of memory in use, in percent, unless it is not a number.
    pub mem: Option<u32>,
    /// The processor load in percent, unless it is not a number.
    pub cpu: Option<u32>,
    /// The processor load in millionths of a percent, for the graph; zero
    /// for a load that is not a number.
    pub load: u32,
    /// The charge of the battery in percent, if there is a battery.
    pub battery: Option<u32>,
    /// What the music player is doing, if it answered.
    pub playback: Option<PlaybackState>,
}

impl Readings {
    /// Every reading is one that the slots are made for: a year of no more
    /// than four digits, the other parts of date and time of no more than
    /// two, and percentages of no more than three.
    pub open spec fn in_range(&self) -> bool {
        &&& self.date.year <= 9999 && self.date.month <= 99 && self.date.day <= 99
        &&& self.time.hour <= 99 && self.time.minute <= 99 && self.time.second <= 99
        &&& self.mem matches Some(percent) ==> percent <= 999
        &&& self.cpu matches Some(percent) ==> percent <= 999
        &&& self.battery matches Some(percent) ==> percent <= 999
    }
}

/// An element in range that takes readings in range is in range again.
pub proof fn lemma_refreshed_in_range(before: Element, after: Element, readings: Readings)
    requires
        before.in_range(),
        readings.in_range(),
        refreshed(before, after, readings),
    ensures
        after.in_range(),
{
}

/// Whether `after` is what a tick with the given readings makes of `before`:
/// clock and load elements take the new reading; battery and playback
/// elements take it if there is one and keep their value otherwise; a graph
/// records the load; padding, space and labels stay.
pub open spec fn refreshed(before: Element, after: Element, readings: Readings) -> bool {
    match before {
        Element::Padding(_) => after == before,
        Element::Space => after == before,
        Element::Label(_) => after == before,
        Element::Date(_) => after == Element::Date(readings.date),
        Element::Time(_) => after == Element::Time(readings.time),
        Element::Mem(_) => after == Element::Mem(readings.mem),
        Element::Cpu(_) => after == Element::Cpu(readings.cpu),
        Element::Battery(_) => match readings.battery {
            Some(charge) => after == Element::Battery(Some(charge)),
            None => after == before,
        },
        Element::CpuGraph(history) => after matches Element::CpuGraph(recorded) && recorded@
            == pushed(history@, readings.load),
        Element::PlaybackState(_) => match readings.playback {
            Some(state) => after == Element::PlaybackState(state),
            None => after == before,
        },
    }
}

/// The elements of a display for which none are configured: date, time,
/// battery, memory, load, a graph of the load and the playback state, with
/// labels, spaces between them and padding at both ends.
pub fn default_elements() -> (elements: Vec<Element>)
    ensures
        elements@.len() == 18,
        elements@[0] == Element::Padding(3),
        elements@[1] == Element::Date(first_date()),
        elements@[2] == Element::Space,
        elements@[3] == Element::Time(first_time()),
        elements@[4] == Element::Space,
        elements@[5] matches Element::Label(text) && text@ == "bat"@,
        elements@[6] == Element::Battery(Some(0)),
        elements@[7] == Element::Space,
        elements@[8] matches Element::Label(text) && text@ == "mem"@,
        elements@[9] == Element::Mem(Some(0)),
        elements@[10] == Element::Space,
        elements@[11] matches Element::Label(text) && text@ == "cpu"@,
        elements@[12] == Element::Cpu(Some(0)),
        elements@[13] == Element::Space,
        elements@[14] matches Element::CpuGraph(history) && history@ == blank_samples(
            DEFAULT_LEN as nat,
        ),
        elements@[15] == Element::Space,
        elements@[16] == Element::PlaybackState(PlaybackState::Stop),
        elements@[17] == Element::Padding(3),
{
    let date = Date { year: 1970, month: 1, day: 1 };
    let time = Time { hour: 0, minute: 0, second: 0 };
    let history: History<u32> = History::default();
    assert(history@ =~= blank_samples(DEFAULT_LEN as nat));
    let mut elements: Vec<Element> = Vec::new();
    elements.push(Element::Padding(3));
    elements.push(Element::Date(date));
    elements.push(Element::Space);
    elements.push(Element::Time(time));
    elements.push(Element::Space);
    elements.push(Element::Label("bat".to_owned()));
    elements.push(Element::Battery(Some(0)));
    elements.push(Element::Space);
    elements.push(Element::Label("mem".to_owned()));
    elements.push(Element::Mem(Some(0)));
    elements.push(Element::Space);
    elements.push(Element::Label("cpu".to_owned()));
    elements.push(Element::Cpu(Some(0)));
    elements.push(Element::Space);
    elements.push(Element::CpuGraph(history));
    elements.push(Element::Space);
    elements.push(Element::PlaybackState(PlaybackState::Stop));
    elements.push(Element::Padding(3));
    elements
}

/// The display.
pub struct State {
    pub font: WrappedFont,
    pub foreground: Pixel,
    pub background: Pixel,
    pub elements: Vec<Element>,
}

impl State {
    /// The column at which the slot of element `n` begins: the widths of the
    /// slots before it, summed.
    pub open spec fn cursor(&self, n: int) -> nat
        decreases n,
    {
        if n <= 0 {
            0
        } else {
            self.cursor(n - 1) + self.elements@[n - 1].spec_width(self.font)
        }
    }

    /// The width of the display in pixels: all slots together.
    pub open spec fn spec_width(&self) -> nat {
        self.cursor(self.elements@.len() as int)
    }

    /// The slots can be measured and summed in machine words.
    pub open spec fn wf(&self) -> bool {
        &&& forall|i: int|
            0 <= i < self.elements@.len() ==> (#[trigger] self.elements@[i]).slot_measurable(
                self.font,
            )
        &&& self.spec_width() <= usize::MAX
    }

    /// What every element draws now is no wider than its slot.
    pub open spec fn can_draw(&self) -> bool {
        forall|i: int|
            0 <= i < self.elements@.len() ==> (#[trigger] self.elements@[i]).fits_slot(self.font)
    }

    /// The surface after the first `n` elements have been drawn onto
    /// `frame`, each block into its slot.
    pub open spec fn drawn(&self, frame: Seq<u8>, n: int) -> Seq<u8>
        decreases n,
    {
        if n <= 0 {
            frame
        } else {
            let element = self.elements@[n - 1];
            let so_far = self.drawn(frame, n - 1);
            match element.spec_block(self.font, self.foreground, self.background) {
                Some(block) => blit(
                    so_far,
                    block,
                    self.spec_width(),
                    spec_block_start(
                        element.spec_alignment(),
                        self.cursor(n - 1),
                        element.spec_width(self.font),
                        block.width,
                    ),
                ),
                None => so_far,
            }
        }
    }

    /// The slots up to any element end within the display.
    pub proof fn lemma_cursor_within(&self, n: int)
        requires
            0 <= n <= self.elements@.len(),
        ensures
            self.cursor(n) <= self.spec_width(),
        decreases self.elements@.len() - n,
    {
        if n < self.elements@.len() {
            self.lemma_cursor_within(n + 1);
        }
    }

    /// The slot of an element begins no further left than the slot of an
    /// element before it.
    pub proof fn lemma_cursor_grows(&self, from: int, to: int)
        requires
            0 <= from <= to <= self.elements@.len(),
        ensures
            self.cursor(from) <= self.cursor(to),
        decreases to - from,
    {
        if from < to {
            self.lemma_cursor_grows(from, to - 1);
        }
    }

    /// The column of the pixel that byte `i` of the surface belongs to.
    pub open spec fn column_of(&self, i: int) -> int {
        (i / 4) % (self.spec_width() as int)
    }

    /// The row of the pixel that byte `i` of the surface belongs to.
    pub open spec fn row_of(&self, i: int) -> int {
        (i / 4) / (self.spec_width() as int)
    }

    /// The column in which what element `n` draws begins: at the left of
    /// its slot or so that it ends at the right of its slot, as its
    /// alignment says.
    pub open spec fn block_start(&self, n: int) -> nat {
        let element = self.elements@[n];
        match element.spec_block_width(self.font) {
            Some(width) => spec_block_start(
                element.spec_alignment(),
                self.cursor(n),
                element.spec_width(self.font),
                width,
            ),
            None => self.cursor(n),
        }
    }

    /// The value of every element is one that its slot is made for.
    pub open spec fn in_range(&self) -> bool {
        forall|i: int| 0 <= i < self.elements@.len() ==> (#[trigger] self.elements@[i]).in_range()
    }

    /// A display whose values are all in range can be drawn: no element is
    /// wider than its slot, whatever the font.
    pub proof fn lemma_in_range_can_draw(&self)
        requires
            self.in_range(),
        ensures
            self.can_draw(),
    {
        assert forall|i: int| 0 <= i < self.elements@.len() implies (
        #[trigger] self.elements@[i]).fits_slot(self.font) by {
            lemma_in_range_fits(self.elements@[i], self.font);
        }
    }

    /// Drawing leaves the surface as long as it was.
    pub proof fn lemma_drawn_len(&self, frame: Seq<u8>, n: int)
        ensures
            self.drawn(frame, n).len() == frame.len(),
        decreases n,
    {
        if n > 0 {
            self.lemma_drawn_len(frame, n - 1);
        }
    }

    /// Drawing element `n` changes no byte of a pixel whose column lies
    /// outside the slot of that element, provided that the element fits its
    /// slot.
    pub proof fn lemma_element_stays_in_slot(&self, frame: Seq<u8>, n: int, i: int)
        requires
            0 <= n < self.elements@.len(),
            self.elements@[n].fits_slot(self.font),
            0 <= i < frame.len(),
            self.column_of(i) < self.cursor(n) || self.column_of(i) >= self.cursor(n + 1),
        ensures
            self.drawn(frame, n + 1)[i] == self.drawn(frame, n)[i],
    {
        self.lemma_drawn_len(frame, n);
        let element = self.elements@[n];
        if let Some(block) = element.spec_block(self.font, self.foreground, self.background) {
            lemma_block_in_slot(
                element.spec_alignment(),
                self.cursor(n),
                element.spec_width(self.font),
                block.width,
            );
            lemma_blit_keeps_outside(
                self.drawn(frame, n),
                block,
                self.spec_width(),
                self.block_start(n),
                i,
            );
        }
    }

    /// Before element `n` is drawn, the bytes of the pixels in its slot are
    /// still those of the surface as it was, provided that the elements
    /// before it fit their slots.
    pub proof fn lemma_slot_untouched_before(&self, frame: Seq<u8>, n: int, k: int, i: int)
        requires
            0 <= k <= n < self.elements@.len(),
            forall|m: int| 0 <= m < k ==> (#[trigger] self.elements@[m]).fits_slot(self.font),
            0 <= i < frame.len(),
            self.cursor(n) <= self.column_of(i),
        ensures
            self.drawn(frame, k)[i] == frame[i],
        decreases k,
    {
        if k > 0 {
            self.lemma_slot_untouched_before(frame, n, k - 1, i);
            self.lemma_cursor_grows(k, n);
            self.lemma_element_stays_in_slot(frame, k - 1, i);
        }
    }

    /// After element `n` is drawn, the bytes of the pixels in its slot are no
    /// more changed, provided that the elements after it fit their slots.
    pub proof fn lemma_slot_untouched_after(&self, frame: Seq<u8>, n: int, k: int, i: int)
        requires
            0 <= n < k <= self.elements@.len(),
            forall|m: int| n < m < k ==> (#[trigger] self.elements@[m]).fits_slot(self.font),
            0 <= i < frame.len(),
            self.column_of(i) < self.cursor(n + 1),
        ensures
            self.drawn(frame, k)[i] == self.drawn(frame, n + 1)[i],
        decreases k,
    {
        if k > n + 1 {
            self.lemma_slot_untouched_after(frame, n, k - 1, i);
            self.lemma_cursor_grows(n + 1, k - 1);
            self.lemma_element_stays_in_slot(frame, k - 1, i);
        }
    }

    /// When a display that can be drawn has been drawn, the slot of each
    /// element holds what that element draws and nothing else. A byte of a
    /// pixel in the slot of element `n` is the byte of the element's block
    /// if the pixel lies in the columns from `block_start(n)` on that the
    /// block covers, and in its rows; every other byte of the slot is as it
    /// was before. So a block that is narrower than its slot, and aligned to
    /// the right, leaves the columns at the left of the slot alone and ends
    /// where the slot ends, and the next slot begins there.
    pub proof fn lemma_slot_holds_its_element(&self, frame: Seq<u8>, n: int, i: int)
        requires
            self.can_draw(),
            0 <= n < self.elements@.len(),
            0 <= i < frame.len(),
            self.cursor(n) <= self.column_of(i) < self.cursor(n + 1),
        ensures
            self.cursor(n + 1) == self.cursor(n) + self.elements@[n].spec_width(self.font),
            self.cursor(n) <= self.block_start(n),
            self.drawn(frame, self.elements@.len() as int)[i] == (match self.elements@[n].spec_block(
                self.font,
                self.foreground,
                self.background,
            ) {
                Some(block) => {
                    let x = self.column_of(i) - self.block_start(n);
                    let y = self.row_of(i);
                    if 0 <= x < block.width && y < block.height {
                        block.pixel(x, y)[i % 4]
                    } else {
                        frame[i]
                    }
                },
                None => frame[i],
            }),
            self.elements@[n].spec_block_width(self.font) matches Some(width) ==> {
                &&& self.block_start(n) + width <= self.cursor(n + 1)
                &&& self.elements@[n].spec_alignment() == Alignment::Right ==> self.block_start(n)
                    + width == self.cursor(n + 1)
                &&& self.elements@[n].spec_alignment() == Alignment::Left ==> self.block_start(n)
                    == self.cursor(n)
            },
    {
        let len = self.elements@.len() as int;
        let element = self.elements@[n];
        assert(element.fits_slot(self.font));
        self.lemma_slot_untouched_before(frame, n, n, i);
        self.lemma_slot_untouched_after(frame, n, len, i);
        self.lemma_drawn_len(frame, n);
        if let Some(width) = element.spec_block_width(self.font) {
            lemma_block_in_slot(
                element.spec_alignment(),
                self.cursor(n),
                element.spec_width(self.font),
                width,
            );
        }
    }

    /// A display of the given elements.
    pub fn new(font: WrappedFont, foreground: Pixel, background: Pixel, elements: Vec<Element>) -> (state:
        Self)
        ensures
            state.font == font,
            state.foreground == foreground,
            state.background == background,
            state.elements == elements,
    {
        State { font, foreground, background, elements }
    }

    /// The width of the display in pixels.
    pub fn width(&self) -> (width: usize)
        requires
            self.wf(),
        ensures
            width == self.spec_width(),
    {
        let mut width: usize = 0;
        let mut n: usize = 0;
        while n < self.elements.len()
            invariant
                self.wf(),
                n <= self.elements.len(),
                width == self.cursor(n as int),
            decreases self.elements.len() - n,
        {
            proof {
                self.lemma_cursor_within(n + 1);
            }
            width = width + self.elements[n].width_with_font(&self.font);
            n += 1;
        }
        width
    }

    /// The width of the display in pixels, unless a slot or their sum is
    /// wider than a machine word holds.
    pub fn measure(&self) -> (width: Option<usize>)
        ensures
            match width {
                Some(w) => self.wf() && w == self.spec_width(),
                None => !self.wf(),
            },
    {
        let mut width: usize = 0;
        let mut n: usize = 0;
        while n < self.elements.len()
            invariant
                n <= self.elements.len(),
                width == self.cursor(n as int),
                forall|i: int|
                    0 <= i < n ==> (#[trigger] self.elements@[i]).slot_measurable(self.font),
            decreases self.elements.len() - n,
        {
            proof {
                self.lemma_cursor_within(n + 1);
            }
            let slot = match self.elements[n].checked_width(&self.font) {
                Some(slot) => slot,
                None => {
                    return None;
                },
            };
            width = match width.checked_add(slot) {
                Some(sum) => sum,
                None => {
                    return None;
                },
            };
            n += 1;
        }
        Some(width)
    }

    /// The size of the window in pixels: the width of all slots together and
    /// the height of the font, each as a 32-bit number.
    pub fn window_size(&self) -> (size: (u32, u32))
        requires
            self.wf(),
        ensures
            size.0 == self.spec_width() as u32,
            size.1 == self.font.spec_height() as u32,
    {
        let width = self.width();
        let height = self.font.height();
        (
            #[verifier::truncate]
            (width as u32),
            #[verifier::truncate]
            (height as u32),
        )
    }

    /// Whether what every element draws now is no wider than its slot.
    pub fn fits(&self) -> (fits: bool)
        requires
            self.wf(),
        ensures
            fits == self.can_draw(),
    {
        let mut n: usize = 0;
        while n < self.elements.len()
            invariant
                self.wf(),
                n <= self.elements.len(),
                forall|i: int| 0 <= i < n ==> (#[trigger] self.elements@[i]).fits_slot(self.font),
            decreases self.elements.len() - n,
        {
            if !self.elements[n].fits(&self.font) {
                return false;
            }
            n += 1;
        }
        true
    }

    /// Draws every element into its slot on a surface whose rows are as long
    /// as the display is wide. Padding and space only move on; every other
    /// element is drawn at the left or the right of its slot, as its
    /// alignment says, and the next slot begins where this one ends. Bytes
    /// that no block covers are kept.
    pub fn draw(&self, frame: &mut [u8])
        requires
            self.wf(),
            self.can_draw(),
            self.spec_width() * self.font.spec_height() * PIXEL_SIZE <= old(frame)@.len(),
        ensures
            final(frame)@ == self.drawn(old(frame)@, self.elements@.len() as int),
    {
        let surface_width = self.width();
        let ghost before = frame@;
        assert(frame.len() <= usize::MAX);
        let mut x: usize = 0;
        let mut n: usize = 0;
        while n < self.elements.len()
            invariant
                self.wf(),
                self.can_draw(),
                surface_width == self.spec_width(),
                surface_width * self.font.spec_height() * PIXEL_SIZE <= before.len(),
                before.len() <= usize::MAX,
                frame@.len() == before.len(),
                n <= self.elements.len(),
                x == self.cursor(n as int),
                frame@ == self.drawn(before, n as int),
            decreases self.elements.len() - n,
        {
            let element = &self.elements[n];
            let ghost height = self.font.spec_height();
            proof {
                self.lemma_cursor_within(n + 1);
                assert(element.fits_slot(self.font));
                if let Some(width) = element.spec_block_width(self.font) {
                    assert(width * height <= surface_width * height * 4) by (nonlinear_arith)
                        requires
                            width <= surface_width,
                            height >= 0,
                    ;
                }
            }
            let slot = element.width_with_font(&self.font);
            match element.render(&self.font, self.foreground, self.background) {
                Some(block) => {
                    let placed = place(element.alignment(), x, slot, block.width());
                    block.draw_onto_pixels(frame, surface_width, placed.0);
                    x = placed.1;
                },
                None => {
                    x = x + slot;
                },
            }
            n += 1;
        }
    }

    /// The display can be drawn on a surface of `len` bytes: its slots can
    /// be measured, every element fits its slot, and the surface holds all
    /// rows of the display.
    pub open spec fn drawable_on(&self, len: nat) -> bool {
        &&& self.wf()
        &&& self.can_draw()
        &&& self.spec_width() * self.font.spec_height() * PIXEL_SIZE <= len
    }

    /// Draws the display as [`State::draw`] does if it can be drawn on
    /// `frame`, and says whether it did. A frame that is not drawn on is not
    /// touched.
    pub fn try_draw(&self, frame: &mut [u8]) -> (drawn: bool)
        ensures
            drawn == self.drawable_on(old(frame)@.len()),
            drawn ==> final(frame)@ == self.drawn(old(frame)@, self.elements@.len() as int),
            !drawn ==> final(frame)@ == old(frame)@,
    {
        let width = match self.measure() {
            Some(width) => width,
            None => {
                return false;
            },
        };
        if !self.fits() {
            return false;
        }
        let height = self.font.height();
        assert(frame.len() <= usize::MAX);
        assert(width * height <= width * height * PIXEL_SIZE) by (nonlinear_arith)
            requires
                width * height >= 0,
        ;
        let area = match width.checked_mul(height) {
            Some(area) => area,
            None => {
                return false;
            },
        };
        let bytes = match area.checked_mul(PIXEL_SIZE) {
            Some(bytes) => bytes,
            None => {
                return false;
            },
        };
        if bytes > frame.len() {
            return false;
        }
        self.draw(frame);
        true
    }

    /// Takes the readings of one tick into the elements.
    pub fn update(&mut self, readings: &Readings)
        ensures
            final(self).font == old(self).font,
            final(self).foreground == old(self).foreground,
            final(self).background == old(self).background,
            final(self).elements@.len() == old(self).elements@.len(),
            forall|i: int|
                0 <= i < old(self).elements@.len() ==> refreshed(
                    old(self).elements@[i],
                    #[trigger] final(self).elements@[i],
                    *readings,
                ),
            old(self).in_range() && readings.in_range() ==> final(self).in_range(),
    {
        let ghost before = self.elements@;
        let sample = readings.load;
        let mut n: usize = 0;
        while n < self.elements.len()
            invariant
                self.font == old(self).font,
                self.foreground == old(self).foreground,
                self.background == old(self).background,
                before == old(self).elements@,
                sample == readings.load,
                self.elements@.len() == before.len(),
                n <= before.len(),
                forall|i: int| 0 <= i < n ==> refreshed(before[i], #[trigger] self.elements@[i], *readings),
                forall|i: int| n <= i < before.len() ==> #[trigger] self.elements@[i] == before[i],
            decreases self.elements.len() - n,
        {
            match &mut self.elements[n] {
                Element::Date(date) => {
                    *date = readings.date;
                },
                Element::Time(time) => {
                    *time = readings.time;
                },
                Element::Mem(share) => {
                    *share = readings.mem;
                },
                Element::Cpu(load) => {
                    *load = readings.cpu;
                },
                Element::Battery(charge) => {
                    if let Some(reading) = readings.battery {
                        *charge = Some(reading);
                    }
                },
                Element::CpuGraph(history) => {
                    history.push(sample);
                },
                Element::PlaybackState(state) => {
                    if let Some(reading) = readings.playback {
                        *state = reading;
                    }
                },
                Element::Label(_) | Element::Padding(_) | Element::Space => {},
            }
            n += 1;
        }
        proof {
            if old(self).in_range() && readings.in_range() {
                assert forall|i: int| 0 <= i < self.elements@.len() implies (
                #[trigger] self.elements@[i]).in_range() by {
                    lemma_refreshed_in_range(before[i], self.elements@[i], *readings);
                }
            }
        }
    }
}

} // verus!
