//! The tile font format: 256 glyph widths followed by 256 glyph cells, each
//! cell a 2x2 grid of 8x8 one-bit tiles.
//!
//! The file is held by a `fleck::Font`. The three functions that call into
//! `fleck` say in their contracts what that crate's source shows; those
//! contracts are taken on trust. Everything else here is proved from them.

use crate::error::DecodeError;
use crate::glyph::{lemma_cell_index, GenericGlyph, GlyphView};
use vstd::prelude::*;

verus! {

/// The exact length of a tile font: the width table and the glyph cells.
pub const FILE_SIZE: usize = 0x2100;

/// The number of entries in the width table, one per glyph cell.
pub const GLYPH_COUNT: usize = 256;

/// The side of a glyph cell in pixels. Every glyph is this many rows high:
/// both tile rows of the cell are drawn, as fonts with descenders need.
pub const CELL_SIDE: usize = 16;

/// The number of bytes that store one glyph cell: four tiles.
pub const CELL_BYTES: usize = 32;

/// Makes `fleck::Font` known as a type whose inside is not looked into.
#[verifier::external_type_specification]
#[verifier::external_body]
pub struct ExTileData(fleck::Font);

/// The bytes that a decoded `fleck::Font` holds: its width table followed by
/// its glyph cells, in file order.
pub uninterp spec fn tile_font_bytes(font: fleck::Font) -> Seq<u8>;

/// Whether bit `(x, y)` of a glyph cell is set, for `x` and `y` below 16.
/// `cell` holds the 32 bytes of the cell: tile `(x / 8) * 2 + y / 8`, within
/// it the byte of row `y % 8`, within that bit `7 - x % 8`, so that the most
/// significant bit is the leftmost pixel.
pub open spec fn cell_bit(cell: Seq<u8>, x: int, y: int) -> bool {
    let tile = (x / 8) * 2 + y / 8;
    let row = cell[tile * 8 + y % 8];
    row & (0x80u8 >> ((x % 8) as u8)) != 0
}

/// Whether the pixel in column `x` of row `y` of a glyph is set. Columns
/// beyond the cell, which a declared width above 16 asks for, are blank.
pub open spec fn cell_pixel(cell: Seq<u8>, x: int, y: int) -> bool {
    0 <= x < CELL_SIDE && 0 <= y < CELL_SIDE && cell_bit(cell, x, y)
}

/// The 32 bytes of the glyph cell with the given code in a font file.
pub open spec fn cell_of(bytes: Seq<u8>, code: int) -> Seq<u8> {
    bytes.subrange(GLYPH_COUNT + code * CELL_BYTES, GLYPH_COUNT + code * CELL_BYTES + CELL_BYTES)
}

/// The glyph that a font file gives a character: none outside ASCII;
/// otherwise the declared width, sixteen rows, and the cell's pixels cut to
/// that width.
pub open spec fn tile_glyph(bytes: Seq<u8>, ch: char) -> Option<GlyphView> {
    if (ch as u32) < 128 {
        let width = bytes[ch as int] as nat;
        let cell = cell_of(bytes, ch as int);
        Some(
            GlyphView {
                width,
                height: CELL_SIDE as nat,
                bits: Seq::new(
                    width * CELL_SIDE as nat,
                    |i: int| cell_pixel(cell, i % (width as int), i / (width as int)),
                ),
            },
        )
    } else {
        None
    }
}

/// The pixel in column `x` of row `y` of a decoded glyph is the bit that the
/// tile addressing gives for `(x, y)`, for every column that the declared
/// width keeps and every row of the cell.
pub proof fn lemma_glyph_pixel(bytes: Seq<u8>, ch: char, x: int, y: int)
    requires
        (ch as u32) < 128,
        0 <= x < bytes[ch as int],
        0 <= y < CELL_SIDE,
    ensures
        tile_glyph(bytes, ch) matches Some(glyph) && glyph.pixel(x, y) == cell_pixel(
            cell_of(bytes, ch as int),
            x,
            y,
        ),
{
    let width = bytes[ch as int] as int;
    crate::glyph::lemma_cell_index(x, y, width);
    crate::glyph::lemma_cell_in_bounds(x, y, width, CELL_SIDE as int);
}

/// An ASCII character whose declared width is zero has a glyph, and the
/// glyph has no columns: sixteen rows without a pixel.
pub proof fn lemma_zero_width_glyph(bytes: Seq<u8>, ch: char)
    requires
        (ch as u32) < 128,
        bytes[ch as int] == 0,
    ensures
        tile_glyph(bytes, ch) matches Some(glyph) && glyph.width == 0 && glyph.height == CELL_SIDE
            && glyph.bits.len() == 0,
{
}

/// Calls `fleck::Font::new`, which splits the buffer into the width table and
/// the glyph cells and keeps both unchanged.
#[verifier::external_body]
fn fleck_new(bytes: &[u8]) -> (font: Box<fleck::Font>)
    requires
        bytes@.len() == FILE_SIZE,
    ensures
        tile_font_bytes(*font) == bytes@,
{
    let exact: &[u8; fleck::FILE_SIZE] = bytes.try_into().unwrap();
    Box::new(fleck::Font::new(exact))
}

/// Calls `fleck::Font::glyph` and copies out the glyph's declared width and
/// the bytes of its cell. The font has a glyph for every code below 256 and
/// for no other; the width is the code's entry in the width table and the
/// cell is the code's 32-byte slice of the glyph region.
#[verifier::external_body]
fn fleck_glyph(font: &fleck::Font, ch: char) -> (glyph: Option<(u8, Vec<u8>)>)
    ensures
        glyph is Some <==> (ch as u32) < GLYPH_COUNT,
        glyph matches Some((width, cell)) ==> {
            &&& width == tile_font_bytes(*font)[ch as int]
            &&& cell@ == cell_of(tile_font_bytes(*font), ch as int)
        },
{
    font.glyph(ch).map(|g| (g.width, g.data().to_vec()))
}

/// Calls `fleck::Font::height`, which is the side of the glyph cell for every
/// font.
#[verifier::external_body]
fn fleck_height(font: &fleck::Font) -> (height: usize)
    ensures
        height == CELL_SIDE,
{
    font.height()
}

/// A decoded tile font.
pub struct TileFont {
    font: Box<fleck::Font>,
}

impl TileFont {
    /// The bytes of the font file that this font was decoded from.
    pub closed spec fn bytes(&self) -> Seq<u8> {
        tile_font_bytes(*self.font)
    }

    /// The font holds a whole font file. This holds of every font.
    #[verifier::type_invariant]
    pub open spec fn wf(&self) -> bool {
        self.bytes().len() == FILE_SIZE
    }

    /// The glyph of `ch`, if the font has one.
    pub open spec fn spec_glyph(&self, ch: char) -> Option<GlyphView> {
        tile_glyph(self.bytes(), ch)
    }

    /// Decodes a font file. The buffer must have exactly the length of the
    /// format; the decoded font holds it unchanged.
    pub fn new(bytes: &[u8]) -> (decoded: Result<TileFont, DecodeError>)
        ensures
            decoded is Ok <==> bytes@.len() == FILE_SIZE,
            decoded matches Ok(font) ==> font.wf() && font.bytes() == bytes@,
            decoded matches Err(e) ==> e == DecodeError::WrongSize,
    {
        if bytes.len() != FILE_SIZE {
            return Err(DecodeError::WrongSize);
        }
        Ok(TileFont { font: fleck_new(bytes) })
    }

    /// The height of every glyph, in pixel rows: the whole cell is drawn.
    pub fn height(&self) -> (height: usize)
        ensures
            height == CELL_SIDE,
    {
        fleck_height(&self.font)
    }

    /// The declared width of `ch`, or zero if the font has no glyph for it.
    pub fn advance(&self, ch: char) -> (width: usize)
        ensures
            width == match self.spec_glyph(ch) {
                Some(glyph) => glyph.width,
                None => 0,
            },
    {
        if (ch as u32) < 128 {
            match fleck_glyph(&self.font, ch) {
                Some((width, _)) => width as usize,
                None => 0,
            }
        } else {
            0
        }
    }

    /// The glyph of `ch`: none outside ASCII, else the declared width and the
    /// pixels of the cell, cut to that width.
    pub fn glyph(&self, ch: char) -> (glyph: Option<GenericGlyph>)
        ensures
            match glyph {
                Some(g) => g.wf() && self.spec_glyph(ch) == Some(g@),
                None => self.spec_glyph(ch) is None,
            },
    {
        proof {
            use_type_invariant(self);
        }
        if (ch as u32) >= 128 {
            return None;
        }
        match fleck_glyph(&self.font, ch) {
            Some((declared, cell)) => {
                let width = declared as usize;
                Some(unpack_cell(&cell, width))
            },
            None => None,
        }
    }
}

/// Whether bit `(x, y)` of the glyph cell is set.
fn cell_bit_at(cell: &Vec<u8>, x: usize, y: usize) -> (on: bool)
    requires
        cell@.len() == CELL_BYTES,
        x < CELL_SIDE,
        y < CELL_SIDE,
    ensures
        on == cell_bit(cell@, x as int, y as int),
{
    let tile = (x / 8) * 2 + y / 8;
    let row = cell[tile * 8 + y % 8];
    row & (0x80u8 >> ((x % 8) as u8)) != 0
}

/// The glyph of the given width whose pixels are those of `cell`, the 32
/// bytes of a glyph cell: sixteen rows, each cut to `width` columns.
pub fn unpack_cell(cell: &Vec<u8>, width: usize) -> (glyph: GenericGlyph)
    requires
        cell@.len() == CELL_BYTES,
        width <= u8::MAX,
    ensures
        glyph.wf(),
        glyph@ == (GlyphView {
            width: width as nat,
            height: CELL_SIDE as nat,
            bits: Seq::new(
                width as nat * CELL_SIDE as nat,
                |i: int| cell_pixel(cell@, i % (width as int), i / (width as int)),
            ),
        }),
{
    let mut buf: Vec<bool> = Vec::new();
    let mut y: usize = 0;
    while y < CELL_SIDE
        invariant
            cell@.len() == CELL_BYTES,
            width <= u8::MAX,
            y <= CELL_SIDE,
            buf@.len() == y * width,
            forall|i: int|
                0 <= i < buf@.len() ==> #[trigger] buf@[i] == cell_pixel(
                    cell@,
                    i % (width as int),
                    i / (width as int),
                ),
        decreases CELL_SIDE - y,
    {
        let mut x: usize = 0;
        while x < width
            invariant
                cell@.len() == CELL_BYTES,
                width <= u8::MAX,
                y < CELL_SIDE,
                x <= width,
                buf@.len() == y * width + x,
                forall|i: int|
                    0 <= i < buf@.len() ==> #[trigger] buf@[i] == cell_pixel(
                        cell@,
                        i % (width as int),
                        i / (width as int),
                    ),
            decreases width - x,
        {
            let on = x < CELL_SIDE && cell_bit_at(cell, x, y);
            proof {
                lemma_cell_index(x as int, y as int, width as int);
            }
            buf.push(on);
            x += 1;
        }
        assert((y + 1) * width == y * width + width) by (nonlinear_arith);
        y += 1;
    }
    assert(y * width == width as nat * CELL_SIDE as nat) by (nonlinear_arith)
        requires
            y == CELL_SIDE,
    ;
    assert(buf@ =~= Seq::new(
        width as nat * CELL_SIDE as nat,
        |i: int| cell_pixel(cell@, i % (width as int), i / (width as int)),
    ));
    GenericGlyph::from_bits(buf, width, CELL_SIDE)
}

} // verus!
