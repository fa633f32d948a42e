//! The PSF2 format: a 32-byte header, a table of equally sized glyph bitmaps,
//! and an optional table that maps Unicode characters to glyph indices.
//!
//! The file is held by a `psf2::Font`, which reads the Unicode table and
//! finds the bitmap of a character. The two functions that call into `psf2`
//! say in their contracts what that crate's source shows; those contracts
//! are taken on trust. The header is read and checked here, and the bitmaps
//! are unpacked here.

use crate::error::DecodeError;
use crate::glyph::{lemma_cell_index, GenericGlyph, GlyphView};
use vstd::prelude::*;

verus! {

/// The length of the header in bytes.
pub const HEADER_BYTES: usize = 32;

/// Makes `psf2::Font` known as a type whose inside is not looked into.
#[verifier::external_type_specification]
#[verifier::external_body]
#[verifier::reject_recursive_types(Data)]
pub struct ExScreenFont<Data>(psf2::Font<Data>);

/// Makes `psf2::ParseError` known, with its two variants.
#[verifier::external_type_specification]
pub struct ExParseError(psf2::ParseError);

/// The bytes that a parsed `psf2::Font` holds: the whole font file.
pub uninterp spec fn psf2_data(font: psf2::Font<Vec<u8>>) -> Seq<u8>;

/// The raw bitmap that `psf2::Font::get_unicode` finds for a character in
/// the font file `data`, if it finds one. For characters outside ASCII the
/// answer comes from the file's Unicode table.
pub uninterp spec fn psf2_glyph_data(data: Seq<u8>, ch: char) -> Option<Seq<u8>>;

/// The little-endian 32-bit number stored at `at`.
pub open spec fn le_u32(data: Seq<u8>, at: int) -> nat {
    (data[at] as nat) + 0x100 * (data[at + 1] as nat) + 0x1_0000 * (data[at + 2] as nat) + 0x100_0000
        * (data[at + 3] as nat)
}

/// The data begins with the four magic bytes of the format.
pub open spec fn has_magic(data: Seq<u8>) -> bool {
    data[0] == 0x72 && data[1] == 0xb5 && data[2] == 0x4a && data[3] == 0x86
}

/// The offset of the glyph table, as the header declares it.
pub open spec fn header_size(data: Seq<u8>) -> nat {
    le_u32(data, 8)
}

/// The number of glyphs that the header declares.
pub open spec fn glyph_count(data: Seq<u8>) -> nat {
    le_u32(data, 16)
}

/// The number of bytes of one glyph bitmap, as the header declares it.
pub open spec fn glyph_bytes(data: Seq<u8>) -> nat {
    le_u32(data, 20)
}

/// The height of every glyph in pixel rows.
pub open spec fn glyph_height(data: Seq<u8>) -> nat {
    le_u32(data, 24)
}

/// The width of every glyph in pixel columns.
pub open spec fn glyph_width(data: Seq<u8>) -> nat {
    le_u32(data, 28)
}

/// The number of bytes of one bitmap row: the width in bits, padded to whole
/// bytes.
pub open spec fn row_bytes(data: Seq<u8>) -> nat {
    (glyph_width(data) + 7) / 8
}

/// The offset at which the glyph table ends and the Unicode table begins.
pub open spec fn glyph_table_end(data: Seq<u8>) -> nat {
    header_size(data) + glyph_bytes(data) * glyph_count(data)
}

/// The header is complete and carries the magic number.
pub open spec fn has_header(data: Seq<u8>) -> bool {
    data.len() >= HEADER_BYTES && has_magic(data)
}

/// The declared glyph table, `glyph_count` bitmaps of `glyph_bytes` bytes
/// from `header_size` on, lies within 32-bit offsets and within the data.
pub open spec fn table_fits(data: Seq<u8>) -> bool {
    &&& glyph_bytes(data) * glyph_count(data) <= u32::MAX
    &&& glyph_table_end(data) <= u32::MAX
    &&& glyph_table_end(data) <= data.len()
}

/// One more than the largest glyph index that a lookup can ask for: an ASCII
/// code, or an index that the Unicode table names, which has one byte at
/// least for each index.
pub open spec fn index_limit(data: Seq<u8>) -> nat {
    let table = (data.len() - glyph_table_end(data)) as nat;
    if table < 128 {
        128
    } else {
        table + 1
    }
}

/// The offset of every glyph that a lookup can ask for fits 32 bits.
pub open spec fn lookup_in_range(data: Seq<u8>) -> bool {
    header_size(data) + index_limit(data) * glyph_bytes(data) <= u32::MAX
}

/// The glyph geometry can be used: the cell has area, a bitmap is exactly
/// `glyph_height` padded rows, a glyph has at most `u32::MAX` pixels, and
/// every lookup stays within 32-bit offsets.
pub open spec fn geometry_ok(data: Seq<u8>) -> bool {
    &&& glyph_width(data) > 0
    &&& glyph_height(data) > 0
    &&& glyph_bytes(data) == glyph_height(data) * row_bytes(data)
    &&& glyph_width(data) * glyph_height(data) <= u32::MAX
    &&& data.len() - glyph_table_end(data) <= u32::MAX
    &&& lookup_in_range(data)
}

/// The data is a font that this library decodes.
pub open spec fn usable(data: Seq<u8>) -> bool {
    parser_accepts(data) && geometry_ok(data)
}

/// The error with which `data` is refused, if it is refused.
pub open spec fn decode_error(data: Seq<u8>) -> Option<DecodeError> {
    if data.len() < HEADER_BYTES {
        Some(DecodeError::UnexpectedEnd)
    } else if !has_magic(data) {
        Some(DecodeError::BadMagic)
    } else if !table_fits(data) {
        Some(DecodeError::UnexpectedEnd)
    } else if !geometry_ok(data) {
        Some(DecodeError::BadGeometry)
    } else {
        None
    }
}

/// Whether the pixel in column `x` of row `y` of a bitmap is set: rows of
/// `stride` bytes, in each byte the most significant bit leftmost.
pub open spec fn bitmap_pixel(bitmap: Seq<u8>, stride: int, x: int, y: int) -> bool {
    bitmap[y * stride + x / 8] & (0x80u8 >> ((x % 8) as u8)) != 0
}

/// The glyph with the given bitmap in a font of the given geometry.
pub open spec fn bitmap_glyph(bitmap: Seq<u8>, width: nat, height: nat) -> GlyphView {
    let stride = (width as int + 7) / 8;
    GlyphView {
        width,
        height,
        bits: Seq::new(
            width * height,
            |i: int| bitmap_pixel(bitmap, stride, i % (width as int), i / (width as int)),
        ),
    }
}

/// The bitmap that a lookup by glyph index gives: the index's slice of the
/// data, if the data reaches that far.
pub open spec fn bitmap_at(data: Seq<u8>, index: int) -> Option<Seq<u8>> {
    let start = header_size(data) + index * glyph_bytes(data);
    if start + glyph_bytes(data) <= data.len() {
        Some(data.subrange(start, start + glyph_bytes(data)))
    } else {
        None
    }
}

/// The data is a well-formed font to the parser: a whole header with the
/// magic number, and a glyph table within the data.
pub open spec fn parser_accepts(data: Seq<u8>) -> bool {
    has_header(data) && table_fits(data)
}

/// The answer of the parser to data that it refuses.
pub open spec fn refusal(data: Seq<u8>) -> psf2::ParseError {
    if data.len() >= HEADER_BYTES && !has_magic(data) {
        psf2::ParseError::BadMagic
    } else {
        psf2::ParseError::UnexpectedEnd
    }
}

/// Calls `psf2::Font::new`. It accepts data that holds a whole header with
/// the magic number and a glyph table that fits 32-bit offsets and the data;
/// it answers `BadMagic` for a whole header with other magic bytes and
/// `UnexpectedEnd` otherwise. The font keeps the data unchanged. The call
/// counts the entries of the Unicode table in 32 bits, so the table must have
/// no more bytes than that.
#[verifier::external_body]
fn psf2_parse(data: Vec<u8>) -> (parsed: Result<psf2::Font<Vec<u8>>, psf2::ParseError>)
    requires
        parser_accepts(data@) ==> data@.len() - glyph_table_end(data@) <= u32::MAX,
    ensures
        parsed is Ok <==> parser_accepts(data@),
        parsed matches Ok(font) ==> psf2_data(font) == data@,
        parsed matches Err(e) ==> e == refusal(data@),
{
    psf2::Font::new(data)
}

/// The bitmap is the slice of the data that belongs to some glyph index
/// which a lookup can ask for.
pub open spec fn is_bitmap_of(data: Seq<u8>, bitmap: Seq<u8>) -> bool {
    exists|index: int|
        0 <= index < index_limit(data) && #[trigger] bitmap_at(data, index) == Some(bitmap)
}

/// Calls `psf2::Font::get_unicode` and copies out the bitmap of the glyph
/// found. Every bitmap has the declared glyph size and is the slice of the
/// data at some glyph index. For an ASCII character the glyph index is the
/// character's code; the Unicode table is not asked. The offsets are
/// computed in 32 bits, which the precondition keeps in range.
#[verifier::external_body]
fn psf2_lookup(font: &psf2::Font<Vec<u8>>, ch: char) -> (bitmap: Option<Vec<u8>>)
    requires
        lookup_in_range(psf2_data(*font)),
    ensures
        match bitmap {
            Some(b) => psf2_glyph_data(psf2_data(*font), ch) == Some(b@),
            None => psf2_glyph_data(psf2_data(*font), ch) is None,
        },
        bitmap matches Some(b) ==> b@.len() == glyph_bytes(psf2_data(*font)),
        bitmap matches Some(b) ==> is_bitmap_of(psf2_data(*font), b@),
        (ch as u32) < 128 ==> match bitmap {
            Some(b) => bitmap_at(psf2_data(*font), ch as int) == Some(b@),
            None => bitmap_at(psf2_data(*font), ch as int) is None,
        },
{
    font.get_unicode(ch).map(|glyph| glyph.data().to_vec())
}

/// The little-endian 32-bit number stored at `at`.
fn read_le_u32(data: &Vec<u8>, at: usize) -> (value: u32)
    requires
        at + 4 <= data.len(),
    ensures
        value == le_u32(data@, at as int),
{
    let b0 = data[at] as u32;
    let b1 = data[at + 1] as u32;
    let b2 = data[at + 2] as u32;
    let b3 = data[at + 3] as u32;
    b0 + 0x100 * b1 + 0x1_0000 * b2 + 0x100_0000 * b3
}

/// Whether the pixel in column `x` of row `y` of the bitmap is set.
fn bitmap_pixel_at(bitmap: &Vec<u8>, stride: usize, height: usize, x: usize, y: usize) -> (on: bool)
    requires
        bitmap.len() == height * stride,
        y < height,
        x / 8 < stride,
    ensures
        on == bitmap_pixel(bitmap@, stride as int, x as int, y as int),
{
    proof {
        crate::glyph::lemma_cell_in_bounds(
            (x / 8) as int,
            y as int,
            stride as int,
            height as int,
        );
        assert(stride * height == height * stride) by (nonlinear_arith);
    }
    bitmap[y * stride + x / 8] & (0x80u8 >> ((x % 8) as u8)) != 0
}

/// The glyph of the given geometry whose pixels are those of `bitmap`: rows
/// of `(width + 7) / 8` bytes, in each byte the most significant bit
/// leftmost, and the bits beyond `width` in a row left out.
pub fn unpack_bitmap(bitmap: &Vec<u8>, width: usize, height: usize) -> (glyph: GenericGlyph)
    requires
        0 < width,
        bitmap.len() == height * ((width + 7) / 8),
        width * height <= usize::MAX,
    ensures
        glyph.wf(),
        glyph@ == bitmap_glyph(bitmap@, width as nat, height as nat),
{
    let stride = (width - 1) / 8 + 1;
    let mut buf: Vec<bool> = Vec::new();
    let mut y: usize = 0;
    while y < height
        invariant
            0 < width,
            stride == (width + 7) / 8,
            bitmap.len() == height * stride,
            width * height <= usize::MAX,
            y <= height,
            buf@.len() == y * width,
            forall|i: int|
                0 <= i < buf@.len() ==> #[trigger] buf@[i] == bitmap_pixel(
                    bitmap@,
                    stride as int,
                    i % (width as int),
                    i / (width as int),
                ),
        decreases height - y,
    {
        let mut x: usize = 0;
        while x < width
            invariant
                0 < width,
                stride == (width + 7) / 8,
                bitmap.len() == height * stride,
                width * height <= usize::MAX,
                y < height,
                x <= width,
                buf@.len() == y * width + x,
                forall|i: int|
                    0 <= i < buf@.len() ==> #[trigger] buf@[i] == bitmap_pixel(
                        bitmap@,
                        stride as int,
                        i % (width as int),
                        i / (width as int),
                    ),
            decreases width - x,
        {
            let on = bitmap_pixel_at(bitmap, stride, height, x, y);
            proof {
                lemma_cell_index(x as int, y as int, width as int);
            }
            buf.push(on);
            x += 1;
        }
        assert((y + 1) * width == y * width + width) by (nonlinear_arith);
        y += 1;
    }
    assert(y * width == width as nat * height as nat) by (nonlinear_arith)
        requires
            y == height,
    ;
    assert(buf@ =~= bitmap_glyph(bitmap@, width as nat, height as nat).bits);
    GenericGlyph::from_bits(buf, width, height)
}

/// A decoded PSF2 font.
pub struct Psf2Font {
    font: psf2::Font<Vec<u8>>,
    width: usize,
    height: usize,
}

impl Psf2Font {
    /// The bytes of the font file that this font was decoded from.
    pub closed spec fn data(&self) -> Seq<u8> {
        psf2_data(self.font)
    }

    /// The font holds a usable font file and knows its glyph geometry. This
    /// holds of every font.
    #[verifier::type_invariant]
    pub closed spec fn wf(&self) -> bool {
        &&& usable(self.data())
        &&& self.width == glyph_width(self.data())
        &&& self.height == glyph_height(self.data())
    }

    /// The width of every glyph in pixel columns.
    pub open spec fn spec_width(&self) -> nat {
        glyph_width(self.data())
    }

    /// The height of every glyph in pixel rows.
    pub open spec fn spec_height(&self) -> nat {
        glyph_height(self.data())
    }

    /// The glyph of `ch`, if the font has one: the bitmap that the lookup
    /// finds, read as `height` rows of `width` pixels.
    pub open spec fn spec_glyph(&self, ch: char) -> Option<GlyphView> {
        match psf2_glyph_data(self.data(), ch) {
            Some(bitmap) => Some(bitmap_glyph(bitmap, self.spec_width(), self.spec_height())),
            None => None,
        }
    }

    /// The glyph that an ASCII character has by its code alone.
    pub open spec fn spec_ascii_glyph(&self, ch: char) -> Option<GlyphView> {
        match bitmap_at(self.data(), ch as int) {
            Some(bitmap) => Some(bitmap_glyph(bitmap, self.spec_width(), self.spec_height())),
            None => None,
        }
    }

    /// A well-formed font holds a usable font file.
    pub proof fn lemma_wf_usable(&self)
        requires
            self.wf(),
        ensures
            usable(self.data()),
    {
    }

    /// Decodes a font file. The data is accepted exactly if it is usable;
    /// the decoded font holds it unchanged.
    pub fn new(data: Vec<u8>) -> (decoded: Result<Psf2Font, DecodeError>)
        ensures
            decoded is Ok <==> usable(data@),
            decoded matches Ok(font) ==> font.wf() && font.data() == data@,
            decoded matches Err(e) ==> decode_error(data@) == Some(e),
    {
        if data.len() < HEADER_BYTES {
            return Err(DecodeError::UnexpectedEnd);
        }
        if data[0] != 0x72 || data[1] != 0xb5 || data[2] != 0x4a || data[3] != 0x86 {
            return Err(DecodeError::BadMagic);
        }
        let start = read_le_u32(&data, 8) as u64;
        let count = read_le_u32(&data, 16) as u64;
        let size = read_le_u32(&data, 20) as u64;
        let height = read_le_u32(&data, 24) as u64;
        let width = read_le_u32(&data, 28) as u64;
        let limit: u64 = 0xffff_ffff;
        assert(size * count <= 0xffff_ffff * 0xffff_ffff) by (nonlinear_arith)
            requires
                size <= 0xffff_ffff,
                count <= 0xffff_ffff,
        ;
        let table = size * count;
        if table > limit || start + table > limit || start + table > data.len() as u64 {
            return Err(DecodeError::UnexpectedEnd);
        }
        let end = start + table;
        let stride = (width + 7) / 8;
        assert(height * stride <= 0xffff_ffff * 0x2000_0000) by (nonlinear_arith)
            requires
                height <= 0xffff_ffff,
                stride <= 0x2000_0000,
        ;
        assert(width * height <= 0xffff_ffff * 0xffff_ffff) by (nonlinear_arith)
            requires
                height <= 0xffff_ffff,
                width <= 0xffff_ffff,
        ;
        if width == 0 || height == 0 || size != height * stride || width * height > limit {
            return Err(DecodeError::BadGeometry);
        }
        let tail = data.len() as u64 - end;
        if tail > limit {
            return Err(DecodeError::BadGeometry);
        }
        let reach = if tail < 128 {
            128
        } else {
            tail + 1
        };
        assert(reach * size <= 0x1_0000_0000 * 0xffff_ffff) by (nonlinear_arith)
            requires
                reach <= 0x1_0000_0000,
                size <= 0xffff_ffff,
        ;
        if start + reach * size > limit {
            return Err(DecodeError::BadGeometry);
        }
        match psf2_parse(data) {
            Ok(font) => Ok(Psf2Font { font, width: width as usize, height: height as usize }),
            Err(e) => Err(
                match e {
                    psf2::ParseError::BadMagic => DecodeError::BadMagic,
                    psf2::ParseError::UnexpectedEnd => DecodeError::UnexpectedEnd,
                },
            ),
        }
    }

    /// The height of every glyph in pixel rows.
    pub fn height(&self) -> (height: usize)
        ensures
            height == self.spec_height(),
            height > 0,
    {
        proof {
            use_type_invariant(self);
        }
        self.height
    }

    /// The width of every glyph in pixel columns.
    pub fn width(&self) -> (width: usize)
        ensures
            width == self.spec_width(),
            width > 0,
    {
        proof {
            use_type_invariant(self);
        }
        self.width
    }

    /// The width of the glyph of `ch`, or zero if the font has no glyph for
    /// it.
    pub fn advance(&self, ch: char) -> (width: usize)
        ensures
            width == match self.spec_glyph(ch) {
                Some(glyph) => glyph.width,
                None => 0,
            },
    {
        proof {
            use_type_invariant(self);
        }
        match psf2_lookup(&self.font, ch) {
            Some(_) => self.width,
            None => 0,
        }
    }

    /// The glyph of `ch`, if the font has one. For an ASCII character the
    /// glyph is the one that its code names.
    pub fn glyph(&self, ch: char) -> (glyph: Option<GenericGlyph>)
        ensures
            match glyph {
                Some(g) => g.wf() && self.spec_glyph(ch) == Some(g@),
                None => self.spec_glyph(ch) is None,
            },
            (ch as u32) < 128 ==> self.spec_glyph(ch) == self.spec_ascii_glyph(ch),
            psf2_glyph_data(self.data(), ch) matches Some(bitmap) ==> bitmap.len() == glyph_bytes(
                self.data(),
            ) && is_bitmap_of(self.data(), bitmap),
    {
        proof {
            use_type_invariant(self);
        }
        match psf2_lookup(&self.font, ch) {
            Some(bitmap) => Some(unpack_bitmap(&bitmap, self.width, self.height)),
            None => None,
        }
    }
}

} // verus!
