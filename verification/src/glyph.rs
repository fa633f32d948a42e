//! The glyph model shared by both font formats: a rectangle of on/off pixels
//! stored row by row.

use vstd::prelude::*;

verus! {

/// The mathematical content of a glyph: `bits` holds `height` rows of
/// `width` pixels each, row after row, `true` meaning foreground.
pub struct GlyphView {
    pub width: nat,
    pub height: nat,
    pub bits: Seq<bool>,
}

impl GlyphView {
    /// Whether the pixel in column `x` of row `y` is set.
    pub open spec fn pixel(self, x: int, y: int) -> bool {
        self.bits[y * self.width + x]
    }
}

/// In a rectangle stored row by row with rows of `w` cells, the cell in column
/// `x` of row `y` sits at index `y * w + x`, and column and row are recovered
/// from that index by remainder and quotient.
pub proof fn lemma_cell_index(x: int, y: int, w: int)
    requires
        0 <= x < w,
        0 <= y,
    ensures
        0 <= y * w + x,
        (y * w + x) / w == y,
        (y * w + x) % w == x,
{
    vstd::arithmetic::div_mod::lemma_fundamental_div_mod_converse(y * w + x, w, y, x);
    assert(y * w >= 0) by (nonlinear_arith)
        requires
            y >= 0,
            w > 0,
    ;
}

/// Every cell of an `h`-row rectangle lies below `w * h` in row-major order.
pub proof fn lemma_cell_in_bounds(x: int, y: int, w: int, h: int)
    requires
        0 <= x < w,
        0 <= y < h,
    ensures
        0 <= y * w + x < w * h,
        y * w + w <= w * h,
{
    assert(y * w + w <= w * h && y * w >= 0) by (nonlinear_arith)
        requires
            0 <= y < h,
            w > 0,
    ;
}

/// Every index below `w * h` names a cell of the rectangle.
pub proof fn lemma_index_cell(i: int, w: int, h: int)
    requires
        0 <= i < w * h,
        0 < w,
    ensures
        0 <= i % w < w,
        0 <= i / w < h,
        (i / w) * w + i % w == i,
{
    vstd::arithmetic::div_mod::lemma_fundamental_div_mod(i, w);
    let q = i / w;
    assert(w * q == q * w) by (nonlinear_arith);
    assert(0 <= q < h) by (nonlinear_arith)
        requires
            0 <= i < w * h,
            0 < w,
            i == q * w + i % w,
            0 <= i % w < w,
    ;
}

/// One decoded glyph, owning its pixels.
#[derive(Debug)]
pub struct GenericGlyph {
    buf: Vec<bool>,
    width: usize,
    height: usize,
}

impl View for GenericGlyph {
    type V = GlyphView;

    closed spec fn view(&self) -> GlyphView {
        GlyphView { width: self.width as nat, height: self.height as nat, bits: self.buf@ }
    }
}

impl Clone for GenericGlyph {
    /// A glyph with the same size and pixels.
    fn clone(&self) -> (copy: Self)
        ensures
            copy@ == self@,
            copy.wf(),
    {
        proof {
            use_type_invariant(self);
        }
        let buf = self.buf.clone();
        assert(buf@ =~= self.buf@);
        GenericGlyph { buf, width: self.width, height: self.height }
    }
}

impl GenericGlyph {
    /// The glyph holds exactly `height` rows of `width` pixels, and their
    /// number fits a machine word. This holds of every glyph.
    #[verifier::type_invariant]
    pub open spec fn wf(&self) -> bool {
        &&& self@.bits.len() == self@.width * self@.height
        &&& self@.width * self@.height <= usize::MAX
    }

    /// A glyph of the given size over `buf`, which holds its pixels row by row.
    pub fn from_bits(buf: Vec<bool>, width: usize, height: usize) -> (glyph: Self)
        requires
            buf@.len() == width * height,
        ensures
            glyph.wf(),
            glyph@ == (GlyphView { width: width as nat, height: height as nat, bits: buf@ }),
    {
        assert(buf.len() <= usize::MAX);
        GenericGlyph { buf, width, height }
    }

    /// The number of pixel columns.
    pub fn width(&self) -> (width: usize)
        ensures
            width == self@.width,
    {
        self.width
    }

    /// The number of pixel rows.
    pub fn height(&self) -> (height: usize)
        ensures
            height == self@.height,
    {
        self.height
    }

    /// Whether the pixel in column `x` of row `y` is set.
    pub fn pixel(&self, x: usize, y: usize) -> (on: bool)
        requires
            x < self@.width,
            y < self@.height,
        ensures
            on == self@.pixel(x as int, y as int),
    {
        proof {
            use_type_invariant(self);
            lemma_cell_in_bounds(x as int, y as int, self.width as int, self.height as int);
        }
        self.buf[y * self.width + x]
    }

    /// The rows of the glyph, top to bottom, each exactly `width` pixels long.
    pub fn rows(&self) -> (rows: Vec<Vec<bool>>)
        ensures
            rows@.len() == self@.height,
            forall|y: int| 0 <= y < self@.height ==> (#[trigger] rows@[y])@.len() == self@.width,
            forall|x: int, y: int|
                0 <= y < self@.height && 0 <= x < self@.width ==> #[trigger] rows@[y]@[x]
                    == self@.pixel(x, y),
    {
        proof {
            use_type_invariant(self);
        }
        let mut rows: Vec<Vec<bool>> = Vec::new();
        let mut y: usize = 0;
        while y < self.height
            invariant
                self.wf(),
                y <= self.height,
                rows@.len() == y,
                forall|r: int| 0 <= r < y ==> (#[trigger] rows@[r])@.len() == self@.width,
                forall|x: int, r: int|
                    0 <= r < y && 0 <= x < self@.width ==> #[trigger] rows@[r]@[x]
                        == self@.pixel(x, r),
            decreases self.height - y,
        {
            let mut row: Vec<bool> = Vec::new();
            let mut x: usize = 0;
            while x < self.width
                invariant
                    self.wf(),
                    y < self.height,
                    x <= self.width,
                    row@.len() == x,
                    forall|c: int| 0 <= c < x ==> #[trigger] row@[c] == self@.pixel(c, y as int),
                decreases self.width - x,
            {
                proof {
                    lemma_cell_in_bounds(x as int, y as int, self.width as int, self.height as int);
                }
                row.push(self.buf[y * self.width + x]);
                x += 1;
            }
            rows.push(row);
            y += 1;
        }
        rows
    }
}

} // verus!
