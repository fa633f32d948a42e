//! Rectangular blocks of pixels, and how they are copied onto the surface.

use crate::glyph::{lemma_cell_in_bounds, lemma_cell_index};
use vstd::prelude::*;

verus! {

/// One pixel: four bytes, red, green, blue and alpha.
pub type Pixel = [u8; 4];

/// The number of bytes of one pixel.
pub const PIXEL_SIZE: usize = 4;

/// The mathematical content of a block: `pixels` holds `height` rows of
/// `width` pixels each, row after row.
pub struct BlockView {
    pub width: nat,
    pub height: nat,
    pub pixels: Seq<Pixel>,
}

impl BlockView {
    /// The pixel in column `x` of row `y`.
    pub open spec fn pixel(self, x: int, y: int) -> Pixel {
        self.pixels[y * self.width + x]
    }
}

/// The colour of a pixel that is set or not.
pub open spec fn ink(on: bool, foreground: Pixel, background: Pixel) -> Pixel {
    if on {
        foreground
    } else {
        background
    }
}

/// Byte `i` of a surface with rows of `surface_width` pixels after `block`
/// has been copied onto it with its left edge in column `start_x` and its
/// top edge in row 0: the block's byte inside the rectangle that the block
/// covers, the byte of `frame` elsewhere.
pub open spec fn blit_byte(
    frame: Seq<u8>,
    block: BlockView,
    surface_width: int,
    start_x: int,
    i: int,
) -> u8 {
    let x = (i / 4) % surface_width;
    let y = (i / 4) / surface_width;
    if start_x <= x < start_x + block.width && y < block.height {
        block.pixel(x - start_x, y)[i % 4]
    } else {
        frame[i]
    }
}

/// The surface after `block` has been copied onto it at column `start_x`.
pub open spec fn blit(frame: Seq<u8>, block: BlockView, surface_width: nat, start_x: nat) -> Seq<
    u8,
> {
    Seq::new(frame.len(), |i: int| blit_byte(frame, block, surface_width as int, start_x as int, i))
}

/// Copying a block onto a surface changes no byte of a pixel that lies to
/// the left or to the right of the block's columns, or below its rows.
pub proof fn lemma_blit_keeps_outside(
    frame: Seq<u8>,
    block: BlockView,
    surface_width: nat,
    start_x: nat,
    i: int,
)
    requires
        0 <= i < frame.len(),
        ({
            let x = (i / 4) % (surface_width as int);
            let y = (i / 4) / (surface_width as int);
            x < start_x || x >= start_x + block.width || y >= block.height
        }),
    ensures
        blit(frame, block, surface_width, start_x)[i] == frame[i],
{
}

/// Copying a block onto a surface puts each of its pixels, byte for byte,
/// at `start_x` columns to the right of its place in the block.
pub proof fn lemma_blit_places_block(
    frame: Seq<u8>,
    block: BlockView,
    surface_width: nat,
    start_x: nat,
    x: int,
    y: int,
    channel: int,
)
    requires
        0 <= x < block.width,
        0 <= y < block.height,
        0 <= channel < 4,
        start_x + block.width <= surface_width,
        surface_width * block.height * 4 <= frame.len(),
    ensures
        ({
            let at = (y * surface_width + start_x + x) * 4 + channel;
            0 <= at < frame.len() && blit(frame, block, surface_width, start_x)[at] == block.pixel(
                x,
                y,
            )[channel]
        }),
{
    let sw = surface_width as int;
    lemma_cell_index(start_x + x, y, sw);
    lemma_cell_in_bounds(start_x + x, y, sw, block.height as int);
    assert(sw * block.height * 4 == (sw * block.height) * 4) by (nonlinear_arith);
}

/// Byte `i` of the surface while the block is being copied: the rows above
/// `row` are done, and so are the first `col` pixels of row `row`.
pub open spec fn blit_progress(
    frame: Seq<u8>,
    block: BlockView,
    surface_width: int,
    start_x: int,
    row: int,
    col: int,
    i: int,
) -> u8 {
    let x = (i / 4) % surface_width;
    let y = (i / 4) / surface_width;
    if start_x <= x < start_x + block.width && (y < row || (y == row && x - start_x < col)) {
        block.pixel(x - start_x, y)[i % 4]
    } else {
        frame[i]
    }
}

/// A rectangle of pixels, produced by drawing one element.
#[derive(Debug)]
pub struct Block {
    height: usize,
    width: usize,
    pixels: Vec<Pixel>,
}

impl View for Block {
    type V = BlockView;

    closed spec fn view(&self) -> BlockView {
        BlockView { width: self.width as nat, height: self.height as nat, pixels: self.pixels@ }
    }
}

impl Clone for Block {
    /// A block with the same size and pixels.
    fn clone(&self) -> (copy: Self)
        ensures
            copy@ == self@,
            copy.wf(),
    {
        proof {
            use_type_invariant(self);
        }
        let mut pixels: Vec<Pixel> = Vec::new();
        let mut n: usize = 0;
        while n < self.pixels.len()
            invariant
                n <= self.pixels@.len(),
                pixels@ =~= self.pixels@.take(n as int),
            decreases self.pixels.len() - n,
        {
            pixels.push(self.pixels[n]);
            n += 1;
        }
        assert(pixels@ =~= self.pixels@);
        Block { height: self.height, width: self.width, pixels }
    }
}

impl Block {
    /// The block holds exactly `height` rows of `width` pixels, and their
    /// number fits a machine word. This holds of every block.
    #[verifier::type_invariant]
    pub open spec fn wf(&self) -> bool {
        &&& self@.pixels.len() == self@.width * self@.height
        &&& self@.width * self@.height <= usize::MAX
    }

    /// A block of the given size over `pixels`, which holds it row by row.
    pub fn from_pixels(pixels: Vec<Pixel>, width: usize, height: usize) -> (block: Self)
        requires
            pixels@.len() == width * height,
        ensures
            block.wf(),
            block@ == (BlockView { width: width as nat, height: height as nat, pixels: pixels@ }),
    {
        assert(pixels.len() <= usize::MAX);
        Block { height, width, pixels }
    }

    /// The number of pixel columns: the number of pixels divided by the
    /// height.
    pub fn width(&self) -> (width: usize)
        ensures
            width == self@.width,
            self@.height > 0 ==> width == self@.pixels.len() / self@.height,
    {
        proof {
            use_type_invariant(self);
            if self.height > 0 {
                vstd::arithmetic::div_mod::lemma_div_multiples_vanish(
                    self.width as int,
                    self.height as int,
                );
                assert(self.width * self.height == self.height * self.width) by (nonlinear_arith);
            }
        }
        self.width
    }

    /// The number of pixel rows.
    pub fn height(&self) -> (height: usize)
        ensures
            height == self@.height,
    {
        self.height
    }

    /// The rows of the block, top to bottom, each exactly `width` pixels
    /// long. A block without columns has `height` empty rows.
    pub fn rows(&self) -> (rows: Vec<Vec<Pixel>>)
        ensures
            rows@.len() == self@.height,
            forall|y: int| 0 <= y < self@.height ==> (#[trigger] rows@[y])@.len() == self@.width,
            forall|x: int, y: int|
                0 <= y < self@.height && 0 <= x < self@.width ==> #[trigger] rows@[y]@[x]
                    == self@.pixel(x, y),
    {
        proof {
            use_type_invariant(self);
        }
        let mut rows: Vec<Vec<Pixel>> = Vec::new();
        let mut y: usize = 0;
        while y < self.height
            invariant
                self.wf(),
                y <= self.height,
                rows@.len() == y,
                forall|r: int| 0 <= r < y ==> (#[trigger] rows@[r])@.len() == self@.width,
                forall|x: int, r: int|
                    0 <= r < y && 0 <= x < self@.width ==> #[trigger] rows@[r]@[x]
                        == self@.pixel(x, r),
            decreases self.height - y,
        {
            let mut row: Vec<Pixel> = Vec::new();
            let mut x: usize = 0;
            while x < self.width
                invariant
                    self.wf(),
                    y < self.height,
                    x <= self.width,
                    row@.len() == x,
                    forall|c: int| 0 <= c < x ==> #[trigger] row@[c] == self@.pixel(c, y as int),
                decreases self.width - x,
            {
                proof {
                    lemma_cell_in_bounds(x as int, y as int, self.width as int, self.height as int);
                }
                row.push(self.pixels[y * self.width + x]);
                x += 1;
            }
            rows.push(row);
            y += 1;
        }
        rows
    }

    /// Copies the block onto a surface whose rows are `surface_width` pixels
    /// long, with its left edge in column `start_x` and its top edge in row
    /// 0. Row `y` of the block goes to the bytes from
    /// `(y * surface_width + start_x) * 4` on. Nothing outside the rectangle
    /// that the block covers is changed.
    pub fn draw_onto_pixels(&self, frame: &mut [u8], surface_width: usize, start_x: usize)
        requires
            start_x + self@.width <= surface_width,
            surface_width * self@.height * PIXEL_SIZE <= old(frame)@.len(),
        ensures
            final(frame)@ == blit(old(frame)@, self@, surface_width as nat, start_x as nat),
    {
        proof {
            use_type_invariant(self);
        }
        let ghost before = frame@;
        let ghost sw = surface_width as int;
        let ghost sx = start_x as int;
        assert(frame.len() <= usize::MAX);
        let mut y: usize = 0;
        while y < self.height
            invariant
                self.wf(),
                start_x + self@.width <= surface_width,
                surface_width * self@.height * PIXEL_SIZE <= before.len(),
                sw == surface_width,
                sx == start_x,
                frame@.len() == before.len(),
                before.len() <= usize::MAX,
                y <= self.height,
                forall|i: int|
                    0 <= i < before.len() ==> #[trigger] frame@[i] == blit_progress(
                        before,
                        self@,
                        sw,
                        sx,
                        y as int,
                        0,
                        i,
                    ),
            decreases self.height - y,
        {
            let mut x: usize = 0;
            while x < self.width
                invariant
                    self.wf(),
                    start_x + self@.width <= surface_width,
                    surface_width * self@.height * PIXEL_SIZE <= before.len(),
                    sw == surface_width,
                    sx == start_x,
                    frame@.len() == before.len(),
                    before.len() <= usize::MAX,
                    y < self.height,
                    x <= self.width,
                    forall|i: int|
                        0 <= i < before.len() ==> #[trigger] frame@[i] == blit_progress(
                            before,
                            self@,
                            sw,
                            sx,
                            y as int,
                            x as int,
                            i,
                        ),
                decreases self.width - x,
            {
                proof {
                    lemma_cell_in_bounds(x as int, y as int, self.width as int, self.height as int);
                    lemma_cell_in_bounds(sx + x, y as int, sw, self.height as int);
                    lemma_cell_index(sx + x, y as int, sw);
                    assert(sw * self.height * 4 == (sw * self.height) * 4) by (nonlinear_arith);
                }
                let px = self.pixels[y * self.width + x];
                let at = (y * surface_width + start_x + x) * PIXEL_SIZE;
                let ghost mid = frame@;
                frame[at] = px[0];
                frame[at + 1] = px[1];
                frame[at + 2] = px[2];
                frame[at + 3] = px[3];
                proof {
                    let p = y * sw + sx + x;
                    assert forall|i: int| 0 <= i < before.len() implies #[trigger] frame@[i]
                        == blit_progress(before, self@, sw, sx, y as int, x + 1, i) by {
                        let q = i / 4;
                        vstd::arithmetic::div_mod::lemma_fundamental_div_mod(q, sw);
                        assert(sw * (q / sw) == (q / sw) * sw) by (nonlinear_arith);
                        if q == p {
                            assert(i == at + i % 4);
                        } else {
                            assert(frame@[i] == mid[i]);
                        }
                    }
                }
                x += 1;
            }
            proof {
                assert forall|i: int| 0 <= i < before.len() implies #[trigger] frame@[i]
                    == blit_progress(before, self@, sw, sx, y + 1, 0, i) by {
                    assert(frame@[i] == blit_progress(
                        before,
                        self@,
                        sw,
                        sx,
                        y as int,
                        self.width as int,
                        i,
                    ));
                }
            }
            y += 1;
        }
        assert(frame@ =~= blit(before, self@, surface_width as nat, start_x as nat));
    }
}

/// A buffer of `count` pixels of one colour.
pub fn filled(count: usize, colour: Pixel) -> (pixels: Vec<Pixel>)
    ensures
        pixels@.len() == count,
        forall|i: int| 0 <= i < count ==> #[trigger] pixels@[i] == colour,
{
    let mut pixels: Vec<Pixel> = Vec::new();
    let mut n: usize = 0;
    while n < count
        invariant
            n <= count,
            pixels@.len() == n,
            forall|i: int| 0 <= i < n ==> #[trigger] pixels@[i] == colour,
        decreases count - n,
    {
        pixels.push(colour);
        n += 1;
    }
    pixels
}

} // verus!
