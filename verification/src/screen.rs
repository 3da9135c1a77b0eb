use vstd::prelude::*;

verus! {

/// Columns of the display.
pub const SCREEN_WIDTH: usize = 64;

/// Rows of the display.
pub const SCREEN_HEIGHT: usize = 32;

/// Pixels of the display.
pub const PIXEL_COUNT: usize = SCREEN_WIDTH * SCREEN_HEIGHT;

/// A display with every pixel off.
pub open spec fn blank_pixels() -> Seq<bool> {
    Seq::new(PIXEL_COUNT as nat, |k: int| false)
}

/// Whether the pixel `c` columns from the left edge of a sprite row is set.
/// The most significant bit of `bits` is the leftmost pixel.
pub open spec fn sprite_bit(bits: u8, c: int) -> bool {
    bits & (0x80u8 >> (c as u8)) != 0
}

/// How many columns to the right of `x` the column `col` lies, going round
/// the display's right edge: a number from 0 to 63.
pub open spec fn column_offset(x: u8, col: int) -> int {
    (col - x) % (SCREEN_WIDTH as int)
}

/// Whether a sprite row with pixels `bits`, drawn from column `x` on
/// display row `at`, flips the pixel at column `col` of row `row`.
pub open spec fn bits_flip(x: u8, at: int, bits: u8, col: int, row: int) -> bool {
    &&& row == at
    &&& column_offset(x, col) < 8
    &&& sprite_bit(bits, column_offset(x, col))
}

/// Whether row `i` of `sprite`, drawn with its top-left corner at `(x, y)`,
/// flips the pixel at column `col` of row `row`. Coordinates wrap around
/// both edges of the display.
pub open spec fn row_flips(x: u8, y: u8, sprite: Seq<u8>, i: int, col: int, row: int) -> bool {
    bits_flip(x, (y + i) % (SCREEN_HEIGHT as int), sprite[i], col, row)
}

/// Whether drawing `sprite` at `(x, y)` changes the pixel at `(col, row)`:
/// true when an odd number of sprite rows flip it.
pub open spec fn flips(x: u8, y: u8, sprite: Seq<u8>, col: int, row: int) -> bool
    decreases sprite.len(),
{
    if sprite.len() == 0 {
        false
    } else {
        let last = sprite.len() - 1;
        flips(x, y, sprite.drop_last(), col, row) != row_flips(x, y, sprite, last, col, row)
    }
}

/// Whether drawing `sprite` at `(x, y)` changes the pixel stored at index
/// `k` of the row-major buffer.
pub open spec fn flips_at(x: u8, y: u8, sprite: Seq<u8>, k: int) -> bool {
    flips(x, y, sprite, k % (SCREEN_WIDTH as int), k / (SCREEN_WIDTH as int))
}

/// Whether a sprite row with pixels `bits`, drawn from column `x` on display
/// row `at`, changes the pixel stored at index `k` of the row-major buffer.
pub open spec fn bits_flip_at(x: u8, at: int, bits: u8, k: int) -> bool {
    bits_flip(x, at, bits, k % (SCREEN_WIDTH as int), k / (SCREEN_WIDTH as int))
}

/// The display after `sprite` has been XOR-ed onto `pixels` at `(x, y)`.
pub open spec fn draw_spec(pixels: Seq<bool>, x: u8, y: u8, sprite: Seq<u8>) -> Seq<bool> {
    Seq::new(PIXEL_COUNT as nat, |k: int| pixels[k] != flips_at(x, y, sprite, k))
}

/// Whether drawing `sprite` at `(x, y)` turns off a pixel that was on.
pub open spec fn collides(pixels: Seq<bool>, x: u8, y: u8, sprite: Seq<u8>) -> bool {
    exists|k: int| 0 <= k < PIXEL_COUNT && pixels[k] && #[trigger] flips_at(x, y, sprite, k)
}

/// Drawing is an XOR: a second draw of the same sprite at the same place
/// undoes the first, whatever the number of rows, and it reports a collision
/// whenever the first draw had turned some pixel on.
pub proof fn lemma_draw_twice_restores(pixels: Seq<bool>, x: u8, y: u8, sprite: Seq<u8>)
    requires
        pixels.len() == PIXEL_COUNT,
    ensures
        draw_spec(draw_spec(pixels, x, y, sprite), x, y, sprite) == pixels,
        (exists|k: int| 0 <= k < PIXEL_COUNT && !pixels[k] && draw_spec(pixels, x, y, sprite)[k])
            ==> collides(draw_spec(pixels, x, y, sprite), x, y, sprite),
{
    let once = draw_spec(pixels, x, y, sprite);
    assert(draw_spec(once, x, y, sprite) =~= pixels);
    if exists|k: int| 0 <= k < PIXEL_COUNT && !pixels[k] && once[k] {
        let k = choose|k: int| 0 <= k < PIXEL_COUNT && !pixels[k] && once[k];
        assert(once[k] && flips_at(x, y, sprite, k));
    }
}

/// A sprite of at most `SCREEN_HEIGHT` rows touches each display row at most
/// once, so a pixel changes exactly when one of the rows flips it.
pub proof fn lemma_flips_of_short_sprite(x: u8, y: u8, sprite: Seq<u8>, col: int, row: int)
    requires
        sprite.len() <= SCREEN_HEIGHT,
    ensures
        flips(x, y, sprite, col, row) <==> exists|i: int|
            0 <= i < sprite.len() && #[trigger] row_flips(x, y, sprite, i, col, row),
    decreases sprite.len(),
{
    if sprite.len() > 0 {
        let shorter = sprite.drop_last();
        let last = sprite.len() - 1;
        lemma_flips_of_short_sprite(x, y, shorter, col, row);
        assert forall|i: int| 0 <= i < shorter.len() implies row_flips(x, y, shorter, i, col, row)
            == row_flips(x, y, sprite, i, col, row) by {
            assert(shorter[i] == sprite[i]);
        }
        if row_flips(x, y, sprite, last, col, row) {
            assert forall|i: int| 0 <= i < shorter.len() implies !row_flips(
                x,
                y,
                shorter,
                i,
                col,
                row,
            ) by {
                assert((y + i) % 32 != (y + last) % 32);
            }
        } else if flips(x, y, shorter, col, row) {
            let i = choose|i: int|
                0 <= i < shorter.len() && #[trigger] row_flips(x, y, shorter, i, col, row);
            assert(row_flips(x, y, sprite, i, col, row));
        }
    }
}

/// The column that lies `c` columns to the right of `x`, going round the
/// right edge, is the only one at that offset.
proof fn lemma_column_offset(x: u8, c: int, col: int)
    requires
        0 <= c < SCREEN_WIDTH,
        0 <= col < SCREEN_WIDTH,
    ensures
        column_offset(x, col) == c <==> col == (x % 64 + c) % 64,
{
}

/// The monochrome display, stored row by row.
pub struct Screen {
    pixels: [bool; PIXEL_COUNT],
}

impl View for Screen {
    type V = Seq<bool>;

    closed spec fn view(&self) -> Seq<bool> {
        self.pixels@
    }
}

impl Screen {
    /// Every display has exactly `PIXEL_COUNT` pixels.
    pub proof fn lemma_len(&self)
        ensures
            self@.len() == PIXEL_COUNT,
    {
    }

    /// A display with every pixel off.
    pub fn new() -> (s: Screen)
        ensures
            s@ == blank_pixels(),
    {
        let s = Screen { pixels: [false; PIXEL_COUNT] };
        assert(s@ =~= blank_pixels());
        s
    }

    /// Turns every pixel off.
    pub fn clear_screen(&mut self)
        ensures
            final(self)@ == blank_pixels(),
    {
        self.pixels = [false; PIXEL_COUNT];
        assert(self@ =~= blank_pixels());
    }

    /// XORs one sprite row onto display row `row`, starting at column `x`
    /// and wrapping at the right edge.
    fn xor_row(&mut self, x: u8, row: usize, bits: u8)
        requires
            row < SCREEN_HEIGHT,
        ensures
            forall|k: int|
                0 <= k < PIXEL_COUNT ==> #[trigger] final(self)@[k] == (old(self)@[k]
                    != bits_flip_at(x, row as int, bits, k)),
    {
        let mut c: u8 = 0;
        while c < 8
            invariant
                c <= 8,
                row < SCREEN_HEIGHT,
                forall|k: int|
                    0 <= k < PIXEL_COUNT ==> #[trigger] self@[k] == (old(self)@[k] != (
                    bits_flip_at(x, row as int, bits, k) && column_offset(x, k % 64) < c)),
            decreases 8 - c,
        {
            let col: usize = (x as usize % SCREEN_WIDTH + c as usize) % SCREEN_WIDTH;
            let k: usize = row * SCREEN_WIDTH + col;
            let ghost prev = self@;
            if bits & (0x80u8 >> c) != 0 {
                self.pixels[k] = !self.pixels[k];
            }
            proof {
                assert(k % 64 == col && k / 64 == row);
                assert forall|j: int| 0 <= j < PIXEL_COUNT implies #[trigger] self@[j] == (prev[j]
                    != (column_offset(x, j % 64) == c && bits_flip_at(x, row as int, bits, j))) by {
                    lemma_column_offset(x, c as int, j % 64);
                    if j != k {
                        assert(self@[j] == prev[j]);
                    }
                }
            }
            c = c + 1;
        }
    }

    /// XORs `sprite` onto the display with its top-left corner at
    /// `(x mod 64, y mod 32)`. Each byte is one row of eight pixels, most
    /// significant bit leftmost; pixels that fall off an edge reappear on
    /// the opposite one. Returns whether a pixel that was on is now off.
    pub fn draw(&mut self, x: u8, y: u8, sprite: &[u8]) -> (collision: bool)
        ensures
            final(self)@ == draw_spec(old(self)@, x, y, sprite@),
            collision == collides(old(self)@, x, y, sprite@),
    {
        let before = self.pixels;
        let mut i: usize = 0;
        while i < sprite.len()
            invariant
                i <= sprite@.len(),
                before@ == old(self)@,
                self@ == draw_spec(old(self)@, x, y, sprite@.take(i as int)),
            decreases sprite@.len() - i,
        {
            let row: usize = (y as usize % SCREEN_HEIGHT + i % SCREEN_HEIGHT) % SCREEN_HEIGHT;
            let ghost prev = self@;
            self.xor_row(x, row, sprite[i]);
            proof {
                let done = sprite@.take(i as int);
                let next = sprite@.take(i + 1);
                assert(next.drop_last() =~= done);
                assert(next[i as int] == sprite@[i as int]);
                assert(row == (y + i) % 32);
                assert forall|k: int| 0 <= k < PIXEL_COUNT implies self@[k] == (old(self)@[k]
                    != flips_at(x, y, next, k)) by {
                    assert(prev[k] == (old(self)@[k] != flips_at(x, y, done, k)));
                }
                assert(self@ =~= draw_spec(old(self)@, x, y, next));
            }
            i = i + 1;
        }
        assert(sprite@.take(i as int) =~= sprite@);
        let mut hit = false;
        let mut k: usize = 0;
        while k < PIXEL_COUNT
            invariant
                k <= PIXEL_COUNT,
                before@ == old(self)@,
                self@ == draw_spec(old(self)@, x, y, sprite@),
                hit == exists|j: int|
                    0 <= j < k && old(self)@[j] && #[trigger] flips_at(x, y, sprite@, j),
            decreases PIXEL_COUNT - k,
        {
            if before[k] && !self.pixels[k] {
                hit = true;
            }
            k = k + 1;
        }
        hit
    }

    /// A copy of all pixels, row by row from the top, each row left to right.
    pub fn snapshot(&self) -> (pixels: [bool; PIXEL_COUNT])
        ensures
            pixels@ == self@,
    {
        self.pixels
    }
}

} // verus!
