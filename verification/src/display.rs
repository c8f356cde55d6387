//! The 64x32 monochrome screen. Sprites are XORed onto it and wrap around
//! both edges.

use vstd::prelude::*;

verus! {

/// Number of pixels in a row.
pub const DISPLAY_WIDTH: usize = 64;

/// Number of rows.
pub const DISPLAY_HEIGHT: usize = 32;

/// Number of pixels on the screen.
pub const DISPLAY_PIXELS: usize = 2048;

/// Position of pixel `(x, y)` in the row-major frame buffer.
pub open spec fn pixel_index(x: int, y: int) -> int {
    y * 64 + x
}

/// The frame buffer with every pixel unlit.
pub open spec fn blank_screen() -> Seq<bool> {
    Seq::new(2048, |k: int| false)
}

/// Whether column `col` of a sprite row is set. Column 0 is the most
/// significant bit.
pub open spec fn sprite_bit(bits: u8, col: int) -> bool {
    bits & (0x80u8 >> (col as usize)) != 0
}

/// Position in the frame buffer of column `col` of a sprite row drawn at
/// `(x, y)`: both coordinates wrap.
pub open spec fn cell_index(x: int, y: int, col: int) -> int {
    pixel_index((x + col) % 64, y % 32)
}

/// Whether a sprite row `bits` drawn at `(x, y)` toggles pixel `(px, py)`,
/// looking only at the first `cols` columns of the row.
pub open spec fn row_covers_upto(x: int, y: int, bits: u8, cols: int, px: int, py: int) -> bool {
    let col = (px - x) % 64;
    py == y % 32 && col < cols && sprite_bit(bits, col)
}

/// Whether a sprite row `bits` drawn at `(x, y)` toggles pixel `(px, py)`.
pub open spec fn row_covers(x: int, y: int, bits: u8, px: int, py: int) -> bool {
    row_covers_upto(x, y, bits, 8, px, py)
}

/// The frame buffer after one sprite row has been XORed onto it.
pub open spec fn xor_row(pixels: Seq<bool>, x: int, y: int, bits: u8) -> Seq<bool> {
    Seq::new(pixels.len(), |k: int| pixels[k] != row_covers(x, y, bits, k % 64, k / 64))
}

/// Whether column `col` of the row is set and lands on a lit pixel.
pub open spec fn cell_erases(pixels: Seq<bool>, x: int, y: int, bits: u8, col: int) -> bool {
    sprite_bit(bits, col) && pixels[cell_index(x, y, col)]
}

/// Whether one of the first `cols` columns of the row turns a lit pixel off.
pub open spec fn row_erases_upto(pixels: Seq<bool>, x: int, y: int, bits: u8, cols: int) -> bool {
    exists|col: int| 0 <= col < cols && #[trigger] cell_erases(pixels, x, y, bits, col)
}

/// Whether XORing the row onto `pixels` turns a lit pixel off.
pub open spec fn row_erases(pixels: Seq<bool>, x: int, y: int, bits: u8) -> bool {
    row_erases_upto(pixels, x, y, bits, 8)
}

/// The frame buffer after the rows of `sprite` have been XORed onto `pixels`
/// one below the other, the first at `(x, y)`, together with the collision
/// flag: whether any of those rows turned a lit pixel off.
pub open spec fn draw_sprite_spec(pixels: Seq<bool>, x: int, y: int, sprite: Seq<u8>) -> (
    Seq<bool>,
    bool,
)
    decreases sprite.len(),
{
    if sprite.len() == 0 {
        (pixels, false)
    } else {
        let above = draw_sprite_spec(pixels, x, y, sprite.drop_last());
        let row = sprite.len() - 1;
        (
            xor_row(above.0, x, y + row, sprite.last()),
            above.1 || row_erases(above.0, x, y + row, sprite.last()),
        )
    }
}

/// Whether row `r` of `sprite`, drawn from `(x, y)` downwards, toggles the
/// pixel at position `k` of the frame buffer.
pub open spec fn toggles_in_row(x: int, y: int, sprite: Seq<u8>, r: int, k: int) -> bool {
    row_covers(x, y + r, sprite[r], k % 64, k / 64)
}

/// Whether some row of `sprite` toggles the pixel at position `k`.
pub open spec fn sprite_toggles(x: int, y: int, sprite: Seq<u8>, k: int) -> bool {
    exists|r: int| 0 <= r < sprite.len() && #[trigger] toggles_in_row(x, y, sprite, r, k)
}

/// Whether an odd number of rows of `sprite` toggle the pixel at position
/// `k`.
pub open spec fn toggles_odd(x: int, y: int, sprite: Seq<u8>, k: int) -> bool
    decreases sprite.len(),
{
    if sprite.len() == 0 {
        false
    } else {
        toggles_odd(x, y, sprite.drop_last(), k) != toggles_in_row(
            x,
            y,
            sprite,
            sprite.len() - 1,
            k,
        )
    }
}

/// Whether the pixel at position `k` is lit and `sprite` toggles it.
pub open spec fn erased_at(pixels: Seq<bool>, x: int, y: int, sprite: Seq<u8>, k: int) -> bool {
    pixels[k] && sprite_toggles(x, y, sprite, k)
}

/// Whether `sprite` toggles some lit pixel of `pixels`.
pub open spec fn erases(pixels: Seq<bool>, x: int, y: int, sprite: Seq<u8>) -> bool {
    exists|k: int| 0 <= k < pixels.len() && #[trigger] erased_at(pixels, x, y, sprite, k)
}

/// Whether the sprite row `bits` at `(x, y)` toggles the pixel at position
/// `k` and finds it lit.
pub open spec fn row_erases_at(pixels: Seq<bool>, x: int, y: int, bits: u8, k: int) -> bool {
    pixels[k] && row_covers(x, y, bits, k % 64, k / 64)
}

/// The pixels that a sprite row toggles are the cells of its set columns.
proof fn lemma_row_covers_cell(x: int, y: int, bits: u8, k: int)
    requires
        0 <= k < 2048,
    ensures
        row_covers(x, y, bits, k % 64, k / 64) ==> {
            let col = (k % 64 - x) % 64;
            0 <= col < 8 && sprite_bit(bits, col) && cell_index(x, y, col) == k
        },
        forall|col: int|
            0 <= col < 8 && sprite_bit(bits, col) && #[trigger] cell_index(x, y, col) == k
                ==> row_covers(x, y, bits, k % 64, k / 64),
{
    assert forall|col: int|
        0 <= col < 8 && sprite_bit(bits, col) && #[trigger] cell_index(x, y, col)
            == k implies row_covers(x, y, bits, k % 64, k / 64) by {
        assert(k % 64 == (x + col) % 64);
        assert(k / 64 == y % 32);
        assert((k % 64 - x) % 64 == col);
    }
}

/// A sprite row turns a lit pixel off exactly when one of the pixels it
/// toggles is lit.
proof fn lemma_row_erases_pixelwise(pixels: Seq<bool>, x: int, y: int, bits: u8)
    requires
        pixels.len() == 2048,
    ensures
        row_erases(pixels, x, y, bits) <==> exists|k: int|
            0 <= k < 2048 && #[trigger] row_erases_at(pixels, x, y, bits, k),
{
    if row_erases(pixels, x, y, bits) {
        let col = choose|col: int| 0 <= col < 8 && cell_erases(pixels, x, y, bits, col);
        let k = cell_index(x, y, col);
        lemma_row_covers_cell(x, y, bits, k);
        assert(row_erases_at(pixels, x, y, bits, k));
    }
    if exists|k: int| 0 <= k < 2048 && #[trigger] row_erases_at(pixels, x, y, bits, k) {
        let k = choose|k: int| 0 <= k < 2048 && #[trigger] row_erases_at(pixels, x, y, bits, k);
        lemma_row_covers_cell(x, y, bits, k);
        let col = (k % 64 - x) % 64;
        assert(cell_erases(pixels, x, y, bits, col));
    }
}

/// The rows that toggle a pixel are those of the sprite without its last
/// row, and possibly the last row.
proof fn lemma_sprite_toggles_last(x: int, y: int, sprite: Seq<u8>, k: int)
    requires
        sprite.len() > 0,
    ensures
        sprite_toggles(x, y, sprite, k) <==> sprite_toggles(x, y, sprite.drop_last(), k)
            || toggles_in_row(x, y, sprite, sprite.len() - 1, k),
{
    let rest = sprite.drop_last();
    let n = sprite.len() - 1;
    if sprite_toggles(x, y, sprite, k) {
        let r = choose|r: int| 0 <= r < sprite.len() && toggles_in_row(x, y, sprite, r, k);
        if r < n {
            assert(rest[r] == sprite[r]);
            assert(toggles_in_row(x, y, rest, r, k));
        }
    }
    if sprite_toggles(x, y, rest, k) {
        let r = choose|r: int| 0 <= r < rest.len() && toggles_in_row(x, y, rest, r, k);
        assert(rest[r] == sprite[r]);
        assert(toggles_in_row(x, y, sprite, r, k));
    }
    if toggles_in_row(x, y, sprite, n, k) {
        assert(sprite_toggles(x, y, sprite, k));
    }
}

/// In a sprite of at most 32 rows no two rows land on the same display row,
/// so a pixel that the last row toggles is toggled by no other row.
proof fn lemma_last_row_alone(x: int, y: int, sprite: Seq<u8>, k: int)
    requires
        0 < sprite.len() <= 32,
        toggles_in_row(x, y, sprite, sprite.len() - 1, k),
    ensures
        !sprite_toggles(x, y, sprite.drop_last(), k),
{
    let rest = sprite.drop_last();
    let n = sprite.len() - 1;
    if sprite_toggles(x, y, rest, k) {
        let r = choose|r: int| 0 <= r < rest.len() && toggles_in_row(x, y, rest, r, k);
        assert((y + r) % 32 == k / 64);
        assert((y + n) % 32 == k / 64);
        assert(false);
    }
}

/// Drawing changes no lengths: the frame buffer keeps its size.
pub proof fn lemma_draw_sprite_len(pixels: Seq<bool>, x: int, y: int, sprite: Seq<u8>)
    ensures
        draw_sprite_spec(pixels, x, y, sprite).0.len() == pixels.len(),
    decreases sprite.len(),
{
    if sprite.len() > 0 {
        lemma_draw_sprite_len(pixels, x, y, sprite.drop_last());
    }
}

/// Pixel by pixel: after a draw, a pixel differs from before exactly when an
/// odd number of sprite rows toggle it. This holds for sprites of any
/// height, also those that wrap around onto themselves.
pub proof fn lemma_draw_sprite_parity(pixels: Seq<bool>, x: int, y: int, sprite: Seq<u8>)
    ensures
        draw_sprite_spec(pixels, x, y, sprite).0 == Seq::new(
            pixels.len(),
            |k: int| pixels[k] != toggles_odd(x, y, sprite, k),
        ),
    decreases sprite.len(),
{
    let drawn = draw_sprite_spec(pixels, x, y, sprite).0;
    let stated = Seq::new(pixels.len(), |k: int| pixels[k] != toggles_odd(x, y, sprite, k));
    if sprite.len() == 0 {
        assert(drawn =~= stated);
    } else {
        lemma_draw_sprite_parity(pixels, x, y, sprite.drop_last());
        assert(drawn =~= stated);
    }
}

/// Drawing the same sprite twice at the same place gives back the frame
/// buffer from before the first draw, whatever was on it.
pub proof fn lemma_draw_twice_restores(pixels: Seq<bool>, x: int, y: int, sprite: Seq<u8>)
    ensures
        draw_sprite_spec(draw_sprite_spec(pixels, x, y, sprite).0, x, y, sprite).0 == pixels,
{
    let first = draw_sprite_spec(pixels, x, y, sprite).0;
    lemma_draw_sprite_parity(pixels, x, y, sprite);
    lemma_draw_sprite_parity(first, x, y, sprite);
    assert(draw_sprite_spec(first, x, y, sprite).0 =~= pixels);
}

/// Pixel by pixel, for a sprite of at most 32 rows, which cannot overlap
/// itself: a draw inverts exactly the pixels that the sprite toggles, and
/// reports a collision exactly when one of those pixels was lit.
pub proof fn lemma_draw_sprite_pixelwise(pixels: Seq<bool>, x: int, y: int, sprite: Seq<u8>)
    requires
        pixels.len() == 2048,
        sprite.len() <= 32,
    ensures
        draw_sprite_spec(pixels, x, y, sprite).0 == Seq::new(
            2048,
            |k: int| pixels[k] != sprite_toggles(x, y, sprite, k),
        ),
        draw_sprite_spec(pixels, x, y, sprite).1 == erases(pixels, x, y, sprite),
    decreases sprite.len(),
{
    let drawn = draw_sprite_spec(pixels, x, y, sprite);
    let stated = Seq::new(2048, |k: int| pixels[k] != sprite_toggles(x, y, sprite, k));
    if sprite.len() == 0 {
        assert(drawn.0 =~= stated);
        assert(!erases(pixels, x, y, sprite));
    } else {
        let rest = sprite.drop_last();
        let n = sprite.len() - 1;
        let bits = sprite.last();
        let above = draw_sprite_spec(pixels, x, y, rest);
        lemma_draw_sprite_pixelwise(pixels, x, y, rest);
        assert forall|k: int| 0 <= k < 2048 implies drawn.0[k] == stated[k] by {
            lemma_sprite_toggles_last(x, y, sprite, k);
            if toggles_in_row(x, y, sprite, n, k) {
                lemma_last_row_alone(x, y, sprite, k);
            }
        }
        assert(drawn.0 =~= stated);
        lemma_row_erases_pixelwise(above.0, x, y + n, bits);
        if drawn.1 {
            if above.1 {
                let k = choose|k: int| 0 <= k < 2048 && erased_at(pixels, x, y, rest, k);
                lemma_sprite_toggles_last(x, y, sprite, k);
                assert(erased_at(pixels, x, y, sprite, k));
            } else {
                let k = choose|k: int|
                    0 <= k < 2048 && #[trigger] row_erases_at(above.0, x, y + n, bits, k);
                lemma_sprite_toggles_last(x, y, sprite, k);
                lemma_last_row_alone(x, y, sprite, k);
                assert(erased_at(pixels, x, y, sprite, k));
            }
        }
        if erases(pixels, x, y, sprite) {
            let k = choose|k: int| 0 <= k < 2048 && erased_at(pixels, x, y, sprite, k);
            lemma_sprite_toggles_last(x, y, sprite, k);
            if toggles_in_row(x, y, sprite, n, k) {
                lemma_last_row_alone(x, y, sprite, k);
                assert(row_erases_at(above.0, x, y + n, bits, k));
            } else {
                assert(erased_at(pixels, x, y, rest, k));
            }
        }
    }
}

/// Drawing a sprite of at most 32 rows a second time at the same place
/// reports a collision exactly when the first draw had lit a pixel: every
/// pixel that the second draw turns off is one that the first turned on or
/// left on, and it signals the ones it had turned on.
pub proof fn lemma_second_draw_collides(pixels: Seq<bool>, x: int, y: int, sprite: Seq<u8>)
    requires
        pixels.len() == 2048,
        sprite.len() <= 32,
    ensures
        ({
            let first = draw_sprite_spec(pixels, x, y, sprite);
            let second = draw_sprite_spec(first.0, x, y, sprite);
            &&& second.0 == pixels
            &&& second.1 <==> exists|k: int| 0 <= k < 2048 && #[trigger] first.0[k] && !pixels[k]
        }),
{
    let first = draw_sprite_spec(pixels, x, y, sprite);
    let second = draw_sprite_spec(first.0, x, y, sprite);
    lemma_draw_twice_restores(pixels, x, y, sprite);
    lemma_draw_sprite_pixelwise(pixels, x, y, sprite);
    lemma_draw_sprite_pixelwise(first.0, x, y, sprite);
    if second.1 {
        let k = choose|k: int| 0 <= k < 2048 && erased_at(first.0, x, y, sprite, k);
        assert(first.0[k] && !pixels[k]);
    }
    if exists|k: int| 0 <= k < 2048 && #[trigger] first.0[k] && !pixels[k] {
        let k = choose|k: int| 0 <= k < 2048 && #[trigger] first.0[k] && !pixels[k];
        assert(erased_at(first.0, x, y, sprite, k));
    }
}

/// One sprite row drawn a screen width further right, or a screen height
/// further down, is the same row.
proof fn lemma_row_is_periodic(pixels: Seq<bool>, x: int, y: int, bits: u8)
    ensures
        xor_row(pixels, x + 64, y, bits) == xor_row(pixels, x, y, bits),
        row_erases(pixels, x + 64, y, bits) == row_erases(pixels, x, y, bits),
        xor_row(pixels, x, y + 32, bits) == xor_row(pixels, x, y, bits),
        row_erases(pixels, x, y + 32, bits) == row_erases(pixels, x, y, bits),
{
    let right = x + 64;
    lemma_row_wraps(pixels, x, y + 32, y, bits);
    assert(xor_row(pixels, right, y, bits) =~= xor_row(pixels, x, y, bits));
    assert forall|col: int|
        cell_erases(pixels, right, y, bits, col) == cell_erases(pixels, x, y, bits, col) by {
        assert(cell_index(right, y, col) == cell_index(x, y, col));
    }
    if row_erases(pixels, right, y, bits) {
        let col = choose|col: int| 0 <= col < 8 && cell_erases(pixels, right, y, bits, col);
        assert(cell_erases(pixels, x, y, bits, col));
    }
    if row_erases(pixels, x, y, bits) {
        let col = choose|col: int| 0 <= col < 8 && cell_erases(pixels, x, y, bits, col);
        assert(cell_erases(pixels, right, y, bits, col));
    }
}

/// The screen is a torus: a sprite drawn a screen width further right, or a
/// screen height further down, lands on the same pixels and reports the same
/// collision.
pub proof fn lemma_draw_sprite_is_periodic(pixels: Seq<bool>, x: int, y: int, sprite: Seq<u8>)
    ensures
        draw_sprite_spec(pixels, x + 64, y, sprite) == draw_sprite_spec(pixels, x, y, sprite),
        draw_sprite_spec(pixels, x, y + 32, sprite) == draw_sprite_spec(pixels, x, y, sprite),
    decreases sprite.len(),
{
    if sprite.len() > 0 {
        let rest = sprite.drop_last();
        let row = sprite.len() - 1;
        let above = draw_sprite_spec(pixels, x, y, rest);
        lemma_draw_sprite_is_periodic(pixels, x, y, rest);
        lemma_row_is_periodic(above.0, x, y + row, sprite.last());
    }
}

/// On a blank screen every pixel is unlit: what `pixel` reports at any
/// position after `clear`.
pub proof fn lemma_blank_screen_unlit(x: int, y: int)
    requires
        0 <= x < 64,
        0 <= y < 32,
    ensures
        0 <= pixel_index(x, y) < 2048,
        !blank_screen()[pixel_index(x, y)],
{
}

/// Wrapping the start and the row number before adding them wraps to the
/// same display row.
proof fn lemma_wrap_rows(y: int, row: int)
    ensures
        (y % 32 + row % 32) % 32 == (y + row) % 32,
{
}

/// Wrapping the start before adding a column wraps to the same place.
proof fn lemma_wrap_add(x: int, col: int)
    ensures
        (x % 64 + col) % 64 == (x + col) % 64,
{
}

/// Column `col` of a sprite row drawn at `(x, y)` lands on one pixel of the
/// frame buffer, and that pixel is at the row's column `col` only.
proof fn lemma_cell(x: int, y: int, col: int, k: int)
    requires
        0 <= col < 64,
        0 <= k < 2048,
    ensures
        0 <= cell_index(x, y, col) < 2048,
        k == cell_index(x, y, col) <==> k / 64 == y % 32 && (k % 64 - x) % 64 == col,
{
    let idx = cell_index(x, y, col);
    assert(idx % 64 == (x + col) % 64 && idx / 64 == y % 32);
    assert((idx % 64 - x) % 64 == col);
    if k / 64 == y % 32 && (k % 64 - x) % 64 == col {
        assert(k % 64 == (x + col) % 64);
    }
}

/// A sprite row acts on the display row `y % 32`, whatever `y` is.
proof fn lemma_row_wraps(pixels: Seq<bool>, x: int, y1: int, y2: int, bits: u8)
    requires
        y1 % 32 == y2 % 32,
    ensures
        xor_row(pixels, x, y1, bits) == xor_row(pixels, x, y2, bits),
        row_erases(pixels, x, y1, bits) == row_erases(pixels, x, y2, bits),
{
    assert(xor_row(pixels, x, y1, bits) =~= xor_row(pixels, x, y2, bits));
    assert forall|col: int|
        cell_erases(pixels, x, y1, bits, col) == cell_erases(pixels, x, y2, bits, col) by {
        assert(cell_index(x, y1, col) == cell_index(x, y2, col));
    }
    if row_erases(pixels, x, y1, bits) {
        let col = choose|col: int| 0 <= col < 8 && cell_erases(pixels, x, y1, bits, col);
        assert(cell_erases(pixels, x, y2, bits, col));
    }
    if row_erases(pixels, x, y2, bits) {
        let col = choose|col: int| 0 <= col < 8 && cell_erases(pixels, x, y2, bits, col);
        assert(cell_erases(pixels, x, y1, bits, col));
    }
}

/// Drawing one more row of a sprite: the rows before it are drawn first,
/// then this row is XORed on, at any vertical position that wraps to the
/// same display row as `y + row`.
proof fn lemma_draw_next_row(pixels: Seq<bool>, x: int, y: int, sprite: Seq<u8>, row: int, py: int)
    requires
        0 <= row < sprite.len(),
        py % 32 == (y + row) % 32,
    ensures
        ({
            let above = draw_sprite_spec(pixels, x, y, sprite.take(row));
            draw_sprite_spec(pixels, x, y, sprite.take(row + 1)) == (
                xor_row(above.0, x, py, sprite[row]),
                above.1 || row_erases(above.0, x, py, sprite[row]),
            )
        }),
{
    let done = sprite.take(row + 1);
    let above = draw_sprite_spec(pixels, x, y, sprite.take(row));
    assert(done.drop_last() =~= sprite.take(row));
    assert(done.last() == sprite[row]);
    lemma_row_wraps(above.0, x, py, y + row, sprite[row]);
}

/// The screen. Its view is the row-major sequence of its 2048 pixels, `true`
/// for lit.
pub struct Display {
    /// The frame buffer: pixel `(x, y)` is at position `y * 64 + x`.
    pixels: [bool; 2048],
}

impl View for Display {
    type V = Seq<bool>;

    closed spec fn view(&self) -> Seq<bool> {
        self.pixels@
    }
}

/// Column `col` of a sprite row, counted from the most significant bit.
fn bit_at(bits: u8, col: usize) -> (b: bool)
    requires
        col < 8,
    ensures
        b == sprite_bit(bits, col as int),
{
    (bits & (0x80u8 >> col)) != 0
}

impl Display {
    /// Every screen holds exactly 2048 pixels.
    pub proof fn lemma_len(&self)
        ensures
            self@.len() == 2048,
    {
    }

    /// A screen with every pixel unlit.
    pub fn new() -> (d: Self)
        ensures
            d@ == blank_screen(),
    {
        let d = Display { pixels: [false; 2048] };
        assert(d.pixels@ =~= blank_screen());
        d
    }

    /// Turns every pixel off.
    pub fn clear(&mut self)
        ensures
            final(self)@ == blank_screen(),
    {
        let mut k: usize = 0;
        while k < DISPLAY_PIXELS
            invariant
                k <= 2048,
                forall|j: int| 0 <= j < k ==> !self.pixels@[j],
            decreases 2048 - k,
        {
            self.pixels[k] = false;
            k = k + 1;
        }
        assert(self.pixels@ =~= blank_screen());
    }

    /// Whether pixel `(x, y)` is lit.
    pub fn pixel(&self, x: usize, y: usize) -> (lit: bool)
        requires
            x < 64,
            y < 32,
        ensures
            lit == self@[pixel_index(x as int, y as int)],
    {
        self.pixels[self.compute_idx(x, y)]
    }

    /// XORs `value` into pixel `(x, y)` and says whether that turned the
    /// pixel off.
    pub fn xor_pixel(&mut self, x: usize, y: usize, value: bool) -> (cleared: bool)
        requires
            x < 64,
            y < 32,
        ensures
            final(self)@ == old(self)@.update(
                pixel_index(x as int, y as int),
                old(self)@[pixel_index(x as int, y as int)] != value,
            ),
            cleared == (old(self)@[pixel_index(x as int, y as int)] && value),
    {
        let idx: usize = self.compute_idx(x, y);
        let last_value: bool = self.pixels[idx];
        let new_value: bool = last_value != value;
        self.pixels[idx] = new_value;
        last_value && !new_value
    }

    /// Position of pixel `(x, y)` in the frame buffer.
    pub fn compute_idx(&self, x: usize, y: usize) -> (idx: usize)
        requires
            x < 64,
            y < 32,
        ensures
            idx == pixel_index(x as int, y as int),
            idx < 2048,
    {
        y * self.width() + x
    }

    /// The frame buffer, row by row.
    pub fn pixels(&self) -> (p: &[bool])
        ensures
            p@ == self@,
    {
        self.pixels.as_slice()
    }

    /// Number of pixels in a row.
    pub fn width(&self) -> (w: usize)
        ensures
            w == 64,
    {
        DISPLAY_WIDTH
    }

    /// Number of rows.
    pub fn height(&self) -> (h: usize)
        ensures
            h == 32,
    {
        DISPLAY_HEIGHT
    }

    /// XORs one sprite row onto the screen at `(x, y)`, wrapping around both
    /// edges, and says whether that turned a lit pixel off.
    fn draw_row(&mut self, x: usize, y: usize, bits: u8) -> (erased: bool)
        ensures
            final(self)@ == xor_row(old(self)@, x as int, y as int, bits),
            erased == row_erases(old(self)@, x as int, y as int, bits),
    {
        let py: usize = y % DISPLAY_HEIGHT;
        let x0: usize = x % DISPLAY_WIDTH;
        let mut erased: bool = false;
        let mut col: usize = 0;
        while col < 8
            invariant
                col <= 8,
                py == y % 32,
                x0 == x % 64,
                forall|k: int|
                    0 <= k < 2048 ==> self.pixels@[k] == (old(self).pixels@[k] != row_covers_upto(
                        x as int,
                        y as int,
                        bits,
                        col as int,
                        k % 64,
                        k / 64,
                    )),
                erased == row_erases_upto(old(self).pixels@, x as int, y as int, bits, col as int),
            decreases 8 - col,
        {
            let px: usize = (x0 + col) % DISPLAY_WIDTH;
            let value: bool = bit_at(bits, col);
            let ghost before = self.pixels@;
            let cleared: bool = self.xor_pixel(px, py, value);
            proof {
                let idx = cell_index(x as int, y as int, col as int);
                assert(px as int == (x + col) % 64) by {
                    lemma_wrap_add(x as int, col as int);
                }
                assert(idx == pixel_index(px as int, py as int));
                lemma_cell(x as int, y as int, col as int, idx);
                assert(before[idx] == old(self).pixels@[idx]);
                assert(cleared == cell_erases(
                    old(self).pixels@,
                    x as int,
                    y as int,
                    bits,
                    col as int,
                ));
                assert forall|k: int| 0 <= k < 2048 implies self.pixels@[k]
                    == (old(self).pixels@[k] != row_covers_upto(
                    x as int,
                    y as int,
                    bits,
                    col + 1,
                    k % 64,
                    k / 64,
                )) by {
                    lemma_cell(x as int, y as int, col as int, k);
                }
            }
            if cleared {
                erased = true;
            }
            col = col + 1;
        }
        assert(self.pixels@ =~= xor_row(old(self).pixels@, x as int, y as int, bits));
        erased
    }

    /// Draws `sprite`, one byte per row with the most significant bit
    /// leftmost, with its top left corner at `(x, y)`. Each set bit toggles
    /// its pixel; coordinates wrap around both edges. Returns the collision
    /// flag: whether any pixel went from lit to unlit.
    pub fn draw_sprite(&mut self, x: usize, y: usize, sprite: &[u8]) -> (collision: bool)
        ensures
            (final(self)@, collision) == draw_sprite_spec(
                old(self)@,
                x as int,
                y as int,
                sprite@,
            ),
    {
        let rows: usize = sprite.len();
        let y0: usize = y % DISPLAY_HEIGHT;
        let mut collision: bool = false;
        let mut row: usize = 0;
        assert(sprite@.take(0) =~= Seq::<u8>::empty());
        while row < rows
            invariant
                row <= rows,
                rows == sprite@.len(),
                y0 == y % 32,
                (self.pixels@, collision) == draw_sprite_spec(
                    old(self).pixels@,
                    x as int,
                    y as int,
                    sprite@.take(row as int),
                ),
            decreases rows - row,
        {
            let py: usize = (y0 + row % DISPLAY_HEIGHT) % DISPLAY_HEIGHT;
            let erased: bool = self.draw_row(x, py, sprite[row]);
            proof {
                assert(py as int == (y + row) % 32) by {
                    lemma_wrap_rows(y as int, row as int);
                }
                lemma_draw_next_row(
                    old(self).pixels@,
                    x as int,
                    y as int,
                    sprite@,
                    row as int,
                    py as int,
                );
            }
            if erased {
                collision = true;
            }
            row = row + 1;
        }
        assert(sprite@.take(rows as int) =~= sprite@);
        collision
    }
}

} // verus!
