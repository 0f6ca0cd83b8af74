use vstd::prelude::*;
use crate::consts::{DISPLAY_HEIGHT, DISPLAY_WIDTH};

verus! {

/// The monochrome framebuffer: 32 rows of 64 pixels, row after row.
#[verifier::ext_equal]
pub struct Display {
    pub memory: [bool; 2048],
}

impl View for Display {
    type V = Seq<bool>;

    open spec fn view(&self) -> Seq<bool> {
        self.memory@
    }
}

/// A framebuffer with every pixel off.
pub open spec fn blank() -> Seq<bool> {
    Seq::new(2048, |p: int| false)
}

/// Place in the framebuffer of the pixel in column `x` of row `y`; both wrap
/// around the edges of the grid.
pub open spec fn pixel_index(x: int, y: int) -> int {
    x % 64 + (y % 32) * 64
}

/// Whether bit `col` of a sprite row is set. Bit 0 is the most significant
/// one, the leftmost pixel of the row.
pub open spec fn sprite_bit(row: u8, col: int) -> bool {
    (row >> ((7 - col) as usize)) & 1 == 1
}

/// Whether bit `k` of the sprite is set. The bits are counted row by row,
/// eight to a row.
pub open spec fn sprite_bit_at(sprite: Seq<u8>, k: int) -> bool {
    sprite_bit(sprite[k / 8], k % 8)
}

/// Pixel that bit `k` of a sprite drawn at (`x`, `y`) falls on.
pub open spec fn target(x: int, y: int, k: int) -> int {
    pixel_index(x + k % 8, y + k / 8)
}

/// Whether an odd number of the first `k` bits of the sprite are set and fall
/// on pixel `p`.
pub open spec fn flipped(x: int, y: int, sprite: Seq<u8>, k: nat, p: int) -> bool
    decreases k,
{
    if k == 0 {
        false
    } else {
        let before = flipped(x, y, sprite, (k - 1) as nat, p);
        if sprite_bit_at(sprite, k - 1) && target(x, y, k - 1) == p {
            !before
        } else {
            before
        }
    }
}

/// The framebuffer once the first `k` bits of the sprite are drawn: a pixel
/// has changed if and only if an odd number of set bits fell on it.
pub open spec fn draw_prefix(pixels: Seq<bool>, x: int, y: int, sprite: Seq<u8>, k: nat) -> Seq<
    bool,
> {
    Seq::new(pixels.len(), |p: int| pixels[p] != flipped(x, y, sprite, k, p))
}

/// The framebuffer once the whole sprite is drawn at (`x`, `y`).
pub open spec fn draw_spec(pixels: Seq<bool>, x: int, y: int, sprite: Seq<u8>) -> Seq<bool> {
    draw_prefix(pixels, x, y, sprite, 8 * sprite.len())
}

/// Whether bit `k` of the sprite is set and finds its pixel lit when its turn
/// comes, so that drawing it turns the pixel off.
pub open spec fn collides_at(pixels: Seq<bool>, x: int, y: int, sprite: Seq<u8>, k: int) -> bool {
    sprite_bit_at(sprite, k) && draw_prefix(pixels, x, y, sprite, k as nat)[target(x, y, k)]
}

/// Whether one of the first `k` bits of the sprite collides.
pub open spec fn collides_before(
    pixels: Seq<bool>,
    x: int,
    y: int,
    sprite: Seq<u8>,
    k: int,
) -> bool {
    exists|j: int| 0 <= j < k && collides_at(pixels, x, y, sprite, j)
}

/// Whether drawing the sprite at (`x`, `y`) turns a lit pixel off.
pub open spec fn collision_spec(pixels: Seq<bool>, x: int, y: int, sprite: Seq<u8>) -> bool {
    collides_before(pixels, x, y, sprite, 8 * (sprite.len() as int))
}

impl Display {
    /// A framebuffer with every pixel off.
    pub fn new() -> (display: Self)
        ensures
            display@ == blank(),
    {
        Display { memory: [false; 2048] }
    }

    /// Turns every pixel off.
    pub fn clear(&mut self)
        ensures
            final(self)@ == blank(),
    {
        for x in 0..DISPLAY_WIDTH
            invariant
                forall|px: int, py: int|
                    0 <= px < x && 0 <= py < 32 ==> !#[trigger] self@[px + py * 64],
        {
            for y in 0..DISPLAY_HEIGHT
                invariant
                    x < 64,
                    forall|px: int, py: int|
                        0 <= px < x && 0 <= py < 32 ==> !#[trigger] self@[px + py * 64],
                    forall|py: int| 0 <= py < y ==> !#[trigger] self@[x + py * 64],
            {
                self.set_pixel(x, y, false);
            }
        }
        assert forall|p: int| 0 <= p < 2048 implies !self@[p] by {
            assert(p == p % 64 + (p / 64) * 64);
        }
    }

    /// Draws a sprite at (`x`, `y`): each set bit of each row flips the pixel
    /// it falls on, the rows going down from `y` and the bits of a row going
    /// right from `x`, most significant first. Says whether a lit pixel was
    /// turned off.
    pub fn draw(&mut self, x: usize, y: usize, sprite: &[u8]) -> (collision: bool)
        ensures
            final(self)@ == draw_spec(old(self)@, x as int, y as int, sprite@),
            collision == collision_spec(old(self)@, x as int, y as int, sprite@),
    {
        let ghost before = self@;
        let rows = sprite.len();
        let mut collision = false;
        let mut j: usize = 0;
        while j < rows
            invariant
                j <= rows == sprite@.len(),
                self@ == draw_prefix(before, x as int, y as int, sprite@, (8 * j) as nat),
                collision == collides_before(before, x as int, y as int, sprite@, 8 * j),
            decreases rows - j,
        {
            let row = sprite[j];
            let mut i: usize = 0;
            while i < 8
                invariant
                    i <= 8,
                    j < rows == sprite@.len(),
                    row == sprite@[j as int],
                    self@ == draw_prefix(before, x as int, y as int, sprite@, (8 * j + i) as nat),
                    collision == collides_before(
                        before,
                        x as int,
                        y as int,
                        sprite@,
                        8 * j + i,
                    ),
                decreases 8 - i,
            {
                let ghost k = 8 * j + i;
                proof {
                    assert(k / 8 == j && k % 8 == i);
                    lemma_target(x as int, y as int, k);
                    lemma_draw_step(before, x as int, y as int, sprite@, k);
                    lemma_collides_step(before, x as int, y as int, sprite@, k);
                }
                let new_value = row >> (7 - i) & 0x01;
                assert((new_value == 1) == sprite_bit_at(sprite@, k));
                if new_value == 1 {
                    let xi = (x % DISPLAY_WIDTH + i) % DISPLAY_WIDTH;
                    let yj = (y % DISPLAY_HEIGHT + j % DISPLAY_HEIGHT) % DISPLAY_HEIGHT;
                    assert(xi + yj * 64 == target(x as int, y as int, k));
                    let old_value = self.get_pixel(xi, yj);
                    assert(old_value == collides_at(before, x as int, y as int, sprite@, k));
                    if old_value {
                        collision = true;
                    }
                    self.set_pixel(xi, yj, (new_value == 1) ^ old_value);
                } else {
                    assert(!collides_at(before, x as int, y as int, sprite@, k));
                }
                i += 1;
            }
            j += 1;
        }
        collision
    }

    /// Sets the pixel at place `x + 64 * y` of the framebuffer.
    pub fn set_pixel(&mut self, x: usize, y: usize, state: bool)
        requires
            x + y * 64 < 2048,
        ensures
            final(self)@ == old(self)@.update(x + y * 64, state),
    {
        self.memory[x + y * DISPLAY_WIDTH] = state;
    }

    /// The pixel at place `x + 64 * y` of the framebuffer.
    pub fn get_pixel(&mut self, x: usize, y: usize) -> (state: bool)
        requires
            x + y * 64 < 2048,
        ensures
            state == old(self)@[x + y * 64],
            *final(self) == *old(self),
    {
        self.memory[x + y * DISPLAY_WIDTH]
    }
}

/// The colour in which a host shows a pixel, as red, green, blue and alpha:
/// an opaque cyan for a lit pixel, a faint black for a dark one.
pub fn color(value: bool) -> (rgba: (u8, u8, u8, u8))
    ensures
        rgba == if value {
            (0u8, 204u8, 204u8, 255u8)
        } else {
            (0u8, 0u8, 0u8, 51u8)
        },
{
    if value {
        (0, 204, 204, 255)
    } else {
        (0, 0, 0, 51)
    }
}

/// Pixel that bit `k` of a sprite drawn at (`x`, `y`) falls on, by column
/// and row.
pub proof fn lemma_target(x: int, y: int, k: int)
    requires
        0 <= x,
        0 <= y,
        0 <= k,
    ensures
        target(x, y, k) == (x % 64 + k % 8) % 64 + ((y % 32 + (k / 8) % 32) % 32) * 64,
        0 <= target(x, y, k) < 2048,
{
    let c = k % 8;
    let r = k / 8;
    assert((x + c) % 64 == (x % 64 + c) % 64);
    assert((y + r) % 32 == (y % 32 + r % 32) % 32);
}

/// Drawing one more bit of the sprite flips the pixel it falls on if the bit
/// is set, and changes nothing if it is not.
pub proof fn lemma_draw_step(pixels: Seq<bool>, x: int, y: int, sprite: Seq<u8>, k: int)
    requires
        0 <= k,
    ensures
        draw_prefix(pixels, x, y, sprite, (k + 1) as nat) == if sprite_bit_at(sprite, k) && 0
            <= target(x, y, k) < pixels.len() {
            let shown = draw_prefix(pixels, x, y, sprite, k as nat);
            shown.update(target(x, y, k), !shown[target(x, y, k)])
        } else {
            draw_prefix(pixels, x, y, sprite, k as nat)
        },
{
    let shown = draw_prefix(pixels, x, y, sprite, k as nat);
    let next = draw_prefix(pixels, x, y, sprite, (k + 1) as nat);
    let t = target(x, y, k);
    assert forall|p: int| 0 <= p < pixels.len() implies next[p] == (if sprite_bit_at(sprite, k)
        && t == p {
        !shown[p]
    } else {
        shown[p]
    }) by {
        assert(flipped(x, y, sprite, (k + 1) as nat, p) == (if sprite_bit_at(sprite, k) && t == p {
            !flipped(x, y, sprite, k as nat, p)
        } else {
            flipped(x, y, sprite, k as nat, p)
        }));
    }
    if sprite_bit_at(sprite, k) && 0 <= t < pixels.len() {
        assert(next =~= shown.update(t, !shown[t]));
    } else {
        assert(next =~= shown);
    }
}

/// One of the first `k + 1` bits collides if one of the first `k` does, or
/// bit `k` itself.
pub proof fn lemma_collides_step(pixels: Seq<bool>, x: int, y: int, sprite: Seq<u8>, k: int)
    requires
        0 <= k,
    ensures
        collides_before(pixels, x, y, sprite, k + 1) == (collides_before(pixels, x, y, sprite, k)
            || collides_at(pixels, x, y, sprite, k)),
{
    if collides_before(pixels, x, y, sprite, k + 1) {
        let w = choose|w: int| 0 <= w < k + 1 && collides_at(pixels, x, y, sprite, w);
        if w < k {
            assert(collides_before(pixels, x, y, sprite, k));
        }
    }
    if collides_before(pixels, x, y, sprite, k) {
        let w = choose|w: int| 0 <= w < k && collides_at(pixels, x, y, sprite, w);
        assert(0 <= w < k + 1 && collides_at(pixels, x, y, sprite, w));
    }
    if collides_at(pixels, x, y, sprite, k) {
        assert(0 <= k < k + 1 && collides_at(pixels, x, y, sprite, k));
    }
}

/// Whether bit `k` of the sprite is set and falls on pixel `p`.
pub open spec fn hits(x: int, y: int, sprite: Seq<u8>, k: int, p: int) -> bool {
    sprite_bit_at(sprite, k) && target(x, y, k) == p
}

/// Whether one of the first `k` bits of the sprite is set and falls on pixel
/// `p`.
pub open spec fn hit_before(x: int, y: int, sprite: Seq<u8>, k: int, p: int) -> bool {
    exists|j: int| 0 <= j < k && hits(x, y, sprite, j, p)
}

/// No two of the bits of 32 rows fall on the same pixel.
pub proof fn lemma_target_injective(x: int, y: int, j: int, k: int)
    requires
        0 <= x,
        0 <= y,
        0 <= j < k < 256,
    ensures
        target(x, y, j) != target(x, y, k),
{
    lemma_target(x, y, j);
    lemma_target(x, y, k);
    let cj = (x % 64 + j % 8) % 64;
    let ck = (x % 64 + k % 8) % 64;
    let rj = (y % 32 + (j / 8) % 32) % 32;
    let rk = (y % 32 + (k / 8) % 32) % 32;
    if j / 8 == k / 8 {
        assert(j % 8 != k % 8);
        assert(cj != ck);
    } else {
        assert(0 <= j / 8 < 32 && 0 <= k / 8 < 32);
        assert(rj != rk);
    }
}

/// Among the bits of 32 rows, a pixel is hit an odd number of times if and
/// only if it is hit at all.
pub proof fn lemma_flipped_once(x: int, y: int, sprite: Seq<u8>, k: int, p: int)
    requires
        0 <= x,
        0 <= y,
        0 <= k <= 256,
    ensures
        flipped(x, y, sprite, k as nat, p) == hit_before(x, y, sprite, k, p),
    decreases k,
{
    if k > 0 {
        lemma_flipped_once(x, y, sprite, k - 1, p);
        if hits(x, y, sprite, k - 1, p) {
            assert forall|j: int| 0 <= j < k - 1 implies !hits(x, y, sprite, j, p) by {
                lemma_target_injective(x, y, j, k - 1);
            }
            assert(hit_before(x, y, sprite, k, p));
        } else if hit_before(x, y, sprite, k, p) {
            let j = choose|j: int| 0 <= j < k && hits(x, y, sprite, j, p);
            assert(0 <= j < k - 1 && hits(x, y, sprite, j, p));
        } else if hit_before(x, y, sprite, k - 1, p) {
            let j = choose|j: int| 0 <= j < k - 1 && hits(x, y, sprite, j, p);
            assert(0 <= j < k && hits(x, y, sprite, j, p));
        }
    }
}

/// A sprite of at most 32 rows covers no pixel twice. Drawing it flips
/// exactly the pixels under its set bits, and it collides if and only if one
/// of those pixels was lit before the draw.
pub proof fn lemma_draw_short_sprite(pixels: Seq<bool>, x: int, y: int, sprite: Seq<u8>)
    requires
        pixels.len() == 2048,
        0 <= x,
        0 <= y,
        sprite.len() <= 32,
    ensures
        forall|p: int|
            0 <= p < 2048 ==> #[trigger] draw_spec(pixels, x, y, sprite)[p] == (pixels[p]
                != hit_before(x, y, sprite, 8 * (sprite.len() as int), p)),
        collision_spec(pixels, x, y, sprite) == (exists|k: int|
            0 <= k < 8 * sprite.len() && #[trigger] sprite_bit_at(sprite, k) && pixels[target(
                x,
                y,
                k,
            )]),
{
    let n = 8 * sprite.len();
    assert forall|p: int| 0 <= p < 2048 implies #[trigger] draw_spec(pixels, x, y, sprite)[p] == (
    pixels[p] != hit_before(x, y, sprite, n as int, p)) by {
        lemma_flipped_once(x, y, sprite, n as int, p);
    }
    assert forall|k: int| 0 <= k < n implies collides_at(pixels, x, y, sprite, k) == (
    sprite_bit_at(sprite, k) && pixels[target(x, y, k)]) by {
        let t = target(x, y, k);
        lemma_target(x, y, k);
        lemma_flipped_once(x, y, sprite, k, t);
        if hit_before(x, y, sprite, k, t) {
            let j = choose|j: int| 0 <= j < k && hits(x, y, sprite, j, t);
            lemma_target_injective(x, y, j, k);
        }
    }
    if collision_spec(pixels, x, y, sprite) {
        let k = choose|k: int| 0 <= k < n && collides_at(pixels, x, y, sprite, k);
        assert(sprite_bit_at(sprite, k) && pixels[target(x, y, k)]);
    }
    if exists|k: int|
        0 <= k < n && #[trigger] sprite_bit_at(sprite, k) && pixels[target(x, y, k)] {
        let k = choose|k: int|
            0 <= k < n && #[trigger] sprite_bit_at(sprite, k) && pixels[target(x, y, k)];
        assert(collides_at(pixels, x, y, sprite, k));
    }
}

/// Drawing a sprite twice at the same place leaves the framebuffer as it was.
pub proof fn lemma_draw_twice_restores(pixels: Seq<bool>, x: int, y: int, sprite: Seq<u8>)
    ensures
        draw_spec(draw_spec(pixels, x, y, sprite), x, y, sprite) == pixels,
{
    assert(draw_spec(draw_spec(pixels, x, y, sprite), x, y, sprite) =~= pixels);
}

} // verus!
