use vstd::prelude::*;

verus! {

pub const CHIP8_SCREEN_WIDTH: usize = 64;

pub const CHIP8_SCREEN_HEIGHT: usize = 32;

/// Number of pixels of the display.
pub const DISPLAY_SIZE: usize = 2048;

/// Whether column `col` (0 = leftmost) of one sprite row is set; the most
/// significant bit is drawn first.
pub open spec fn sprite_bit(row_bits: u8, col: int) -> bool {
    row_bits & (0x80u8 >> (col as u8)) != 0u8
}

/// Whether the position (px, py) lies on the display.
pub open spec fn on_grid(px: int, py: int) -> bool {
    0 <= px < CHIP8_SCREEN_WIDTH && 0 <= py < CHIP8_SCREEN_HEIGHT
}

/// Index of the on-grid position (px, py) in the row-major pixel sequence.
pub open spec fn pixel_index(px: int, py: int) -> int {
    py * CHIP8_SCREEN_WIDTH + px
}

/// Whether drawing `sprite` at (x, y) flips the pixel at (px, py).
pub open spec fn flips(x: int, y: int, sprite: Seq<u8>, px: int, py: int) -> bool {
    x <= px < x + 8 && y <= py < y + sprite.len() && sprite_bit(sprite[py - y], px - x)
}

/// The pixel at (px, py) after `sprite` is exclusive-ored onto `pixels` at (x, y).
pub open spec fn drawn_pixel(pixels: Seq<bool>, x: int, y: int, sprite: Seq<u8>, px: int, py: int) -> bool {
    if flips(x, y, sprite, px, py) {
        !pixels[pixel_index(px, py)]
    } else {
        pixels[pixel_index(px, py)]
    }
}

/// The pixels after `sprite` is exclusive-ored onto `pixels` at (x, y);
/// sprite positions off the grid are discarded.
pub open spec fn draw_pixels(pixels: Seq<bool>, x: int, y: int, sprite: Seq<u8>) -> Seq<bool> {
    Seq::new(
        DISPLAY_SIZE as nat,
        |k: int| drawn_pixel(pixels, x, y, sprite, k % CHIP8_SCREEN_WIDTH as int, k / CHIP8_SCREEN_WIDTH as int),
    )
}

/// Whether sprite position (row, col) collides: it lies off the grid, or it is
/// a set bit that lands on a lit pixel.
pub open spec fn collides_at(pixels: Seq<bool>, x: int, y: int, sprite: Seq<u8>, row: int, col: int) -> bool {
    !on_grid(x + col, y + row) || (sprite_bit(sprite[row], col) && pixels[pixel_index(x + col, y + row)])
}

/// Whether drawing `sprite` at (x, y) onto `pixels` reports a collision.
pub open spec fn draw_collision(pixels: Seq<bool>, x: int, y: int, sprite: Seq<u8>) -> bool {
    exists|row: int, col: int|
        0 <= row < sprite.len() && 0 <= col < 8 && #[trigger] collides_at(pixels, x, y, sprite, row, col)
}

/// Position (row, col) of a sprite comes before the cursor (cur_row, cur_col)
/// in drawing order.
pub open spec fn visited(row: int, col: int, cur_row: int, cur_col: int) -> bool {
    row < cur_row || (row == cur_row && col < cur_col)
}

/// The monochrome 64 x 32 framebuffer, with its dirty flag.
pub struct Chip8Graphics {
    pub memory: Vec<bool>,
    pub dirty: bool,
}

proof fn lemma_index_split(px: int, py: int)
    requires
        0 <= px < 64,
        0 <= py,
    ensures
        (py * 64 + px) % 64 == px,
        (py * 64 + px) / 64 == py,
{
    vstd::arithmetic::div_mod::lemma_fundamental_div_mod_converse(py * 64 + px, 64, py, px);
}

impl Chip8Graphics {
    pub open spec fn wf(&self) -> bool {
        self.memory@.len() == DISPLAY_SIZE
    }

    /// A blank display, marked dirty so that the first frame is shown.
    pub fn new() -> (r: Chip8Graphics)
        ensures
            r.wf(),
            r.dirty,
            forall|k: int| 0 <= k < DISPLAY_SIZE ==> !r.memory@[k],
    {
        let mut memory: Vec<bool> = Vec::new();
        let mut k: usize = 0;
        while k < DISPLAY_SIZE
            invariant
                k <= DISPLAY_SIZE,
                memory@.len() == k,
                forall|j: int| 0 <= j < k ==> !memory@[j],
            decreases DISPLAY_SIZE - k,
        {
            memory.push(false);
            k = k + 1;
        }
        Chip8Graphics { memory, dirty: true }
    }

    /// Turns every pixel off and marks the display dirty.
    pub fn clear(&mut self)
        requires
            old(self).wf(),
        ensures
            final(self).wf(),
            final(self).dirty,
            forall|k: int| 0 <= k < DISPLAY_SIZE ==> !final(self).memory@[k],
    {
        let mut k: usize = 0;
        while k < DISPLAY_SIZE
            invariant
                k <= DISPLAY_SIZE,
                self.memory@.len() == DISPLAY_SIZE,
                forall|j: int| 0 <= j < k ==> !self.memory@[j],
            decreases DISPLAY_SIZE - k,
        {
            self.memory.set(k, false);
            k = k + 1;
        }
        self.dirty = true;
    }

    /// Whether the pixel at (x, y) is lit.
    pub fn get_pixel_value(&self, x: usize, y: usize) -> (r: bool)
        requires
            self.wf(),
            x < CHIP8_SCREEN_WIDTH,
            y < CHIP8_SCREEN_HEIGHT,
        ensures
            r == self.memory@[pixel_index(x as int, y as int)],
    {
        self.memory[self.get_index(x, y)]
    }

    /// Row-major index of the pixel at (x, y).
    pub fn get_index(&self, x: usize, y: usize) -> (r: usize)
        requires
            x < CHIP8_SCREEN_WIDTH,
            y < CHIP8_SCREEN_HEIGHT,
        ensures
            r == pixel_index(x as int, y as int),
            r < DISPLAY_SIZE,
    {
        y * CHIP8_SCREEN_WIDTH + x
    }

    /// Exclusive-ors the sprite `memory[mem_location .. mem_location + length]`
    /// onto the display with its top-left corner at (x, y), one byte per row,
    /// and marks the display dirty. Returns whether a collision occurred.
    pub fn draw_sprite(&mut self, memory: &Vec<u8>, x: usize, y: usize, mem_location: u16, length: u8) -> (collision: bool)
        requires
            old(self).wf(),
            mem_location + length <= memory@.len(),
        ensures
            final(self).wf(),
            final(self).dirty,
            final(self).memory@ == draw_pixels(
                old(self).memory@,
                x as int,
                y as int,
                memory@.subrange(mem_location as int, mem_location + length),
            ),
            collision == draw_collision(
                old(self).memory@,
                x as int,
                y as int,
                memory@.subrange(mem_location as int, mem_location + length),
            ),
    {
        let ghost orig = self.memory@;
        let ghost sprite = memory@.subrange(mem_location as int, mem_location + length);
        let ghost xi = x as int;
        let ghost yi = y as int;
        let mut collision = false;
        let mut row: u8 = 0;
        while row < length
            invariant
                self.wf(),
                orig.len() == DISPLAY_SIZE,
                sprite.len() == length,
                xi == x as int,
                yi == y as int,
                row <= length,
                mem_location + length <= memory@.len(),
                sprite == memory@.subrange(mem_location as int, mem_location + length),
                forall|px: int, py: int|
                    on_grid(px, py) ==> #[trigger] self.memory@[pixel_index(px, py)] == (if flips(xi, yi, sprite, px, py)
                        && visited(py - yi, px - xi, row as int, 0) {
                        !orig[pixel_index(px, py)]
                    } else {
                        orig[pixel_index(px, py)]
                    }),
                collision == exists|r: int, c: int|
                    0 <= r < sprite.len() && 0 <= c < 8 && visited(r, c, row as int, 0)
                        && #[trigger] collides_at(orig, xi, yi, sprite, r, c),
            decreases length - row,
        {
            let row_bits = memory[mem_location as usize + row as usize];
            assert(row_bits == sprite[row as int]);
            let mut col: u8 = 0;
            while col < 8
                invariant
                    self.wf(),
                    orig.len() == DISPLAY_SIZE,
                    sprite.len() == length,
                    xi == x as int,
                    yi == y as int,
                    row < length,
                    col <= 8,
                    row_bits == sprite[row as int],
                    forall|px: int, py: int|
                        on_grid(px, py) ==> #[trigger] self.memory@[pixel_index(px, py)] == (if flips(xi, yi, sprite, px, py)
                            && visited(py - yi, px - xi, row as int, col as int) {
                            !orig[pixel_index(px, py)]
                        } else {
                            orig[pixel_index(px, py)]
                        }),
                    collision == exists|r: int, c: int|
                        0 <= r < sprite.len() && 0 <= c < 8 && visited(r, c, row as int, col as int)
                            && #[trigger] collides_at(orig, xi, yi, sprite, r, c),
                decreases 8 - col,
            {
                let bit = row_bits & (0x80u8 >> col) != 0u8;
                assert(bit == sprite_bit(sprite[row as int], col as int));
                let ghost hit = collides_at(orig, xi, yi, sprite, row as int, col as int);
                if x < CHIP8_SCREEN_WIDTH - (col as usize) && (row as usize) < CHIP8_SCREEN_HEIGHT && y
                    < CHIP8_SCREEN_HEIGHT - (row as usize) {
                    let px = x + col as usize;
                    let py = y + row as usize;
                    let idx = self.get_index(px, py);
                    let lit = self.memory[idx];
                    assert(on_grid(px as int, py as int));
                    assert(!visited(py - yi, px - xi, row as int, col as int));
                    assert(self.memory@[pixel_index(px as int, py as int)] == orig[pixel_index(px as int, py as int)]);
                    if bit {
                        if lit {
                            collision = true;
                        }
                        self.memory.set(idx, !lit);
                    }
                    assert(hit == (bit && lit));
                } else {
                    collision = true;
                    assert(hit);
                }
                col = col + 1;
            }
            row = row + 1;
        }
        proof {
            assert forall|k: int| 0 <= k < DISPLAY_SIZE implies self.memory@[k] == draw_pixels(orig, xi, yi, sprite)[k] by {
                let px = k % 64;
                let py = k / 64;
                lemma_index_split(px, py);
                assert(k == pixel_index(px, py));
                assert(on_grid(px, py));
            }
            assert(self.memory@ =~= draw_pixels(orig, xi, yi, sprite));
        }
        self.dirty = true;
        collision
    }
}

/// Drawing the same sprite twice at the same place restores every pixel to
/// its value before the first draw.
pub proof fn lemma_draw_twice_restores(pixels: Seq<bool>, x: int, y: int, sprite: Seq<u8>)
    requires
        pixels.len() == DISPLAY_SIZE,
    ensures
        draw_pixels(draw_pixels(pixels, x, y, sprite), x, y, sprite) == pixels,
{
    let once = draw_pixels(pixels, x, y, sprite);
    assert forall|k: int| 0 <= k < DISPLAY_SIZE implies #[trigger] draw_pixels(once, x, y, sprite)[k] == pixels[k] by {
        let px = k % 64;
        let py = k / 64;
        vstd::arithmetic::div_mod::lemma_fundamental_div_mod(k, 64);
        lemma_index_split(px, py);
        assert(pixel_index(px, py) == k);
    }
    assert(draw_pixels(once, x, y, sprite) =~= pixels);
}

/// A sprite that reaches past the edge of the display collides on every
/// draw, so a second draw at the same place reports what the first did.
pub proof fn lemma_draw_off_grid_collides(pixels: Seq<bool>, x: int, y: int, sprite: Seq<u8>)
    requires
        pixels.len() == DISPLAY_SIZE,
        0 <= x,
        0 <= y,
        sprite.len() > 0,
        x + 8 > CHIP8_SCREEN_WIDTH || y + sprite.len() > CHIP8_SCREEN_HEIGHT,
    ensures
        draw_collision(pixels, x, y, sprite),
        draw_collision(draw_pixels(pixels, x, y, sprite), x, y, sprite),
{
    let once = draw_pixels(pixels, x, y, sprite);
    if x + 8 > CHIP8_SCREEN_WIDTH {
        assert(collides_at(pixels, x, y, sprite, 0, 7));
        assert(collides_at(once, x, y, sprite, 0, 7));
    } else {
        let last = sprite.len() - 1;
        assert(collides_at(pixels, x, y, sprite, last, 0));
        assert(collides_at(once, x, y, sprite, last, 0));
    }
}

} // verus!
