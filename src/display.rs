use vstd::prelude::*;

verus! {

/// Width of the screen in pixels.
pub const WIDTH: usize = 64;

/// Height of the screen in pixels.
pub const HEIGHT: usize = 32;

/// Number of pixels on the screen, `WIDTH * HEIGHT`.
pub const PIXELS: usize = 2048;

/// Whether column `col` of a sprite row is set; column 0 is the most
/// significant bit.
pub open spec fn sprite_bit(row: u8, col: int) -> bool {
    (row >> ((7 - col) as u8)) & 1u8 == 1u8
}

/// Whether drawing `sprite` with its top-left corner at `(x0, y0)` (already
/// wrapped onto the screen) flips the pixel at `(px, py)`. Rows and columns
/// that would fall beyond the right or bottom edge are clipped.
pub open spec fn lit_by(x0: int, y0: int, sprite: Seq<u8>, px: int, py: int) -> bool {
    &&& x0 <= px < x0 + 8
    &&& px < WIDTH
    &&& y0 <= py < y0 + sprite.len()
    &&& py < HEIGHT
    &&& sprite_bit(sprite[py - y0], px - x0)
}

/// Whether the pixel with row-major index `k` is flipped by drawing `sprite`
/// at `(x, y)`; the origin wraps around the screen once.
pub open spec fn flipped(x: int, y: int, sprite: Seq<u8>, k: int) -> bool {
    lit_by(x % (WIDTH as int), y % (HEIGHT as int), sprite, k % (WIDTH as int), k / (WIDTH as int))
}

/// The screen after XOR-drawing `sprite` at `(x, y)`.
pub open spec fn drawn(screen: Seq<bool>, x: int, y: int, sprite: Seq<u8>) -> Seq<bool> {
    Seq::new(PIXELS as nat, |k: int| screen[k] != flipped(x, y, sprite, k))
}

/// Whether drawing `sprite` at `(x, y)` turns off a pixel that was on.
pub open spec fn collides(screen: Seq<bool>, x: int, y: int, sprite: Seq<u8>) -> bool {
    exists|k: int| 0 <= k < PIXELS && screen[k] && #[trigger] flipped(x, y, sprite, k)
}

/// The screen with every pixel off.
pub open spec fn blank() -> Seq<bool> {
    Seq::new(PIXELS as nat, |k: int| false)
}

/// Whether pixel `k` lies before column `col` of row `row` in row-major order.
spec fn before(k: int, row: int, col: int) -> bool {
    k / (WIDTH as int) < row || (k / (WIDTH as int) == row && k % (WIDTH as int) < col)
}

proof fn lemma_pixel_index(row: int, col: int)
    requires
        0 <= row < HEIGHT,
        0 <= col < WIDTH,
    ensures
        (row * WIDTH + col) / (WIDTH as int) == row,
        (row * WIDTH + col) % (WIDTH as int) == col,
        0 <= row * WIDTH + col < PIXELS,
{
    vstd::arithmetic::div_mod::lemma_fundamental_div_mod_converse(
        row * WIDTH + col,
        (WIDTH as int),
        row,
        col,
    );
}

/// Drawing a sprite twice at the same place gives back the screen as it was.
pub proof fn lemma_redraw_restores(screen: Seq<bool>, x: int, y: int, sprite: Seq<u8>)
    requires
        screen.len() == PIXELS,
    ensures
        drawn(drawn(screen, x, y, sprite), x, y, sprite) == screen,
{
    assert(drawn(drawn(screen, x, y, sprite), x, y, sprite) =~= screen);
}

/// On a blank screen, drawing a sprite twice at the same place turns every
/// pixel off again, and the second draw reports a collision exactly when the
/// sprite lit any pixel.
pub proof fn lemma_draw_twice_on_blank(x: int, y: int, sprite: Seq<u8>)
    ensures
        drawn(drawn(blank(), x, y, sprite), x, y, sprite) == blank(),
        collides(drawn(blank(), x, y, sprite), x, y, sprite) == exists|k: int|
            0 <= k < PIXELS && #[trigger] flipped(x, y, sprite, k),
{
    lemma_redraw_restores(blank(), x, y, sprite);
    let once = drawn(blank(), x, y, sprite);
    if exists|k: int| 0 <= k < PIXELS && #[trigger] flipped(x, y, sprite, k) {
        let k = choose|k: int| 0 <= k < PIXELS && #[trigger] flipped(x, y, sprite, k);
        assert(once[k]);
    }
}

/// On a blank screen, a second sprite that flips none of the pixels that a
/// first one flipped reports no collision.
pub proof fn lemma_disjoint_sprites_do_not_collide(
    x1: int,
    y1: int,
    first: Seq<u8>,
    x2: int,
    y2: int,
    second: Seq<u8>,
)
    requires
        forall|k: int|
            0 <= k < PIXELS ==> !(#[trigger] flipped(x1, y1, first, k) && flipped(x2, y2, second, k)),
    ensures
        !collides(drawn(blank(), x1, y1, first), x2, y2, second),
{
}

/// Drawing never touches a pixel left of the wrapped origin column, nor
/// above the wrapped origin row: what would fall beyond the right or bottom
/// edge is dropped rather than wrapped round.
pub proof fn lemma_draw_clips_at_edges(screen: Seq<bool>, x: int, y: int, sprite: Seq<u8>)
    requires
        screen.len() == PIXELS,
    ensures
        forall|k: int|
            0 <= k < PIXELS && #[trigger] drawn(screen, x, y, sprite)[k] != screen[k] ==> {
                &&& x % (WIDTH as int) <= k % (WIDTH as int) < x % (WIDTH as int) + 8
                &&& y % (HEIGHT as int) <= k / (WIDTH as int) < y % (HEIGHT as int) + sprite.len()
            },
{
}

/// The text that `Display::debug_text` gives for `screen`: for each column
/// `x`, the pixels `(x, 0)` to `(x, HEIGHT - 1)` as `#` or space, then a newline.
pub open spec fn debug_text_of(screen: Seq<bool>) -> Seq<u8> {
    Seq::new(
        (WIDTH * (HEIGHT + 1)) as nat,
        |k: int|
            {
                let x = k / (HEIGHT as int + 1);
                let y = k % (HEIGHT as int + 1);
                if y == HEIGHT as int {
                    0x0Au8
                } else if screen[y * WIDTH as int + x] {
                    0x23u8
                } else {
                    0x20u8
                }
            },
    )
}

proof fn lemma_text_index(x: int, y: int)
    requires
        0 <= x < WIDTH,
        0 <= y <= HEIGHT,
    ensures
        (x * (HEIGHT as int + 1) + y) / (HEIGHT as int + 1) == x,
        (x * (HEIGHT as int + 1) + y) % (HEIGHT as int + 1) == y,
        x * (HEIGHT as int + 1) + y < WIDTH * (HEIGHT + 1),
{
    vstd::arithmetic::div_mod::lemma_fundamental_div_mod_converse(
        x * (HEIGHT as int + 1) + y,
        HEIGHT as int + 1,
        x,
        y,
    );
    assert(x * (HEIGHT as int + 1) + y < WIDTH * (HEIGHT + 1)) by (nonlinear_arith)
        requires
            0 <= x < WIDTH,
            0 <= y <= HEIGHT,
    ;
}

/// A 64x32 monochrome bitmap, row-major.
pub struct Display {
    pub display: [bool; PIXELS],
}

impl Display {
    /// A screen with every pixel off.
    pub fn new() -> (d: Self)
        ensures
            d.display@ == blank(),
    {
        let d = Display { display: [false; PIXELS] };
        assert(d.display@ =~= blank());
        d
    }

    /// Turns every pixel off.
    pub fn clear(&mut self)
        ensures
            final(self).display@ == blank(),
    {
        self.display = [false; PIXELS];
        assert(self.display@ =~= blank());
    }

    fn at(&self, x: usize, y: usize) -> (on: bool)
        ensures
            on == self.display@[(y % HEIGHT) as int * WIDTH + (x % WIDTH) as int],
    {
        let x = x % WIDTH;
        let y = y % HEIGHT;
        proof {
            lemma_pixel_index(y as int, x as int);
        }
        self.display[y * WIDTH + x]
    }

    fn set(&mut self, x: usize, y: usize, val: bool)
        ensures
            final(self).display@ == old(self).display@.update(
                (y % HEIGHT) as int * WIDTH + (x % WIDTH) as int,
                val,
            ),
    {
        let x = x % WIDTH;
        let y = y % HEIGHT;
        proof {
            lemma_pixel_index(y as int, x as int);
        }
        self.display[y * WIDTH + x] = val;
    }

    /// XOR-draws `sprite` with its top-left corner at `(x, y)`: one byte per
    /// row, most significant bit leftmost. The origin wraps around the screen;
    /// what would fall beyond the right or bottom edge is dropped. Returns
    /// whether a pixel that was on has been turned off.
    pub fn draw(&mut self, x: usize, y: usize, sprite: &[u8]) -> (collision: bool)
        ensures
            final(self).display@ == drawn(old(self).display@, x as int, y as int, sprite@),
            collision == collides(old(self).display@, x as int, y as int, sprite@),
    {
        let ghost screen = self.display@;
        let x0 = x % WIDTH;
        let y0 = y % HEIGHT;
        let mut vf = false;
        let rows = sprite.len();
        let mut i: usize = 0;
        while i < rows && y0 + i < HEIGHT
            invariant
                x0 == x % WIDTH,
                y0 == y % HEIGHT,
                rows == sprite@.len(),
                i <= rows,
                y0 + i <= HEIGHT,
                self.display@ =~= Seq::new(
                    PIXELS as nat,
                    |k: int|
                        screen[k] != (before(k, y0 + i, 0) && flipped(
                            x as int,
                            y as int,
                            sprite@,
                            k,
                        )),
                ),
                vf == exists|k: int|
                    0 <= k < PIXELS && screen[k] && before(k, y0 + i, 0) && #[trigger] flipped(
                        x as int,
                        y as int,
                        sprite@,
                        k,
                    ),
            decreases rows - i,
        {
            let row = sprite[i];
            let yi = y0 + i;
            let mut col: usize = 0;
            while col < 8 && x0 + col < WIDTH
                invariant
                    x0 == x % WIDTH,
                    y0 == y % HEIGHT,
                    rows == sprite@.len(),
                    i < rows,
                    yi == y0 + i,
                    yi < HEIGHT,
                    row == sprite@[i as int],
                    col <= 8,
                    x0 + col <= WIDTH,
                    self.display@ =~= Seq::new(
                        PIXELS as nat,
                        |k: int|
                            screen[k] != (before(k, yi as int, x0 + col) && flipped(
                                x as int,
                                y as int,
                                sprite@,
                                k,
                            )),
                    ),
                    vf == exists|k: int|
                        0 <= k < PIXELS && screen[k] && before(k, yi as int, x0 + col)
                            && #[trigger] flipped(x as int, y as int, sprite@, k),
                decreases 8 - col,
            {
                let xi = x0 + col;
                let pixel = (row >> ((7 - col) as u8)) & 1u8 == 1u8;
                let ghost idx = yi * WIDTH + xi;
                proof {
                    lemma_pixel_index(yi as int, xi as int);
                    assert(flipped(x as int, y as int, sprite@, idx) == pixel);
                }
                if pixel {
                    let old_val = self.at(xi, yi);
                    self.set(xi, yi, pixel ^ old_val);
                    if old_val {
                        vf = true;
                    }
                }
                col += 1;
                proof {
                    assert forall|k: int| 0 <= k < PIXELS implies before(k, yi as int, x0 + col)
                        == (before(k, yi as int, xi as int) || k == idx) by {
                        if k != idx && k / (WIDTH as int) == yi && k % (WIDTH as int) == xi {
                            vstd::arithmetic::div_mod::lemma_fundamental_div_mod(k, (WIDTH as int));
                        }
                    }
                    if pixel && screen[idx] {
                        assert(before(idx, yi as int, x0 + col));
                    }
                }
            }
            i += 1;
            proof {
                assert forall|k: int| 0 <= k < PIXELS implies (before(k, y0 + i, 0) && flipped(
                    x as int,
                    y as int,
                    sprite@,
                    k,
                )) == (before(k, yi as int, x0 + col) && flipped(x as int, y as int, sprite@, k)) by {
                }
            }
        }
        proof {
            assert forall|k: int| 0 <= k < PIXELS implies (before(k, y0 + i, 0) && flipped(
                x as int,
                y as int,
                sprite@,
                k,
            )) == flipped(x as int, y as int, sprite@, k) by {
            }
            assert(self.display@ =~= drawn(screen, x as int, y as int, sprite@));
        }
        vf
    }

    /// The screen as text for a terminal, transposed: one line per column,
    /// top to bottom within the line, `#` (0x23) for a lit pixel and a space
    /// (0x20) for a dark one, each line ended by a newline (0x0A).
    pub fn debug_text(&self) -> (text: Vec<u8>)
        ensures
            text@ == debug_text_of(self.display@),
    {
        let mut text: Vec<u8> = Vec::new();
        let mut x: usize = 0;
        while x < WIDTH
            invariant
                x <= WIDTH,
                text@ =~= debug_text_of(self.display@).subrange(0, x * (HEIGHT + 1)),
            decreases WIDTH - x,
        {
            let mut y: usize = 0;
            while y < HEIGHT
                invariant
                    x < WIDTH,
                    y <= HEIGHT,
                    text@ =~= debug_text_of(self.display@).subrange(0, x * (HEIGHT + 1) + y),
                decreases HEIGHT - y,
            {
                proof {
                    lemma_text_index(x as int, y as int);
                    lemma_pixel_index(y as int, x as int);
                }
                if self.at(x, y) {
                    text.push(0x23);
                } else {
                    text.push(0x20);
                }
                y += 1;
            }
            proof {
                lemma_text_index(x as int, HEIGHT as int);
            }
            text.push(0x0A);
            assert((x + 1) * (HEIGHT + 1) == x * (HEIGHT + 1) + HEIGHT + 1) by (nonlinear_arith);
            x += 1;
        }
        text
    }

    /// The bitmap, row-major: pixel `(x, y)` is at index `y * WIDTH + x`.
    pub fn get(&self) -> (screen: &[bool; PIXELS])
        ensures
            screen@ == self.display@,
    {
        &self.display
    }
}

} // verus!
