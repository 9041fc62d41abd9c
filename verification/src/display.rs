use vstd::prelude::*;

verus! {

/// Width of the screen, in pixels.
pub const WIDTH: usize = 64;

/// Height of the screen, in pixels.
pub const HEIGHT: usize = 32;

/// Number of pixels on the screen.
pub const SCREEN_SIZE: usize = 2048;

/// The bit of `byte` that lands on column `col` when the byte is drawn
/// with its most significant bit at column `x`; bits that run past the
/// right edge wrap to the left edge, and columns not covered by the byte
/// get 0.
pub open spec fn sprite_bit(byte: u8, x: u8, col: int) -> u8 {
    let k = (col - x) % (WIDTH as int);
    if k < 8 {
        (byte >> ((7 - k) as u8)) & 1u8
    } else {
        0u8
    }
}

/// Pixel `p` of `screen` after `byte` is XOR-ed onto row `y` (wrapped
/// vertically) starting at column `x`.
pub open spec fn drawn_pixel(screen: Seq<u8>, byte: u8, x: u8, y: u8, p: int) -> u8 {
    if p / (WIDTH as int) == (y as int) % (HEIGHT as int) {
        screen[p] ^ sprite_bit(byte, x, p % (WIDTH as int))
    } else {
        screen[p]
    }
}

/// The screen after drawing one sprite row `byte` at `(x, y)`.
pub open spec fn draw_byte_screen(screen: Seq<u8>, byte: u8, x: u8, y: u8) -> Seq<u8> {
    Seq::new(screen.len(), |p: int| drawn_pixel(screen, byte, x, y, p))
}

/// Some pixel that was lit in `before` is dark in `after`.
pub open spec fn turns_off(before: Seq<u8>, after: Seq<u8>) -> bool {
    exists|p: int| 0 <= p < before.len() && #[trigger] before[p] == 1 && after[p] == 0
}

/// Every pixel of `screen` is 0 or 1.
pub open spec fn is_binary(screen: Seq<u8>) -> bool {
    forall|p: int| 0 <= p < screen.len() ==> #[trigger] screen[p] <= 1
}

/// A blank screen.
pub open spec fn blank_screen() -> Seq<u8> {
    Seq::new(SCREEN_SIZE as nat, |p: int| 0u8)
}

/// Row-major index of the pixel at column `x` and row `y`.
pub open spec fn index_of(x: int, y: int) -> int {
    y * (WIDTH as int) + x
}

/// The monochrome frame buffer, one byte per pixel.
pub struct Display {
    screen: [u8; 2048],
}

impl View for Display {
    type V = Seq<u8>;

    closed spec fn view(&self) -> Seq<u8> {
        self.screen@
    }
}

proof fn lemma_pixel_position(row: int, col: int)
    requires
        0 <= row,
        0 <= col < WIDTH,
    ensures
        (row * (WIDTH as int) + col) / (WIDTH as int) == row,
        (row * (WIDTH as int) + col) % (WIDTH as int) == col,
{
    assert((row * 64 + col) / 64 == row && (row * 64 + col) % 64 == col) by (nonlinear_arith)
        requires
            0 <= row,
            0 <= col < 64,
    ;
}

proof fn lemma_column_offset(x: int, k: int)
    requires
        0 <= x,
        0 <= k < 8,
    ensures
        (((x + k) % (WIDTH as int)) - x) % (WIDTH as int) == k,
{
    assert((((x + k) % 64) - x) % 64 == k) by (nonlinear_arith)
        requires
            0 <= x,
            0 <= k < 8,
    ;
}

proof fn lemma_xor_zero(b: u8)
    ensures
        b ^ 0u8 == b,
{
    assert(b ^ 0u8 == b) by (bit_vector);
}

proof fn lemma_xor_twice(a: u8, b: u8)
    ensures
        (a ^ b) ^ b == a,
{
    assert((a ^ b) ^ b == a) by (bit_vector);
}

proof fn lemma_sprite_bit_binary(byte: u8, x: u8, col: int)
    ensures
        sprite_bit(byte, x, col) <= 1,
{
    let k = (col - x) % (WIDTH as int);
    if k < 8 {
        let s = (7 - k) as u8;
        assert((byte >> s) & 1u8 <= 1) by (bit_vector);
    }
}

/// Drawing the same sprite row twice at the same place gives back the
/// screen it started from.
pub proof fn lemma_draw_twice_restores(screen: Seq<u8>, byte: u8, x: u8, y: u8)
    ensures
        draw_byte_screen(draw_byte_screen(screen, byte, x, y), byte, x, y) == screen,
{
    let once = draw_byte_screen(screen, byte, x, y);
    let twice = draw_byte_screen(once, byte, x, y);
    assert forall|p: int| 0 <= p < screen.len() implies twice[p] == screen[p] by {
        lemma_xor_twice(screen[p], sprite_bit(byte, x, p % (WIDTH as int)));
    }
    assert(twice =~= screen);
}

/// Drawing `byte` at `(x, y)` flips, in row `y % 32`, the pixel at column
/// `(x + k) % 64` exactly when bit `7 - k` of `byte` is set, for `k < 8`;
/// every other pixel keeps its value.
pub proof fn lemma_draw_byte_pixels(screen: Seq<u8>, byte: u8, x: u8, y: u8)
    requires
        screen.len() == SCREEN_SIZE,
    ensures
        ({
            let after = draw_byte_screen(screen, byte, x, y);
            &&& after.len() == SCREEN_SIZE
            &&& forall|k: int|
                0 <= k < 8 ==> after[#[trigger] index_of((x + k) % 64, (y as int) % 32)] == screen[index_of(
                    (x + k) % 64,
                    (y as int) % 32,
                )] ^ ((byte >> ((7 - k) as u8)) & 1u8)
            &&& forall|p: int|
                0 <= p < SCREEN_SIZE && (forall|k: int|
                    0 <= k < 8 ==> p != #[trigger] index_of((x + k) % 64, (y as int) % 32)) ==> #[trigger] after[p]
                    == screen[p]
        }),
{
    let after = draw_byte_screen(screen, byte, x, y);
    assert forall|k: int| 0 <= k < 8 implies after[#[trigger] index_of((x + k) % 64, (y as int) % 32)]
        == screen[index_of((x + k) % 64, (y as int) % 32)] ^ ((byte >> ((7 - k) as u8)) & 1u8) by {
        let col = (x + k) % 64;
        let row = (y as int) % 32;
        assert(0 <= col < 64 && 0 <= row < 32) by (nonlinear_arith)
            requires
                col == (x + k) % 64,
                row == (y as int) % 32,
                0 <= x,
                0 <= y,
                0 <= k,
        ;
        lemma_pixel_position(row as int, col as int);
        lemma_column_offset(x as int, k);
    }
    assert forall|p: int|
        0 <= p < SCREEN_SIZE && (forall|k: int|
            0 <= k < 8 ==> p != #[trigger] index_of((x + k) % 64, (y as int) % 32)) implies #[trigger] after[p]
        == screen[p] by {
        if p / 64 == (y as int) % 32 {
            let col = p % 64;
            let kk = (col - x) % 64;
            assert(0 <= col < 64 && 0 <= kk < 64) by (nonlinear_arith)
                requires
                    0 <= p,
                    col == p % 64,
                    kk == (col - x) % 64,
            ;
            if kk < 8 {
                assert(col == (x + kk) % 64) by (nonlinear_arith)
                    requires
                        0 <= col < 64,
                        kk == (col - x) % 64,
                        0 <= x,
                ;
                assert(p == (p / 64) * 64 + p % 64) by (nonlinear_arith);
                assert(p != index_of((x + kk) % 64, (y as int) % 32));
                assert(false);
            }
            lemma_xor_zero(screen[p]);
        }
    }
}

/// Drawing keeps every pixel 0 or 1.
pub proof fn lemma_draw_keeps_binary(screen: Seq<u8>, byte: u8, x: u8, y: u8)
    requires
        is_binary(screen),
    ensures
        is_binary(draw_byte_screen(screen, byte, x, y)),
{
    let after = draw_byte_screen(screen, byte, x, y);
    assert forall|p: int| 0 <= p < after.len() implies #[trigger] after[p] <= 1 by {
        let a = screen[p];
        let b = sprite_bit(byte, x, p % (WIDTH as int));
        lemma_sprite_bit_binary(byte, x, p % (WIDTH as int));
        assert(a <= 1);
        assert(a <= 1 && b <= 1 ==> a ^ b <= 1) by (bit_vector);
    }
}

/// Drawing on a blank screen never switches a pixel off.
pub proof fn lemma_blank_never_collides(byte: u8, x: u8, y: u8)
    ensures
        !turns_off(blank_screen(), draw_byte_screen(blank_screen(), byte, x, y)),
{
}

impl Display {
    /// Every pixel is 0 or 1.
    #[verifier::type_invariant]
    spec fn pixels_are_binary(self) -> bool {
        is_binary(self.screen@)
    }

    /// The screen always holds `SCREEN_SIZE` pixels.
    pub proof fn lemma_size(&self)
        ensures
            self@.len() == SCREEN_SIZE,
    {
    }

    /// A blank display.
    pub fn new() -> (d: Display)
        ensures
            d@ == blank_screen(),
    {
        let screen: [u8; 2048] = [0; 2048];
        assert(screen@ =~= blank_screen());
        let d = Display { screen };
        d
    }

    /// Row-major index of the pixel at column `x` and row `y`.
    pub fn get_index_from_coords(x: usize, y: usize) -> (index: usize)
        requires
            index_of(x as int, y as int) <= usize::MAX,
        ensures
            index == index_of(x as int, y as int),
    {
        y * WIDTH + x
    }

    /// XORs the eight bits of `byte` (most significant first) onto row
    /// `y` starting at column `x`, wrapping at the edges of the screen.
    /// Returns whether some lit pixel was switched off.
    pub fn draw_byte(&mut self, byte: u8, x: u8, y: u8) -> (erased: bool)
        ensures
            final(self)@ == draw_byte_screen(old(self)@, byte, x, y),
            erased == turns_off(old(self)@, final(self)@),
    {
        proof {
            use_type_invariant(&*self);
        }
        let ghost start = self.screen@;
        let row: usize = (y as usize) % HEIGHT;
        let mut erased = false;
        let mut k: usize = 0;
        while k < 8
            invariant
                0 <= k <= 8,
                row == (y as int) % (HEIGHT as int),
                start.len() == SCREEN_SIZE,
                self.screen@.len() == SCREEN_SIZE,
                forall|p: int| 0 <= p < SCREEN_SIZE ==> #[trigger] self.screen@[p] == if p / (
                WIDTH as int) == row && (p % (WIDTH as int) - x) % (WIDTH as int) < k {
                    drawn_pixel(start, byte, x, y, p)
                } else {
                    start[p]
                },
                erased == turns_off(start, self.screen@),
                is_binary(start),
                is_binary(self.screen@),
            decreases 8 - k,
        {
            let col: usize = (x as usize + k) % WIDTH;
            let index = row * WIDTH + col;
            proof {
                lemma_pixel_position(row as int, col as int);
                lemma_column_offset(x as int, k as int);
            }
            let bit: u8 = (byte >> (7 - k as u8)) & 1;
            let prev = self.screen[index];
            proof {
                lemma_sprite_bit_binary(byte, x, col as int);
                assert(prev <= 1 && bit <= 1 ==> prev ^ bit <= 1) by (bit_vector);
            }
            let ghost before = self.screen@;
            self.screen[index] = prev ^ bit;
            assert(sprite_bit(byte, x, col as int) == bit);
            assert forall|p: int| 0 <= p < SCREEN_SIZE implies #[trigger] self.screen@[p] == if p
                / (WIDTH as int) == row && (p % (WIDTH as int) - x) % (WIDTH as int) < k + 1 {
                drawn_pixel(start, byte, x, y, p)
            } else {
                start[p]
            } by {
                if p != index {
                    if p / (WIDTH as int) == row && (p % (WIDTH as int) - x) % (WIDTH as int)
                        == k {
                        assert(p == (p / 64) * 64 + p % 64) by (nonlinear_arith);
                        assert(p % (WIDTH as int) == col) by {
                            lemma_column_offset(x as int, k as int);
                            assert(0 <= p % 64 < 64) by (nonlinear_arith);
                            assert((((p % 64) - x) % 64 == k) ==> (p % 64 == (x + k) % 64))
                                by (nonlinear_arith)
                                requires
                                    0 <= p % 64 < 64,
                                    0 <= x,
                                    0 <= k < 8,
                            ;
                        }
                    }
                }
            }
            if prev == 1 && self.screen[index] == 0 {
                erased = true;
            }
            assert(erased == turns_off(start, self.screen@)) by {
                if turns_off(start, before) {
                    let w = choose|p: int|
                        0 <= p < start.len() && #[trigger] start[p] == 1 && before[p] == 0;
                    assert(self.screen@[w] == before[w] || w == index);
                }
                if turns_off(start, self.screen@) {
                    let w = choose|p: int|
                        0 <= p < start.len() && #[trigger] start[p] == 1 && self.screen@[p]
                            == 0;
                    if w != index {
                        assert(before[w] == self.screen@[w]);
                    }
                }
            }
            k += 1;
        }
        proof {
            assert forall|p: int| 0 <= p < SCREEN_SIZE implies #[trigger] self.screen@[p]
                == drawn_pixel(start, byte, x, y, p) by {
                if p / (WIDTH as int) == row {
                    assert(0 <= p % 64 < 64) by (nonlinear_arith);
                    let kk = (p % (WIDTH as int) - x) % (WIDTH as int);
                    if kk >= 8 {
                        assert(sprite_bit(byte, x, p % (WIDTH as int)) == 0);
                        lemma_xor_zero(start[p]);
                    }
                }
            }
            assert(self.screen@ =~= draw_byte_screen(start, byte, x, y));
        }
        erased
    }

    /// Switches every pixel off.
    pub fn clear(&mut self)
        ensures
            final(self)@ == blank_screen(),
    {
        proof {
            use_type_invariant(&*self);
        }
        let mut p: usize = 0;
        while p < SCREEN_SIZE
            invariant
                0 <= p <= SCREEN_SIZE,
                self.screen@.len() == SCREEN_SIZE,
                forall|q: int| 0 <= q < p ==> #[trigger] self.screen@[q] == 0,
                is_binary(self.screen@),
            decreases SCREEN_SIZE - p,
        {
            self.screen[p] = 0;
            p += 1;
        }
        assert(self.screen@ =~= blank_screen());
    }

    /// The frame buffer, row by row.
    pub fn get_display_buffer(&self) -> (buffer: &[u8])
        ensures
            buffer@ == self@,
            is_binary(buffer@),
    {
        proof {
            use_type_invariant(self);
        }
        self.screen.as_slice()
    }
}

} // verus!
