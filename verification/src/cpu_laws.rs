//! What each instruction does, stated over the raw instruction word and
//! the machine state before it runs.
use vstd::prelude::*;
use crate::controller::ControllerState;
use crate::cpu::CpuState;
use crate::cpu::execute_spec;
use crate::cpu::instr_defined;
use crate::cpu::REGISTER_COUNT;
use crate::cpu::sprite_rows;
use crate::cpu::sprite_collides;
use crate::display::sprite_bit;
use crate::display::turns_off;
use crate::ram::MEMORY_SIZE;
use crate::display::SCREEN_SIZE;

verus! {

/// Conditional skips: `3XNN` skips when VX equals NN, `4XNN` when it
/// differs, `5XY0` when VX equals VY, `9XY0` when it differs, `EX9E` when
/// the key VX is not held and `EXA1` when it is. A skip moves the program
/// counter on by four bytes, no skip by two, and nothing else changes.
pub proof fn lemma_skip_instructions(
    c: CpuState,
    m: ControllerState,
    instr: u16,
    random: u8,
    timer: u8,
)
    requires
        c.pc + 1 < MEMORY_SIZE,
        c.v.len() == REGISTER_COUNT,
    ensures
        ({
            let op = instr / 0x1000;
            let vx = c.v[((instr / 0x100) % 0x10) as int];
            let vy = c.v[((instr / 0x10) % 0x10) as int];
            let nn = instr % 0x100;
            let after = execute_spec(c, m, instr, random, timer);
            let c1 = after.0;
            &&& op == 0x3 ==> c1.pc == c.pc + if vx == nn { 4int } else { 2int }
            &&& op == 0x4 ==> c1.pc == c.pc + if vx != nn { 4int } else { 2int }
            &&& op == 0x5 ==> c1.pc == c.pc + if vx == vy { 4int } else { 2int }
            &&& op == 0x9 ==> c1.pc == c.pc + if vx != vy { 4int } else { 2int }
            &&& (op == 0xE && nn == 0x9E) ==> c1.pc == c.pc + if m.key == Some(vx) {
                2int
            } else {
                4int
            }
            &&& (op == 0xE && nn == 0xA1) ==> c1.pc == c.pc + if m.key == Some(vx) {
                4int
            } else {
                2int
            }
            &&& (op == 0x3 || op == 0x4 || op == 0x5 || op == 0x9 || op == 0xE) ==> {
                &&& c1.v == c.v
                &&& c1.i == c.i
                &&& c1.stack == c.stack
                &&& after.1 == m
            }
        }),
{
}

/// Jumps, calls and returns: `1NNN` jumps to NNN, `BNNN` to NNN + V0,
/// `2NNN` jumps to NNN and pushes the address of the next instruction,
/// `00EE` pops the last pushed address into the program counter, and
/// `00E0` switches every pixel off and moves on.
pub proof fn lemma_control_flow(c: CpuState, m: ControllerState, instr: u16, random: u8, timer: u8)
    requires
        c.pc + 1 < MEMORY_SIZE,
        c.v.len() == REGISTER_COUNT,
        m.screen.len() == SCREEN_SIZE,
    ensures
        ({
            let op = instr / 0x1000;
            let nn = instr % 0x100;
            let nnn = instr % 0x1000;
            let after = execute_spec(c, m, instr, random, timer);
            let c1 = after.0;
            let m1 = after.1;
            &&& op == 0x1 ==> c1.pc == nnn && c1.stack == c.stack && c1.v == c.v && m1 == m
            &&& op == 0xB ==> c1.pc == nnn + c.v[0] && c1.stack == c.stack && c1.v == c.v && m1
                == m
            &&& op == 0x2 ==> {
                &&& c1.pc == nnn
                &&& c1.stack.len() == c.stack.len() + 1
                &&& c1.stack[c.stack.len() as int] == c.pc + 2
                &&& forall|k: int| 0 <= k < c.stack.len() ==> c1.stack[k] == c.stack[k]
                &&& c1.v == c.v
                &&& m1 == m
            }
            &&& (op == 0x0 && nn == 0xEE && c.stack.len() > 0) ==> {
                &&& c1.pc == c.stack[c.stack.len() - 1]
                &&& c1.stack.len() == c.stack.len() - 1
                &&& forall|k: int| 0 <= k < c1.stack.len() ==> c1.stack[k] == c.stack[k]
                &&& c1.v == c.v
                &&& m1 == m
            }
            &&& (op == 0x0 && nn == 0xE0) ==> {
                &&& c1.pc == c.pc + 2
                &&& m1.screen.len() == m.screen.len()
                &&& forall|p: int| 0 <= p < m1.screen.len() ==> m1.screen[p] == 0
                &&& m1.ram == m.ram
                &&& c1.v == c.v
            }
        }),
{
}

/// Which instructions the CPU can carry out, once its program counter
/// lies inside memory.
pub proof fn lemma_defined_instructions(c: CpuState, m: ControllerState, instr: u16)
    requires
        c.pc + 1 < MEMORY_SIZE,
        c.v.len() == REGISTER_COUNT,
    ensures
        ({
            let op = instr / 0x1000;
            let x = (instr / 0x100) % 0x10;
            let vy = c.v[((instr / 0x10) % 0x10) as int];
            let n = instr % 0x10;
            let nn = instr % 0x100;
            let vx = c.v[x as int];
            &&& (op == 0x1 || op == 0x2 || op == 0x3 || op == 0x4 || op == 0x5 || op == 0x6 || op
                == 0x7 || op == 0x9 || op == 0xA || op == 0xB || op == 0xC) ==> instr_defined(
                c,
                m,
                instr,
            )
            &&& op == 0x0 ==> (instr_defined(c, m, instr) <==> (nn == 0xE0 || (nn == 0xEE
                && c.stack.len() > 0)))
            &&& op == 0x8 ==> (instr_defined(c, m, instr) <==> (n <= 7 || n == 0xE))
            &&& op == 0xD ==> (instr_defined(c, m, instr) <==> (n == 0 || (c.i + n - 1
                < MEMORY_SIZE && vy + n - 1 <= 0xFF)))
            &&& op == 0xE ==> (instr_defined(c, m, instr) <==> (nn == 0x9E || nn == 0xA1))
            &&& (op == 0xF && (nn == 0x07 || nn == 0x0A || nn == 0x15 || nn == 0x18 || nn
                == 0x29)) ==> instr_defined(c, m, instr)
            &&& (op == 0xF && nn == 0x1E) ==> (instr_defined(c, m, instr) <==> c.i + vx
                <= 0xFFFF)
            &&& (op == 0xF && nn == 0x33) ==> (instr_defined(c, m, instr) <==> c.i + 2
                < MEMORY_SIZE)
            &&& (op == 0xF && (nn == 0x55 || nn == 0x65)) ==> (instr_defined(c, m, instr)
                <==> c.i + x < MEMORY_SIZE)
            &&& (op == 0xF && !(nn == 0x07 || nn == 0x0A || nn == 0x15 || nn == 0x18 || nn
                == 0x29 || nn == 0x1E || nn == 0x33 || nn == 0x55 || nn == 0x65)) ==> !instr_defined(
                c,
                m,
                instr,
            )
        }),
{
}

/// Register loads: `6XNN` sets VX to NN, `7XNN` adds NN to VX modulo 256,
/// `CXNN` sets VX to the random byte masked with NN, `ANNN` sets I to NNN;
/// no other register changes and each moves on to the next instruction.
pub proof fn lemma_register_loads(c: CpuState, m: ControllerState, instr: u16, random: u8, timer: u8)
    requires
        c.pc + 1 < MEMORY_SIZE,
        c.v.len() == REGISTER_COUNT,
    ensures
        ({
            let op = instr / 0x1000;
            let x = ((instr / 0x100) % 0x10) as int;
            let nn = instr % 0x100;
            let after = execute_spec(c, m, instr, random, timer);
            let c1 = after.0;
            &&& (op == 0x6 || op == 0x7 || op == 0xC || op == 0xA) ==> {
                &&& c1.pc == c.pc + 2
                &&& after.1 == m
                &&& c1.stack == c.stack
                &&& c1.v.len() == REGISTER_COUNT
            }
            &&& (op == 0x6 || op == 0x7 || op == 0xC) ==> c1.i == c.i && forall|k: int|
                0 <= k < REGISTER_COUNT && k != x ==> c1.v[k] == c.v[k]
            &&& op == 0x6 ==> c1.v[x] == nn
            &&& op == 0x7 ==> c1.v[x] == (c.v[x] + nn) % 0x100
            &&& op == 0xC ==> c1.v[x] == random & (nn as u8)
            &&& op == 0xA ==> c1.i == instr % 0x1000 && c1.v == c.v
        }),
{
}

/// Arithmetic and logic `8XYN` between VX and VY; VF (register 15) takes
/// the carry, the no-borrow flag or the bit shifted out. When X is VF the
/// later of the two writes stands, as the instruction makes them.
pub proof fn lemma_alu_instructions(c: CpuState, m: ControllerState, instr: u16, random: u8, timer: u8)
    requires
        c.pc + 1 < MEMORY_SIZE,
        c.v.len() == REGISTER_COUNT,
        instr / 0x1000 == 0x8,
    ensures
        ({
            let x = ((instr / 0x100) % 0x10) as int;
            let vx = c.v[x];
            let vy = c.v[((instr / 0x10) % 0x10) as int];
            let n = instr % 0x10;
            let after = execute_spec(c, m, instr, random, timer);
            let c1 = after.0;
            let f = 15int;
            &&& c1.pc == c.pc + 2
            &&& c1.i == c.i
            &&& after.1 == m
            &&& c1.v.len() == REGISTER_COUNT
            &&& forall|k: int| 0 <= k < REGISTER_COUNT && k != x && k != f ==> c1.v[k] == c.v[k]
            &&& n <= 3 ==> c1.v[f] == c.v[f] || x == f
            &&& n == 0 ==> c1.v[x] == vy
            &&& n == 1 ==> c1.v[x] == vx | vy
            &&& n == 2 ==> c1.v[x] == vx & vy
            &&& n == 3 ==> c1.v[x] == vx ^ vy
            &&& n == 4 ==> {
                &&& c1.v[f] == if vx + vy > 0xFF { 1int } else { 0int }
                &&& x != f ==> c1.v[x] == (vx + vy) % 0x100
            }
            &&& n == 5 ==> {
                &&& c1.v[f] == if vx > vy { 1int } else { 0int }
                &&& x != f ==> c1.v[x] == if vx > vy { vx - vy } else { vy - vx }
            }
            &&& n == 7 ==> {
                &&& c1.v[f] == if vy > vx { 1int } else { 0int }
                &&& x != f ==> c1.v[x] == if vy > vx { vy - vx } else { vx - vy }
            }
            &&& n == 6 ==> {
                &&& c1.v[x] == vx / 2
                &&& x != f ==> c1.v[f] == vx % 2
            }
            &&& n == 0xE ==> {
                &&& c1.v[x] == (vx * 2) % 0x100
                &&& x != f ==> c1.v[f] == vx / 0x80
            }
        }),
{
}

/// Timers, keypad, I arithmetic, digits and register transfers (`FXNN`).
pub proof fn lemma_f_instructions(c: CpuState, m: ControllerState, instr: u16, random: u8, timer: u8)
    requires
        instr_defined(c, m, instr),
        c.v.len() == REGISTER_COUNT,
        m.ram.len() == MEMORY_SIZE,
        instr / 0x1000 == 0xF,
    ensures
        ({
            let x = ((instr / 0x100) % 0x10) as int;
            let vx = c.v[x];
            let nn = instr % 0x100;
            let after = execute_spec(c, m, instr, random, timer);
            let c1 = after.0;
            let m1 = after.1;
            &&& nn == 0x07 ==> c1.v == c.v.update(x, timer) && c1.pc == c.pc + 2 && m1 == m
            &&& (nn == 0x0A && m.key is None) ==> c1 == c && m1 == m
            &&& (nn == 0x0A && m.key is Some) ==> c1.v == c.v.update(x, m.key->0) && c1.pc
                == c.pc + 2 && m1 == m
            &&& nn == 0x15 ==> {
                &&& m1.delay_timer == vx
                &&& m1.ram == m.ram && m1.screen == m.screen && m1.key == m.key
                &&& c1.v == c.v && c1.i == c.i && c1.pc == c.pc + 2
            }
            &&& nn == 0x18 ==> c1.v == c.v && c1.i == c.i && c1.stack == c.stack && c1.pc == c.pc
                + 2 && m1 == m
            &&& nn == 0x1E ==> c1.i == c.i + vx && c1.v == c.v && c1.pc == c.pc + 2 && m1 == m
            &&& nn == 0x29 ==> c1.i == 5 * vx && c1.v == c.v && c1.pc == c.pc + 2 && m1 == m
            &&& nn == 0x55 ==> {
                &&& c1.i == c.i + x + 1
                &&& c1.v == c.v
                &&& c1.pc == c.pc + 2
                &&& m1.ram.len() == MEMORY_SIZE
                &&& forall|k: int| 0 <= k <= x ==> m1.ram[c.i + k] == c.v[k]
                &&& forall|a: int|
                    0 <= a < MEMORY_SIZE && !(c.i <= a <= c.i + x) ==> m1.ram[a] == m.ram[a]
                &&& m1.screen == m.screen
            }
            &&& nn == 0x65 ==> {
                &&& c1.i == c.i + x + 1
                &&& c1.pc == c.pc + 2
                &&& c1.v.len() == REGISTER_COUNT
                &&& forall|k: int| 0 <= k <= x ==> c1.v[k] == m.ram[c.i + k]
                &&& forall|k: int| x < k < REGISTER_COUNT ==> c1.v[k] == c.v[k]
                &&& m1 == m
            }
        }),
{
}

/// Screen row on which sprite row `r` drawn from row `y` lands.
pub open spec fn sprite_row(y: u8, r: int) -> int {
    (y + r) % 32
}

/// Index of the pixel on which bit `7 - k` of sprite row `r` lands when
/// the sprite is drawn at `(x, y)`.
pub open spec fn sprite_pixel(x: u8, y: u8, r: int, k: int) -> int {
    sprite_row(y, r) * 64 + (x + k) % 64
}

proof fn lemma_rows_keep_other_pixels(
    screen: Seq<u8>,
    ram: Seq<u8>,
    i: u16,
    x: u8,
    y: u8,
    rows: nat,
    p: int,
)
    requires
        y + rows <= 0x100,
        0 <= p < screen.len(),
        forall|j: int| 0 <= j < rows ==> p / 64 != #[trigger] sprite_row(y, j),
    ensures
        sprite_rows(screen, ram, i, x, y, rows).len() == screen.len(),
        sprite_rows(screen, ram, i, x, y, rows)[p] == screen[p],
    decreases rows,
{
    if rows > 0 {
        let r = (rows - 1) as nat;
        lemma_rows_keep_other_pixels(screen, ram, i, x, y, r, p);
        assert(p / 64 != sprite_row(y, r as int));
        assert(((y + r) as u8) as int == y + r);
    }
}

proof fn lemma_rows_length(screen: Seq<u8>, ram: Seq<u8>, i: u16, x: u8, y: u8, rows: nat)
    ensures
        sprite_rows(screen, ram, i, x, y, rows).len() == screen.len(),
    decreases rows,
{
    if rows > 0 {
        lemma_rows_length(screen, ram, i, x, y, (rows - 1) as nat);
    }
}

proof fn lemma_rows_draw_row(
    screen: Seq<u8>,
    ram: Seq<u8>,
    i: u16,
    x: u8,
    y: u8,
    rows: nat,
    r: int,
    p: int,
)
    requires
        y + rows <= 0x100,
        rows <= 32,
        0 <= r < rows,
        0 <= p < screen.len(),
        p / 64 == (y + r) % 32,
    ensures
        sprite_rows(screen, ram, i, x, y, rows)[p] == screen[p] ^ sprite_bit(
            ram[i + r],
            x,
            p % 64,
        ),
    decreases rows,
{
    let last = (rows - 1) as nat;
    lemma_rows_length(screen, ram, i, x, y, last);
    assert(((y + last) as u8) as int == y + last);
    if r == last {
        assert forall|j: int| 0 <= j < last implies p / 64 != #[trigger] sprite_row(y, j) by {
            assert((y + j) % 32 != (y + r) % 32) by (nonlinear_arith)
                requires
                    0 <= j < r,
                    r < 32,
                    0 <= y,
            ;
        }
        lemma_rows_keep_other_pixels(screen, ram, i, x, y, last, p);
    } else {
        lemma_rows_draw_row(screen, ram, i, x, y, last, r, p);
        assert((y + last) % 32 != (y + r) % 32) by (nonlinear_arith)
            requires
                0 <= r < last,
                last < 32,
                0 <= y,
        ;
    }
}

proof fn lemma_rows_collide(screen: Seq<u8>, ram: Seq<u8>, i: u16, x: u8, y: u8, rows: nat)
    requires
        y + rows <= 0x100,
        rows <= 32,
    ensures
        sprite_collides(screen, ram, i, x, y, rows) == turns_off(
            screen,
            sprite_rows(screen, ram, i, x, y, rows),
        ),
    decreases rows,
{
    if rows > 0 {
        let r = (rows - 1) as nat;
        lemma_rows_collide(screen, ram, i, x, y, r);
        lemma_rows_length(screen, ram, i, x, y, r);
        lemma_rows_length(screen, ram, i, x, y, rows);
        let s0 = screen;
        let sr = sprite_rows(screen, ram, i, x, y, r);
        let sn = sprite_rows(screen, ram, i, x, y, rows);
        assert(((y + r) as u8) as int == y + r);
        let row = (y + r) % 32;
        // Pixels outside the new row keep their value in this step; pixels
        // in it were untouched by the earlier rows.
        assert forall|p: int| 0 <= p < s0.len() && p / 64 != row implies sn[p] == sr[p] by {}
        assert forall|p: int| 0 <= p < s0.len() && p / 64 == row implies sr[p] == s0[p] by {
            assert forall|j: int| 0 <= j < r implies p / 64 != #[trigger] sprite_row(y, j) by {
                assert((y + j) % 32 != (y + r) % 32) by (nonlinear_arith)
                    requires
                        0 <= j < r,
                        r < 32,
                        0 <= y,
                ;
            }
            lemma_rows_keep_other_pixels(screen, ram, i, x, y, r, p);
        }
        if turns_off(s0, sn) {
            let p = choose|p: int| 0 <= p < s0.len() && #[trigger] s0[p] == 1 && sn[p] == 0;
            if p / 64 == row {
                assert(sr[p] == 1 && sn[p] == 0);
                assert(turns_off(sr, sn));
            } else {
                assert(sr[p] == 0);
                assert(turns_off(s0, sr));
            }
        }
        if turns_off(s0, sr) {
            let p = choose|p: int| 0 <= p < s0.len() && #[trigger] s0[p] == 1 && sr[p] == 0;
            if p / 64 == row {
                assert(false);
            }
            assert(sn[p] == 0);
            assert(turns_off(s0, sn));
        }
        if turns_off(sr, sn) {
            let p = choose|p: int| 0 <= p < sr.len() && #[trigger] sr[p] == 1 && sn[p] == 0;
            assert(p / 64 == row);
            assert(s0[p] == 1);
            assert(turns_off(s0, sn));
        }
    }
}

proof fn lemma_xor_zero_byte(b: u8)
    ensures
        b ^ 0u8 == b,
{
    assert(b ^ 0u8 == b) by (bit_vector);
}

/// `DXYN` XORs the `N` sprite bytes stored from I onto rows VY, VY + 1, ...
/// (wrapping at the bottom), each byte's bit `7 - k` landing on column
/// VX + k (wrapping at the right edge). Every other pixel keeps its value,
/// and VF becomes 1 exactly when some pixel lit before the instruction is
/// dark after it, 0 otherwise.
pub proof fn lemma_draw_instruction(c: CpuState, m: ControllerState, instr: u16, random: u8, timer: u8)
    requires
        instr_defined(c, m, instr),
        instr / 0x1000 == 0xD,
        c.v.len() == REGISTER_COUNT,
        m.screen.len() == SCREEN_SIZE,
        m.ram.len() == MEMORY_SIZE,
    ensures
        ({
            let vx = c.v[((instr / 0x100) % 0x10) as int];
            let vy = c.v[((instr / 0x10) % 0x10) as int];
            let n = (instr % 0x10) as int;
            let after = execute_spec(c, m, instr, random, timer);
            let c1 = after.0;
            let m1 = after.1;
            let collided = exists|p: int|
                0 <= p < SCREEN_SIZE && #[trigger] m.screen[p] == 1 && m1.screen[p] == 0;
            &&& m1.screen.len() == SCREEN_SIZE
            &&& c1.v[15] == if collided { 1int } else { 0int }
            &&& forall|r: int, k: int|
                0 <= r < n && 0 <= k < 8 ==> m1.screen[#[trigger] sprite_pixel(vx, vy, r, k)]
                    == m.screen[sprite_pixel(vx, vy, r, k)] ^ ((m.ram[c.i + r] >> ((7 - k) as u8))
                    & 1u8)
            &&& forall|p: int|
                0 <= p < SCREEN_SIZE && (forall|r: int, k: int|
                    0 <= r < n && 0 <= k < 8 ==> p != #[trigger] sprite_pixel(vx, vy, r, k))
                    ==> #[trigger] m1.screen[p] == m.screen[p]
            &&& forall|k: int| 0 <= k < REGISTER_COUNT && k != 15 ==> c1.v[k] == c.v[k]
            &&& c1.i == c.i && c1.pc == c.pc + 2 && c1.stack == c.stack
            &&& m1.ram == m.ram && m1.key == m.key && m1.delay_timer == m.delay_timer
        }),
{
    let x = ((instr / 0x100) % 0x10) as int;
    let y = ((instr / 0x10) % 0x10) as int;
    let vx = c.v[x];
    let vy = c.v[y];
    let n = (instr % 0x10) as nat;
    let after = execute_spec(c, m, instr, random, timer);
    let m1 = after.1;
    assert(vy + n <= 0x100);
    assert(n <= 32);
    lemma_rows_length(m.screen, m.ram, c.i, vx, vy, n);
    lemma_rows_collide(m.screen, m.ram, c.i, vx, vy, n);
    assert(m1.screen == sprite_rows(m.screen, m.ram, c.i, vx, vy, n));
    assert forall|r: int, k: int| 0 <= r < n && 0 <= k < 8 implies m1.screen[#[trigger] sprite_pixel(
        vx,
        vy,
        r,
        k,
    )] == m.screen[sprite_pixel(vx, vy, r, k)] ^ ((m.ram[c.i + r] >> ((7 - k) as u8)) & 1u8) by {
        let p = sprite_pixel(vx, vy, r, k);
        let row = (vy + r) % 32;
        let col = (vx + k) % 64;
        assert(p / 64 == row && p % 64 == col && 0 <= p < 2048) by (nonlinear_arith)
            requires
                p == row * 64 + col,
                0 <= row < 32,
                0 <= col < 64,
        ;
        assert((col - vx) % 64 == k) by (nonlinear_arith)
            requires
                col == (vx + k) % 64,
                0 <= vx,
                0 <= k < 8,
        ;
        lemma_rows_draw_row(m.screen, m.ram, c.i, vx, vy, n, r, p);
    }
    assert forall|p: int|
        0 <= p < SCREEN_SIZE && (forall|r: int, k: int|
            0 <= r < n && 0 <= k < 8 ==> p != #[trigger] sprite_pixel(vx, vy, r, k))
        implies #[trigger] m1.screen[p] == m.screen[p] by {
        if exists|r: int| 0 <= r < n && p / 64 == #[trigger] sprite_row(vy, r) {
            let r = choose|r: int| 0 <= r < n && p / 64 == #[trigger] sprite_row(vy, r);
            lemma_rows_draw_row(m.screen, m.ram, c.i, vx, vy, n, r, p);
            let col = p % 64;
            let kk = (col - vx) % 64;
            assert(0 <= col < 64 && 0 <= kk < 64) by (nonlinear_arith)
                requires
                    0 <= p,
                    col == p % 64,
                    kk == (col - vx) % 64,
            ;
            if kk < 8 {
                assert(col == (vx + kk) % 64) by (nonlinear_arith)
                    requires
                        0 <= col < 64,
                        kk == (col - vx) % 64,
                        0 <= vx,
                ;
                assert(p == (p / 64) * 64 + p % 64) by (nonlinear_arith);
                assert(p != sprite_pixel(vx, vy, r, kk));
                assert(false);
            }
            lemma_xor_zero_byte(m.screen[p]);
        } else {
            lemma_rows_keep_other_pixels(m.screen, m.ram, c.i, vx, vy, n, p);
        }
    }
}

} // verus!
