use vstd::prelude::*;
use crate::controller::Controller;
use crate::controller::ControllerState;
use crate::controller::delay_remaining;
use crate::display::blank_screen;
use crate::display::draw_byte_screen;
use crate::display::turns_off;
use crate::display::SCREEN_SIZE;
use crate::ram::MEMORY_SIZE;

verus! {

/// Address at which programs are loaded and execution starts.
pub const PROGRAM_START_ADDRESS: u16 = 0x200;

/// Index of the flag register VF.
pub const FLAG_REGISTER: usize = 0xF;

/// Number of general-purpose registers.
pub const REGISTER_COUNT: usize = 16;

// ---------------------------------------------------------------------
// Instruction fields
// ---------------------------------------------------------------------

/// The highest nibble of an instruction: its operation class.
pub open spec fn opcode(instr: u16) -> int {
    instr as int / 0x1000
}

/// The second nibble: register X.
pub open spec fn reg_x(instr: u16) -> int {
    (instr as int / 0x100) % 0x10
}

/// The third nibble: register Y.
pub open spec fn reg_y(instr: u16) -> int {
    (instr as int / 0x10) % 0x10
}

/// The lowest nibble, N.
pub open spec fn nibble(instr: u16) -> int {
    instr as int % 0x10
}

/// The low byte, NN.
pub open spec fn low_byte(instr: u16) -> u8 {
    (instr as int % 0x100) as u8
}

/// The low twelve bits, the address NNN.
pub open spec fn address(instr: u16) -> u16 {
    (instr as int % 0x1000) as u16
}

/// The big-endian instruction word stored at `pc`.
pub open spec fn fetch(ram: Seq<u8>, pc: u16) -> u16 {
    (ram[pc as int] as int * 0x100 + ram[pc + 1] as int) as u16
}

// ---------------------------------------------------------------------
// Machine model
// ---------------------------------------------------------------------

/// The registers of the CPU.
pub struct CpuState {
    /// V0 to VF.
    pub v: Seq<u8>,
    /// The address register I.
    pub i: u16,
    /// The program counter.
    pub pc: u16,
    /// Return addresses of the subroutines being run, innermost last.
    pub stack: Seq<u16>,
}

/// The program counter after the current instruction: two bytes on, or
/// four when the next instruction is skipped.
pub open spec fn next_pc(c: CpuState, skip: bool) -> u16 {
    (c.pc + if skip { 4int } else { 2int }) as u16
}

/// The registers after `8XYN`.
pub open spec fn alu_result(v: Seq<u8>, x: int, y: int, n: int) -> Seq<u8> {
    let vx = v[x];
    let vy = v[y];
    let f = FLAG_REGISTER as int;
    if n == 0 {
        v.update(x, vy)
    } else if n == 1 {
        v.update(x, vx | vy)
    } else if n == 2 {
        v.update(x, vx & vy)
    } else if n == 3 {
        v.update(x, vx ^ vy)
    } else if n == 4 {
        v.update(x, ((vx + vy) % 0x100) as u8).update(f, if vx + vy > 0xFF { 1u8 } else { 0u8 })
    } else if n == 5 {
        if vx > vy {
            v.update(x, (vx - vy) as u8).update(f, 1u8)
        } else {
            v.update(x, (vy - vx) as u8).update(f, 0u8)
        }
    } else if n == 6 {
        v.update(f, vx % 2).update(x, vx / 2)
    } else if n == 7 {
        if vy > vx {
            v.update(x, (vy - vx) as u8).update(f, 1u8)
        } else {
            v.update(x, (vx - vy) as u8).update(f, 0u8)
        }
    } else {
        v.update(f, vx / 0x80).update(x, ((vx * 2) % 0x100) as u8)
    }
}

/// The screen after drawing the first `rows` rows of the sprite stored at
/// `i`, row `r` going to `(x, y + r)`.
pub open spec fn sprite_rows(screen: Seq<u8>, ram: Seq<u8>, i: u16, x: u8, y: u8, rows: nat) -> Seq<
    u8,
>
    decreases rows,
{
    if rows == 0 {
        screen
    } else {
        let r = rows - 1;
        draw_byte_screen(sprite_rows(screen, ram, i, x, y, r as nat), ram[i + r], x, (y + r) as u8)
    }
}

/// Whether drawing the first `rows` rows of the sprite switched some lit
/// pixel off.
pub open spec fn sprite_collides(screen: Seq<u8>, ram: Seq<u8>, i: u16, x: u8, y: u8, rows: nat) -> bool
    decreases rows,
{
    if rows == 0 {
        false
    } else {
        let r = (rows - 1) as nat;
        sprite_collides(screen, ram, i, x, y, r) || turns_off(
            sprite_rows(screen, ram, i, x, y, r),
            sprite_rows(screen, ram, i, x, y, rows),
        )
    }
}

/// Memory after `FX33`: the decimal digits of `value` at `i`, `i + 1`
/// and `i + 2`.
pub open spec fn bcd_memory(ram: Seq<u8>, i: u16, value: u8) -> Seq<u8> {
    ram.update(i as int, value / 100).update(i + 1, (value / 10) % 10).update(i + 2, value % 10)
}

/// Memory after `FX55`: V0 to VX copied to `i` onwards.
pub open spec fn store_registers(ram: Seq<u8>, v: Seq<u8>, i: u16, x: int) -> Seq<u8> {
    Seq::new(ram.len(), |a: int| if i <= a <= i + x { v[a - i] } else { ram[a] })
}

/// Registers after `FX65`: V0 to VX loaded from `i` onwards.
pub open spec fn load_registers(ram: Seq<u8>, v: Seq<u8>, i: u16, x: int) -> Seq<u8> {
    Seq::new(v.len(), |k: int| if k <= x { ram[i + k] } else { v[k] })
}

/// Whether the sprite of `n` rows at `i` drawn from row `y` stays inside
/// memory and does not run past row 255.
pub open spec fn sprite_fits(i: u16, y: u8, n: int) -> bool {
    n == 0 || (i + n - 1 < MEMORY_SIZE && y + n - 1 <= 0xFF)
}

/// Whether the CPU can carry out `instr`: the program counter lies inside
/// memory, the instruction is one the CPU knows, a return has somewhere to
/// return to, every memory address it touches exists and I does not
/// overflow. On every other instruction the machine stops.
pub open spec fn instr_defined(c: CpuState, m: ControllerState, instr: u16) -> bool {
    let op = opcode(instr);
    let x = reg_x(instr);
    let y = reg_y(instr);
    let n = nibble(instr);
    let nn = low_byte(instr);
    &&& c.pc + 1 < MEMORY_SIZE
    &&& (op == 0x0 ==> nn == 0xE0 || (nn == 0xEE && c.stack.len() > 0))
    &&& (op == 0x8 ==> n <= 7 || n == 0xE)
    &&& (op == 0xD ==> sprite_fits(c.i, c.v[y], n))
    &&& (op == 0xE ==> nn == 0x9E || nn == 0xA1)
    &&& (op == 0xF ==> {
        ||| nn == 0x07
        ||| nn == 0x0A
        ||| nn == 0x15
        ||| nn == 0x18
        ||| nn == 0x29
        ||| (nn == 0x1E && c.i + c.v[x] <= 0xFFFF)
        ||| (nn == 0x33 && c.i + 2 < MEMORY_SIZE)
        ||| ((nn == 0x55 || nn == 0x65) && c.i + x < MEMORY_SIZE)
    })
}

/// Whether the CPU can run the instruction its program counter points at.
pub open spec fn can_step(c: CpuState, m: ControllerState) -> bool {
    c.pc + 1 < MEMORY_SIZE && instr_defined(c, m, fetch(m.ram, c.pc))
}

/// The effect of an `FX..` instruction.
pub open spec fn execute_f(c: CpuState, m: ControllerState, instr: u16, timer: u8) -> (
    CpuState,
    ControllerState,
) {
    let x = reg_x(instr);
    let nn = low_byte(instr);
    let vx = c.v[x];
    let pc = next_pc(c, false);
    if nn == 0x1E {
        (CpuState { i: (c.i + vx) as u16, pc, ..c }, m)
    } else if nn == 0x0A {
        match m.key {
            Some(k) => (CpuState { v: c.v.update(x, k), pc, ..c }, m),
            None => (c, m),
        }
    } else if nn == 0x07 {
        (CpuState { v: c.v.update(x, timer), pc, ..c }, m)
    } else if nn == 0x15 {
        (CpuState { pc, ..c }, ControllerState { delay_timer: vx, ..m })
    } else if nn == 0x18 {
        (CpuState { pc, ..c }, m)
    } else if nn == 0x29 {
        (CpuState { i: (vx * 5) as u16, pc, ..c }, m)
    } else if nn == 0x33 {
        (CpuState { pc, ..c }, ControllerState { ram: bcd_memory(m.ram, c.i, vx), ..m })
    } else if nn == 0x55 {
        (
            CpuState { i: (c.i + x + 1) as u16, pc, ..c },
            ControllerState { ram: store_registers(m.ram, c.v, c.i, x), ..m },
        )
    } else {
        (CpuState { v: load_registers(m.ram, c.v, c.i, x), i: (c.i + x + 1) as u16, pc, ..c }, m)
    }
}

/// The effect of running `instr`, when `instr_defined` holds. `random` is
/// the byte that `CXNN` masks and `timer` what the delay timer shows
/// when `FX07` reads it.
pub open spec fn execute_spec(
    c: CpuState,
    m: ControllerState,
    instr: u16,
    random: u8,
    timer: u8,
) -> (CpuState, ControllerState) {
    let op = opcode(instr);
    let x = reg_x(instr);
    let y = reg_y(instr);
    let n = nibble(instr);
    let nn = low_byte(instr);
    let nnn = address(instr);
    let vx = c.v[x];
    let vy = c.v[y];
    let pc = next_pc(c, false);
    if op == 0x0 {
        if nn == 0xE0 {
            (CpuState { pc, ..c }, ControllerState { screen: blank_screen(), ..m })
        } else {
            (CpuState { pc: c.stack.last(), stack: c.stack.drop_last(), ..c }, m)
        }
    } else if op == 0x1 {
        (CpuState { pc: nnn, ..c }, m)
    } else if op == 0x2 {
        (CpuState { pc: nnn, stack: c.stack.push(pc), ..c }, m)
    } else if op == 0x3 {
        (CpuState { pc: next_pc(c, vx == nn), ..c }, m)
    } else if op == 0x4 {
        (CpuState { pc: next_pc(c, vx != nn), ..c }, m)
    } else if op == 0x5 {
        (CpuState { pc: next_pc(c, vx == vy), ..c }, m)
    } else if op == 0x6 {
        (CpuState { v: c.v.update(x, nn), pc, ..c }, m)
    } else if op == 0x7 {
        (CpuState { v: c.v.update(x, ((vx + nn) % 0x100) as u8), pc, ..c }, m)
    } else if op == 0x8 {
        (CpuState { v: alu_result(c.v, x, y, n), pc, ..c }, m)
    } else if op == 0x9 {
        (CpuState { pc: next_pc(c, vx != vy), ..c }, m)
    } else if op == 0xA {
        (CpuState { i: nnn, pc, ..c }, m)
    } else if op == 0xB {
        (CpuState { pc: (nnn + c.v[0]) as u16, ..c }, m)
    } else if op == 0xC {
        (CpuState { v: c.v.update(x, random & nn), pc, ..c }, m)
    } else if op == 0xD {
        let hit = sprite_collides(m.screen, m.ram, c.i, vx, vy, n as nat);
        (
            CpuState { v: c.v.update(FLAG_REGISTER as int, if hit { 1u8 } else { 0u8 }), pc, ..c },
            ControllerState { screen: sprite_rows(m.screen, m.ram, c.i, vx, vy, n as nat), ..m },
        )
    } else if op == 0xE {
        let pressed = m.key == Some(vx);
        (CpuState { pc: next_pc(c, if nn == 0x9E { !pressed } else { pressed }), ..c }, m)
    } else {
        execute_f(c, m, instr, timer)
    }
}

/// A subroutine call followed by a return comes back to the instruction
/// after the call, with the stack, registers and the rest of the machine
/// as they were.
pub proof fn lemma_call_then_return(
    c: CpuState,
    m: ControllerState,
    call: u16,
    ret: u16,
    random: u8,
    timer: u8,
)
    requires
        opcode(call) == 0x2,
        opcode(ret) == 0x0,
        low_byte(ret) == 0xEE,
        instr_defined(c, m, call),
    ensures
        ({
            let (c1, m1) = execute_spec(c, m, call, random, timer);
            let (c2, m2) = execute_spec(c1, m1, ret, random, timer);
            &&& instr_defined(c1, m1, ret) <== c1.pc + 1 < MEMORY_SIZE
            &&& c2 == CpuState { pc: (c.pc + 2) as u16, ..c }
            &&& m2 == m
        }),
{
    let (c1, m1) = execute_spec(c, m, call, random, timer);
    assert(c1.stack.drop_last() =~= c.stack);
}

/// `8XY4` leaves the sum of VX and VY in VX with the carry in VF
/// (when X is not VF itself).
pub proof fn lemma_add_with_carry(c: CpuState, m: ControllerState, instr: u16, random: u8, timer: u8)
    requires
        opcode(instr) == 0x8,
        nibble(instr) == 4,
        reg_x(instr) != FLAG_REGISTER,
        c.v.len() == REGISTER_COUNT,
    ensures
        ({
            let (c1, m1) = execute_spec(c, m, instr, random, timer);
            &&& c1.v[reg_x(instr)] + 0x100 * c1.v[FLAG_REGISTER as int] == c.v[reg_x(instr)]
                + c.v[reg_y(instr)]
            &&& c1.v[FLAG_REGISTER as int] <= 1
        }),
{
}

/// `FX33` stores the three decimal digits of VX, most significant first.
pub proof fn lemma_bcd_digits(c: CpuState, m: ControllerState, instr: u16, random: u8, timer: u8)
    requires
        opcode(instr) == 0xF,
        low_byte(instr) == 0x33,
        instr_defined(c, m, instr),
        m.ram.len() == MEMORY_SIZE,
    ensures
        ({
            let (c1, m1) = execute_spec(c, m, instr, random, timer);
            let h = m1.ram[c.i as int];
            let t = m1.ram[c.i + 1];
            let o = m1.ram[c.i + 2];
            &&& h < 10 && t < 10 && o < 10
            &&& 100 * h + 10 * t + o == c.v[reg_x(instr)]
        }),
{
}

/// Storing V0..VX with `FX55`, pointing I back at the same address with
/// `ANNN` and loading V0..VX with `FX65` leaves every register as it was.
pub proof fn lemma_store_then_load(
    c: CpuState,
    m: ControllerState,
    store: u16,
    point: u16,
    load: u16,
    random: u8,
    timer: u8,
)
    requires
        opcode(store) == 0xF,
        low_byte(store) == 0x55,
        opcode(point) == 0xA,
        address(point) == c.i,
        opcode(load) == 0xF,
        low_byte(load) == 0x65,
        reg_x(load) == reg_x(store),
        instr_defined(c, m, store),
        c.v.len() == REGISTER_COUNT,
        m.ram.len() == MEMORY_SIZE,
    ensures
        ({
            let (c1, m1) = execute_spec(c, m, store, random, timer);
            let (c2, m2) = execute_spec(c1, m1, point, random, timer);
            let (c3, m3) = execute_spec(c2, m2, load, random, timer);
            &&& c3.v == c.v
            &&& m3 == m1
        }),
{
    let (c1, m1) = execute_spec(c, m, store, random, timer);
    let (c2, m2) = execute_spec(c1, m1, point, random, timer);
    let (c3, m3) = execute_spec(c2, m2, load, random, timer);
    assert(c3.v =~= c.v);
}

proof fn lemma_decode(instr: u16)
    ensures
        (instr >> 12u16) & 0xFu16 == opcode(instr),
        (instr >> 8u16) & 0xFu16 == reg_x(instr),
        (instr >> 4u16) & 0xFu16 == reg_y(instr),
        instr & 0xFu16 == nibble(instr),
        instr & 0xFFu16 == low_byte(instr),
        instr & 0xFFFu16 == address(instr),
        opcode(instr) < 16,
{
    assert((instr >> 12u16) & 0xFu16 == instr / 0x1000) by (bit_vector);
    assert((instr >> 8u16) & 0xFu16 == (instr / 0x100) % 0x10) by (bit_vector);
    assert((instr >> 4u16) & 0xFu16 == (instr / 0x10) % 0x10) by (bit_vector);
    assert(instr & 0xFu16 == instr % 0x10) by (bit_vector);
    assert(instr & 0xFFu16 == instr % 0x100) by (bit_vector);
    assert(instr & 0xFFFu16 == instr % 0x1000) by (bit_vector);
}

proof fn lemma_word(hi: u16, lo: u16)
    requires
        hi < 0x100,
        lo < 0x100,
    ensures
        (hi << 8u16) | lo == hi * 0x100 + lo,
{
    assert((hi << 8u16) | lo == hi * 0x100 + lo) by (bit_vector)
        requires
            hi < 0x100,
            lo < 0x100,
    ;
}

/// `rand::Rng::gen_range` over `0..bound` on the thread-local generator
/// (`rand::thread_rng`): rand documents that the value lies in the range
/// and that the call panics on an empty range, which `requires` rules out.
/// Which value comes back rests on chance and is not claimed.
#[verifier::external_body]
fn random_below(bound: u16) -> (r: u16)
    requires
        bound > 0,
    ensures
        r < bound,
{
    rand::Rng::gen_range(&mut rand::thread_rng(), 0..bound)
}

/// Number of equally likely draws from which the random byte of `CXNN`
/// is made.
pub const RANDOM_DRAWS: u16 = 510;

/// The byte that draw `k` (out of `RANDOM_DRAWS`) stands for. It is a
/// number picked evenly from [0, 1), scaled to [0, 255] and rounded to the
/// nearest whole number: 0 and 255 take one draw each, every other byte
/// two.
pub open spec fn byte_of_draw(k: int) -> u8 {
    ((k + 1) / 2) as u8
}

/// The byte that draw `k` stands for (see `byte_of_draw`).
pub fn random_byte_from_draw(k: u16) -> (b: u8)
    requires
        k < RANDOM_DRAWS,
    ensures
        b == byte_of_draw(k as int),
{
    ((k + 1) / 2) as u8
}

/// A random byte for `CXNN`: 0 and 255 half as likely as the other values.
fn random_byte() -> (b: u8)
    ensures
        exists|k: int| 0 <= k < RANDOM_DRAWS && b == byte_of_draw(k),
{
    let k = random_below(RANDOM_DRAWS);
    random_byte_from_draw(k)
}

/// The CHIP-8 processor: sixteen byte registers, the address register,
/// the program counter and the stack of return addresses.
pub struct Cpu {
    vx: [u8; 16],
    i: u16,
    pc: u16,
    ret_stack: Vec<u16>,
}

impl View for Cpu {
    type V = CpuState;

    closed spec fn view(&self) -> CpuState {
        CpuState { v: self.vx@, i: self.i, pc: self.pc, stack: self.ret_stack@ }
    }
}

impl Cpu {
    /// There are always `REGISTER_COUNT` registers.
    pub proof fn lemma_registers(&self)
        ensures
            self@.v.len() == REGISTER_COUNT,
    {
    }

    /// All registers zero, no return address, execution about to start at
    /// `PROGRAM_START_ADDRESS`.
    pub fn new() -> (cpu: Cpu)
        ensures
            cpu@ == (CpuState {
                v: Seq::new(REGISTER_COUNT as nat, |k: int| 0u8),
                i: 0,
                pc: PROGRAM_START_ADDRESS,
                stack: Seq::empty(),
            }),
    {
        let cpu = Cpu { vx: [0; 16], i: 0, pc: PROGRAM_START_ADDRESS, ret_stack: Vec::new() };
        assert(cpu@.v =~= Seq::new(REGISTER_COUNT as nat, |k: int| 0u8));
        cpu
    }

    fn set_vx(&mut self, index: usize, value: u8)
        requires
            index < REGISTER_COUNT,
        ensures
            final(self)@ == (CpuState { v: old(self)@.v.update(index as int, value), ..old(self)@ }),
    {
        self.vx[index] = value;
    }

    fn get_vx(&self, index: usize) -> (value: u8)
        requires
            index < REGISTER_COUNT,
        ensures
            value == self@.v[index as int],
    {
        self.vx[index]
    }

    /// `8XYN`: arithmetic and logic between VX and VY.
    fn run_alu(&mut self, x: usize, y: usize, n: u8)
        requires
            x < REGISTER_COUNT,
            y < REGISTER_COUNT,
            n <= 7 || n == 0xE,
        ensures
            final(self)@ == (CpuState {
                v: alu_result(old(self)@.v, x as int, y as int, n as int),
                ..old(self)@
            }),
    {
        let vx = self.get_vx(x);
        let vy = self.get_vx(y);
        match n {
            0x0 => {
                self.set_vx(x, vy);
            },
            0x1 => {
                self.set_vx(x, vx | vy);
            },
            0x2 => {
                self.set_vx(x, vx & vy);
            },
            0x3 => {
                self.set_vx(x, vx ^ vy);
            },
            0x4 => {
                let sum: u16 = vx as u16 + vy as u16;
                self.set_vx(x, (sum % 0x100) as u8);
                if sum > 0xFF {
                    self.set_vx(FLAG_REGISTER, 1);
                } else {
                    self.set_vx(FLAG_REGISTER, 0);
                }
            },
            0x5 => {
                if vx > vy {
                    self.set_vx(x, vx - vy);
                    self.set_vx(FLAG_REGISTER, 1);
                } else {
                    self.set_vx(x, vy - vx);
                    self.set_vx(FLAG_REGISTER, 0);
                }
            },
            0x6 => {
                proof {
                    assert(vx & 1u8 == vx % 2) by (bit_vector);
                    assert(vx >> 1u8 == vx / 2) by (bit_vector);
                }
                self.set_vx(FLAG_REGISTER, vx & 0x1);
                self.set_vx(x, vx >> 1);
            },
            0x7 => {
                if vy > vx {
                    self.set_vx(x, vy - vx);
                    self.set_vx(FLAG_REGISTER, 1);
                } else {
                    self.set_vx(x, vx - vy);
                    self.set_vx(FLAG_REGISTER, 0);
                }
            },
            _ => {
                proof {
                    assert((vx & 0x80u8) >> 7u8 == vx / 0x80) by (bit_vector);
                    assert(vx << 1u8 == (vx * 2) % 0x100) by (bit_vector);
                }
                self.set_vx(FLAG_REGISTER, (vx & 0x80) >> 7);
                self.set_vx(x, vx << 1);
            },
        }
    }

    /// `DXYN`: draws the `n`-row sprite stored at I with its top left
    /// corner at `(x, y)` and sets VF to whether a lit pixel went dark.
    fn draw_sprite(&mut self, controller: &mut Controller, x: u8, y: u8, n: u8)
        requires
            sprite_fits(old(self)@.i, y, n as int),
        ensures
            final(self)@ == (CpuState {
                v: old(self)@.v.update(
                    FLAG_REGISTER as int,
                    if sprite_collides(
                        old(controller)@.screen,
                        old(controller)@.ram,
                        old(self)@.i,
                        x,
                        y,
                        n as nat,
                    ) {
                        1u8
                    } else {
                        0u8
                    },
                ),
                ..old(self)@
            }),
            final(controller)@ == (ControllerState {
                screen: sprite_rows(
                    old(controller)@.screen,
                    old(controller)@.ram,
                    old(self)@.i,
                    x,
                    y,
                    n as nat,
                ),
                ..old(controller)@
            }),
            final(controller).timer_started() == old(controller).timer_started(),
    {
        let ghost m0 = controller@;
        let ghost t0 = controller.timer_started();
        let mut set_vf = false;
        let mut sprite_y: u8 = 0;
        while sprite_y < n
            invariant
                0 <= sprite_y <= n,
                sprite_fits(self@.i, y, n as int),
                controller@ == (ControllerState {
                    screen: sprite_rows(m0.screen, m0.ram, self@.i, x, y, sprite_y as nat),
                    ..m0
                }),
                set_vf == sprite_collides(m0.screen, m0.ram, self@.i, x, y, sprite_y as nat),
                controller.timer_started() == t0,
            decreases n - sprite_y,
        {
            proof {
                controller.lemma_sizes();
            }
            let byte = controller.read_byte((self.i + sprite_y as u16) as usize);
            if controller.draw_byte(byte, x, y + sprite_y) {
                set_vf = true;
            }
            sprite_y += 1;
        }
        if set_vf {
            self.set_vx(FLAG_REGISTER, 1);
        } else {
            self.set_vx(FLAG_REGISTER, 0);
        }
    }

    /// `FX..`: timers, keypad wait, I arithmetic and register transfers.
    fn run_f(&mut self, controller: &mut Controller, x: usize, nn: u8, timer: u8)
        requires
            x < REGISTER_COUNT,
            old(self)@.pc + 1 < MEMORY_SIZE,
            ({
                let c = old(self)@;
                ||| nn == 0x07
                ||| nn == 0x0A
                ||| nn == 0x15
                ||| nn == 0x18
                ||| nn == 0x29
                ||| (nn == 0x1E && c.i + c.v[x as int] <= 0xFFFF)
                ||| (nn == 0x33 && c.i + 2 < MEMORY_SIZE)
                ||| ((nn == 0x55 || nn == 0x65) && c.i + x < MEMORY_SIZE)
            }),
        ensures
            ({
                let instr = (0xF000 + x * 0x100 + nn) as u16;
                (final(self)@, final(controller)@) == execute_f(
                    old(self)@,
                    old(controller)@,
                    instr,
                    timer,
                )
            }),
            nn != 0x15 ==> final(controller).timer_started() == old(controller).timer_started(),
    {
        let ghost t0 = controller.timer_started();
        let ghost instr = (0xF000 + x * 0x100 + nn) as u16;
        assert(reg_x(instr) == x && low_byte(instr) == nn);
        proof {
            controller.lemma_sizes();
            self.lemma_registers();
        }
        let vx = self.get_vx(x);
        match nn {
            0x1E => {
                self.i += vx as u16;
                self.pc += 2;
            },
            0x0A => {
                if let Some(val) = controller.get_key_pressed() {
                    self.set_vx(x, val);
                    self.pc += 2;
                }
            },
            0x07 => {
                self.set_vx(x, timer);
                self.pc += 2;
            },
            0x15 => {
                controller.set_delay_timer(vx);
                self.pc += 2;
            },
            0x18 => {
                self.pc += 2;
            },
            0x29 => {
                self.i = vx as u16 * 5;
                self.pc += 2;
            },
            0x33 => {
                let tens = (vx / 10) % 10;
                let ones = vx % 10;
                let hundreds = vx / 100;
                controller.write_byte(self.i as usize, hundreds);
                controller.write_byte((self.i + 1) as usize, tens);
                controller.write_byte((self.i + 2) as usize, ones);
                self.pc += 2;
            },
            0x55 => {
                let ghost c0 = self@;
                let ghost m0 = controller@;
                let mut index: usize = 0;
                assert(m0.ram =~= Seq::new(
                    MEMORY_SIZE as nat,
                    |a: int| if c0.i <= a < c0.i + index { c0.v[a - c0.i] } else { m0.ram[a] },
                ));
                while index <= x
                    invariant
                        x < REGISTER_COUNT,
                        0 <= index <= x + 1,
                        c0.i + x < MEMORY_SIZE,
                        self@ == c0,
                        controller.timer_started() == t0,
                        c0.v.len() == REGISTER_COUNT,
                        m0.ram.len() == MEMORY_SIZE,
                        controller@ == (ControllerState {
                            ram: Seq::new(
                                MEMORY_SIZE as nat,
                                |a: int|
                                    if c0.i <= a < c0.i + index {
                                        c0.v[a - c0.i]
                                    } else {
                                        m0.ram[a]
                                    },
                            ),
                            ..m0
                        }),
                    decreases x + 1 - index,
                {
                    let value = self.get_vx(index);
                    controller.write_byte((self.i + index as u16) as usize, value);
                    assert(controller@.ram =~= Seq::new(
                        MEMORY_SIZE as nat,
                        |a: int|
                            if c0.i <= a < c0.i + index + 1 {
                                c0.v[a - c0.i]
                            } else {
                                m0.ram[a]
                            },
                    ));
                    index += 1;
                }
                assert(controller@.ram =~= store_registers(m0.ram, c0.v, c0.i, x as int));
                self.i += x as u16 + 1;
                self.pc += 2;
            },
            _ => {
                let ghost c0 = self@;
                let ghost m0 = controller@;
                let i = self.i;
                let mut index: usize = 0;
                assert(c0.v =~= Seq::new(
                    REGISTER_COUNT as nat,
                    |k: int| if k < index { m0.ram[c0.i + k] } else { c0.v[k] },
                ));
                while index <= x
                    invariant
                        x < REGISTER_COUNT,
                        0 <= index <= x + 1,
                        i == c0.i,
                        c0.i + x < MEMORY_SIZE,
                        controller@ == m0,
                        controller.timer_started() == t0,
                        c0.v.len() == REGISTER_COUNT,
                        m0.ram.len() == MEMORY_SIZE,
                        self@ == (CpuState {
                            v: Seq::new(
                                REGISTER_COUNT as nat,
                                |k: int| if k < index { m0.ram[c0.i + k] } else { c0.v[k] },
                            ),
                            ..c0
                        }),
                    decreases x + 1 - index,
                {
                    let value = controller.read_byte((i + index as u16) as usize);
                    self.set_vx(index, value);
                    assert(self@.v =~= Seq::new(
                        REGISTER_COUNT as nat,
                        |k: int| if k < index + 1 { m0.ram[c0.i + k] } else { c0.v[k] },
                    ));
                    index += 1;
                }
                assert(self@.v =~= load_registers(m0.ram, c0.v, c0.i, x as int));
                self.i += x as u16 + 1;
                self.pc += 2;
            },
        }
    }

    /// Carries out `instruction`, given the byte `random` that `CXNN`
    /// masks and the value `timer` that `FX07` reads from the delay timer.
    pub fn execute(&mut self, controller: &mut Controller, instruction: u16, random: u8, timer: u8)
        requires
            instr_defined(old(self)@, old(controller)@, instruction),
        ensures
            (final(self)@, final(controller)@) == execute_spec(
                old(self)@,
                old(controller)@,
                instruction,
                random,
                timer,
            ),
            !(opcode(instruction) == 0xF && low_byte(instruction) == 0x15)
                ==> final(controller).timer_started() == old(controller).timer_started(),
    {
        proof {
            lemma_decode(instruction);
            controller.lemma_sizes();
            self.lemma_registers();
        }
        let nnn = instruction & 0x0FFF;
        let nn = (instruction & 0x0FF) as u8;
        let n = (instruction & 0x0F) as u8;
        let x = ((instruction >> 8) & 0x0F) as usize;
        let y = ((instruction >> 4) & 0x0F) as usize;
        let vx = self.get_vx(x);
        let vy = self.get_vx(y);
        let op = (instruction >> 12) & 0x000F;
        if op == 0x0 {
            if nn == 0xE0 {
                controller.clr_scr();
                self.pc += 2;
            } else {
                match self.ret_stack.pop() {
                    Some(ret) => {
                        self.pc = ret;
                    },
                    None => {},
                }
            }
        } else if op == 0x1 {
            self.pc = nnn;
        } else if op == 0x2 {
            self.ret_stack.push(self.pc + 2);
            self.pc = nnn;
        } else if op == 0x3 {
            if vx == nn {
                self.pc += 4;
            } else {
                self.pc += 2;
            }
        } else if op == 0x4 {
            if vx != nn {
                self.pc += 4;
            } else {
                self.pc += 2;
            }
        } else if op == 0x5 {
            if vx == vy {
                self.pc += 4;
            } else {
                self.pc += 2;
            }
        } else if op == 0x6 {
            self.set_vx(x, nn);
            self.pc += 2;
        } else if op == 0xA {
            self.i = nnn;
            self.pc += 2;
        } else if op == 0x7 {
            self.set_vx(x, vx.wrapping_add(nn));
            self.pc += 2;
        } else if op == 0x8 {
            self.run_alu(x, y, n);
            self.pc += 2;
        } else if op == 0x9 {
            if vx != vy {
                self.pc += 4;
            } else {
                self.pc += 2;
            }
        } else if op == 0xB {
            self.pc = nnn + self.get_vx(0) as u16;
        } else if op == 0xD {
            self.draw_sprite(controller, vx, vy, n);
            self.pc += 2;
        } else if op == 0xC {
            self.set_vx(x, random & nn);
            self.pc += 2;
        } else if op == 0xE {
            if nn == 0x9E {
                if !controller.is_key_pressed(vx) {
                    self.pc += 4;
                } else {
                    self.pc += 2;
                }
            } else {
                if controller.is_key_pressed(vx) {
                    self.pc += 4;
                } else {
                    self.pc += 2;
                }
            }
        } else {
            assert(instruction == (0xF000 + x * 0x100 + nn) as u16) by (bit_vector)
                requires
                    (instruction >> 12u16) & 0xFu16 == 0xF,
                    x == (instruction >> 8u16) & 0xFu16,
                    nn == instruction & 0xFFu16,
            ;
            self.run_f(controller, x, nn, timer);
        }
    }

    /// Whether `run_instruction` can run the instruction at the program
    /// counter (see `can_step`).
    pub fn can_run_instruction(&self, controller: &Controller) -> (ok: bool)
        ensures
            ok == can_step(self@, controller@),
    {
        proof {
            controller.lemma_sizes();
            self.lemma_registers();
        }
        if self.pc as usize + 1 >= MEMORY_SIZE {
            return false;
        }
        let hi = controller.read_byte(self.pc as usize) as u16;
        let lo = controller.read_byte(self.pc as usize + 1) as u16;
        proof {
            lemma_word(hi, lo);
        }
        let instruction = hi << 8 | lo;
        proof {
            lemma_decode(instruction);
        }
        let nn = (instruction & 0x0FF) as u8;
        let n = (instruction & 0x0F) as u8;
        let x = ((instruction >> 8) & 0x0F) as usize;
        let y = ((instruction >> 4) & 0x0F) as usize;
        let op = (instruction >> 12) & 0x000F;
        let vx = self.get_vx(x);
        let vy = self.get_vx(y);
        let i = self.i as usize;
        if op == 0x0 {
            nn == 0xE0 || (nn == 0xEE && self.ret_stack.len() > 0)
        } else if op == 0x8 {
            n <= 7 || n == 0xE
        } else if op == 0xD {
            n == 0 || (i + n as usize - 1 < MEMORY_SIZE && vy as usize + n as usize - 1 <= 0xFF)
        } else if op == 0xE {
            nn == 0x9E || nn == 0xA1
        } else if op == 0xF {
            nn == 0x07 || nn == 0x0A || nn == 0x15 || nn == 0x18 || nn == 0x29 || (nn == 0x1E && i
                + vx as usize <= 0xFFFF) || (nn == 0x33 && i + 2 < MEMORY_SIZE) || ((nn == 0x55
                || nn == 0x65) && i + x < MEMORY_SIZE)
        } else {
            true
        }
    }

    /// Fetches the instruction at the program counter and carries it out.
    /// `CXNN` masks a byte drawn at random and `FX07` reads the delay
    /// timer as it stands now; apart from those two values the outcome is
    /// fixed by the machine state.
    pub fn run_instruction(&mut self, controller: &mut Controller)
        requires
            can_step(old(self)@, old(controller)@),
        ensures
            exists|random: u8, ms: u64|
                (final(self)@, final(controller)@) == #[trigger] execute_spec(
                    old(self)@,
                    old(controller)@,
                    fetch(old(controller)@.ram, old(self)@.pc),
                    random,
                    delay_remaining(old(controller)@.delay_timer, ms as int),
                ),
            ({
                let instr = fetch(old(controller)@.ram, old(self)@.pc);
                !(opcode(instr) == 0xF && low_byte(instr) == 0x15)
                    ==> final(controller).timer_started() == old(controller).timer_started()
            }),
    {
        proof {
            controller.lemma_sizes();
        }
        let hi = controller.read_byte(self.pc as usize) as u16;
        let lo = controller.read_byte(self.pc as usize + 1) as u16;
        proof {
            lemma_word(hi, lo);
        }
        let instruction = hi << 8 | lo;
        proof {
            lemma_decode(instruction);
        }
        let op = (instruction >> 12) & 0x000F;
        let random = if op == 0xC {
            random_byte()
        } else {
            0
        };
        let ghost mut ms: u64 = u64::MAX;
        let timer = if op == 0xF && (instruction & 0x0FF) == 0x07 {
            let t = controller.get_delay_timer();
            proof {
                ms = choose|w: u64| t == delay_remaining(controller@.delay_timer, w as int);
            }
            t
        } else {
            0
        };
        assert(timer == delay_remaining(controller@.delay_timer, ms as int));
        let ghost c0 = self@;
        let ghost m0 = controller@;
        self.execute(controller, instruction, random, timer);
        assert((self@, controller@) == execute_spec(c0, m0, fetch(m0.ram, c0.pc), random, delay_remaining(m0.delay_timer, ms as int)));
    }
}

} // verus!
