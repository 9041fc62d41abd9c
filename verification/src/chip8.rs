use vstd::prelude::*;
use std::time::Instant;
use crate::cpu::opcode;
use crate::cpu::low_byte;
use crate::controller::Controller;
use crate::controller::ControllerState;
use crate::controller::delay_remaining;
use crate::cpu;
use crate::cpu::Cpu;
use crate::cpu::CpuState;
use crate::cpu::can_step;
use crate::cpu::execute_spec;
use crate::cpu::fetch;
use crate::display::blank_screen;
use crate::display::is_binary;
use crate::ram::MEMORY_SIZE;
use crate::ram::initial_memory;

verus! {

/// Memory after a program image `rom` is copied to the program start
/// address; everything else stays as it was.
pub open spec fn loaded_memory(ram: Seq<u8>, rom: Seq<u8>) -> Seq<u8> {
    let start = cpu::PROGRAM_START_ADDRESS as int;
    Seq::new(
        ram.len(),
        |a: int| if start <= a < start + rom.len() { rom[a - start] } else { ram[a] },
    )
}

/// After loading, byte `k` of the image sits at `0x200 + k` for every `k`
/// of the image, and every other address keeps its byte.
pub proof fn lemma_rom_loaded(ram: Seq<u8>, rom: Seq<u8>)
    requires
        ram.len() == MEMORY_SIZE,
        0x200 + rom.len() <= MEMORY_SIZE,
    ensures
        loaded_memory(ram, rom).len() == MEMORY_SIZE,
        forall|k: int| 0 <= k < rom.len() ==> #[trigger] loaded_memory(ram, rom)[0x200 + k] == rom[k],
        forall|a: int|
            0 <= a < MEMORY_SIZE && !(0x200 <= a < 0x200 + rom.len()) ==> #[trigger] loaded_memory(
                ram,
                rom,
            )[a] == ram[a],
{
}

/// A whole CHIP-8 machine: the CPU and what it is wired to.
pub struct Chip8 {
    controller: Controller,
    cpu: Cpu,
}

impl View for Chip8 {
    type V = (CpuState, ControllerState);

    closed spec fn view(&self) -> (CpuState, ControllerState) {
        (self.cpu@, self.controller@)
    }
}

impl Chip8 {
    /// The instant from which the delay timer counts down.
    pub closed spec fn timer_started(&self) -> Instant {
        self.controller.timer_started()
    }

    /// A machine just switched on: font in memory, blank screen, no key,
    /// registers zero, execution about to start at the program start
    /// address.
    pub fn new() -> (c: Chip8)
        ensures
            c@.0 == (CpuState {
                v: Seq::new(cpu::REGISTER_COUNT as nat, |k: int| 0u8),
                i: 0,
                pc: cpu::PROGRAM_START_ADDRESS,
                stack: Seq::empty(),
            }),
            c@.1 == (ControllerState {
                ram: initial_memory(),
                screen: blank_screen(),
                key: None,
                delay_timer: 0,
            }),
    {
        Chip8 { controller: Controller::new(), cpu: Cpu::new() }
    }

    /// Copies the program image `data` into memory at the program start
    /// address.
    pub fn load_rom(&mut self, data: &Vec<u8>)
        requires
            cpu::PROGRAM_START_ADDRESS + data@.len() <= MEMORY_SIZE,
        ensures
            final(self)@.0 == old(self)@.0,
            final(self)@.1 == (ControllerState {
                ram: loaded_memory(old(self)@.1.ram, data@),
                ..old(self)@.1
            }),
            final(self).timer_started() == old(self).timer_started(),
            final(self)@.1.ram.len() == MEMORY_SIZE,
            forall|k: int|
                0 <= k < data@.len() ==> #[trigger] final(self)@.1.ram[0x200 + k] == data@[k],
            forall|a: int|
                0 <= a < MEMORY_SIZE && !(0x200 <= a < 0x200 + data@.len())
                    ==> #[trigger] final(self)@.1.ram[a] == old(self)@.1.ram[a],
    {
        let ghost m0 = self.controller@;
        proof {
            self.controller.lemma_sizes();
        }
        let start = cpu::PROGRAM_START_ADDRESS as usize;
        let mut i: usize = 0;
        assert(m0.ram =~= Seq::new(
            m0.ram.len(),
            |a: int| if start <= a < start + i { data@[a - start] } else { m0.ram[a] },
        ));
        while i < data.len()
            invariant
                0 <= i <= data@.len(),
                start == cpu::PROGRAM_START_ADDRESS,
                start + data@.len() <= MEMORY_SIZE,
                m0.ram.len() == MEMORY_SIZE,
                self.controller@ == (ControllerState {
                    ram: Seq::new(
                        m0.ram.len(),
                        |a: int| if start <= a < start + i { data@[a - start] } else { m0.ram[a] },
                    ),
                    ..m0
                }),
                self.cpu@ == old(self).cpu@,
                self.timer_started() == old(self).timer_started(),
            decreases data@.len() - i,
        {
            self.controller.write_byte(start + i, data[i]);
            assert(self.controller@.ram =~= Seq::new(
                m0.ram.len(),
                |a: int| if start <= a < start + i + 1 { data@[a - start] } else { m0.ram[a] },
            ));
            i += 1;
        }
        assert(self.controller@.ram =~= loaded_memory(m0.ram, data@));
    }

    /// Whether the instruction at the program counter can be run (see
    /// `cpu::can_step`).
    pub fn can_execute_instruction(&self) -> (ok: bool)
        ensures
            ok == can_step(self@.0, self@.1),
    {
        self.cpu.can_run_instruction(&self.controller)
    }

    /// Runs the instruction at the program counter (see
    /// `Cpu::run_instruction`).
    pub fn execute_instruction(&mut self)
        requires
            can_step(old(self)@.0, old(self)@.1),
        ensures
            exists|random: u8, ms: u64|
                final(self)@ == #[trigger] execute_spec(
                    old(self)@.0,
                    old(self)@.1,
                    fetch(old(self)@.1.ram, old(self)@.0.pc),
                    random,
                    delay_remaining(old(self)@.1.delay_timer, ms as int),
                ),
            ({
                let instr = fetch(old(self)@.1.ram, old(self)@.0.pc);
                !(opcode(instr) == 0xF && low_byte(instr) == 0x15) ==> final(self).timer_started()
                    == old(self).timer_started()
            }),
    {
        self.cpu.run_instruction(&mut self.controller);
    }

    /// The frame buffer, row by row.
    pub fn get_display_buffer(&self) -> (buffer: &[u8])
        ensures
            buffer@ == self@.1.screen,
            is_binary(buffer@),
    {
        self.controller.get_display_buffer()
    }

    /// Records `key` as the key being held (`None`: no key).
    pub fn set_key_pressed(&mut self, key: Option<u8>)
        ensures
            final(self)@.0 == old(self)@.0,
            final(self)@.1 == (ControllerState { key: key, ..old(self)@.1 }),
            final(self).timer_started() == old(self).timer_started(),
    {
        self.controller.set_key_pressed(key);
    }
}

} // verus!
