# chip8

A CHIP-8 virtual machine whose core is verified with Verus.

- `src/ram.rs`: the 4 KiB memory with the built-in hexadecimal font.
- `src/display.rs`: the 64x32 frame buffer and sprite-row drawing (XOR with
  wrap-around, collision reporting).
- `src/keyboard.rs`: the single held key and the host keyboard layout.
- `src/controller.rs`: memory, display, keypad and the 60 Hz delay timer as
  the CPU sees them.
- `src/cpu.rs`: the instruction set, specified by `execute_spec`, and the
  processor that fetches and runs instructions.
- `src/chip8.rs`: the whole machine.
- `src/frontend.rs`: the main loop's timing decisions and the scaling of the
  screen to the window.
- `app/main.rs`: the desktop program (file input, window, keyboard).
