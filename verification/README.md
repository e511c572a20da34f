# chirp

A CHIP-8 interpreter. The library (`src/`) holds the machine and is
verified with Verus:

- `cpu`: the machine state, opcode fetch and decode, what every
  instruction does (`execute_spec`), and one machine cycle (`Chip8::cycle`),
  with `Chip8::can_cycle` telling whether a cycle can run without a fault.
- `execute`: the instruction set and which instruction an opcode names.
- `display`: sprite drawing (XOR with wrap-around and collision).
- `chip_timer`: the 60 Hz delay and sound timers and the beep flag.
- `timers`: a pair of countdown timers for a timer thread.
- `laws`: properties that span instructions (call/return, store/load,
  carries, BCD digits, font addresses, ...).
- `lib.rs`: constants, the usage text and where lit pixels go on screen.

`app/` is the program around it: command line (clap), ROM file, threads,
the raylib window, keyboard and sound.
