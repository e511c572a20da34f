//! The CHIP-8 machine: its state, how an opcode is fetched and decoded, and
//! what each instruction does to the state.
use vstd::prelude::*;

use crate::chip_timer::{ChipTimer, TimerState};
use crate::display::{draw_collides, draw_sprite, drawn_display};
use crate::execute::{get_instruction, instruction_spec, Chip8Instruction};
use crate::{DisplayArray, KeypadArray, CHIP8_DISPLAY_SIZE, FONTSET_SIZE, MAX_ROM_SIZE, START_ADDRESS};

verus! {

/// An opcode cut into the pieces that instructions read.
#[derive(Debug, Clone, Copy, PartialEq, Eq, Structural)]
pub struct DecodedOpcode {
    /// Target register index (second nibble).
    pub x: usize,
    /// Source register index (third nibble).
    pub y: usize,
    /// Instruction group (first nibble).
    pub n1: u8,
    /// Immediate nibble (last nibble).
    pub n: u8,
    /// Immediate byte (low byte).
    pub nn: u8,
    /// Memory address (low twelve bits).
    pub nnn: u16,
}

/// The pieces of a 16-bit opcode, by arithmetic on its value.
pub open spec fn decode_spec(opcode: u16) -> DecodedOpcode {
    DecodedOpcode {
        x: ((opcode / 256) % 16) as usize,
        y: ((opcode / 16) % 16) as usize,
        n1: (opcode / 4096) as u8,
        n: (opcode % 16) as u8,
        nn: (opcode % 256) as u8,
        nnn: (opcode % 4096) as u16,
    }
}

/// Splits a 16-bit opcode into its nibbles, its low byte and its low
/// twelve bits. The pieces put back together give the opcode again.
pub fn decode_opcode(opcode: u16) -> (d: DecodedOpcode)
    ensures
        d == decode_spec(opcode),
        d.x < 16 && d.y < 16 && d.n1 < 16 && d.n < 16 && d.nnn < 4096,
        opcode == d.n1 * 4096 + d.x * 256 + d.y * 16 + d.n,
        d.nn == d.y * 16 + d.n,
        d.nnn == d.x * 256 + d.nn,
{
    let x: u16 = (opcode & 0x0F00) >> 8;
    let y: u16 = (opcode & 0x00F0) >> 4;
    let n1: u16 = (opcode & 0xF000) >> 12;
    let n: u16 = opcode & 0x000F;
    let nn: u16 = opcode & 0x00FF;
    let nnn: u16 = opcode & 0x0FFF;
    assert(x == (opcode / 256) % 16 && y == (opcode / 16) % 16 && n1 == opcode / 4096 && n
        == opcode % 16 && nn == opcode % 256 && nnn == opcode % 4096 && x < 16 && y < 16 && n1
        < 16 && n < 16 && opcode == n1 * 4096 + x * 256 + y * 16 + n && nn == y * 16 + n && nnn
        == x * 256 + nn) by (bit_vector)
        requires
            x == (opcode & 0x0F00) >> 8,
            y == (opcode & 0x00F0) >> 4,
            n1 == (opcode & 0xF000) >> 12,
            n == opcode & 0x000F,
            nn == opcode & 0x00FF,
            nnn == opcode & 0x0FFF,
    ;
    DecodedOpcode {
        x: x as usize,
        y: y as usize,
        n1: n1 as u8,
        n: n as u8,
        nn: nn as u8,
        nnn: nnn,
    }
}

} // verus!

verus! {

/// The font: one 5-byte sprite for each hexadecimal digit, 0 to F.
pub const FONTSET: [u8; 80] = [
    0xF0, 0x90, 0x90, 0x90, 0xF0, // 0
    0x20, 0x60, 0x20, 0x20, 0x70, // 1
    0xF0, 0x10, 0xF0, 0x80, 0xF0, // 2
    0xF0, 0x10, 0xF0, 0x10, 0xF0, // 3
    0x90, 0x90, 0xF0, 0x10, 0x10, // 4
    0xF0, 0x80, 0xF0, 0x10, 0xF0, // 5
    0xF0, 0x80, 0xF0, 0x90, 0xF0, // 6
    0xF0, 0x10, 0x20, 0x40, 0x40, // 7
    0xF0, 0x90, 0xF0, 0x90, 0xF0, // 8
    0xF0, 0x90, 0xF0, 0x10, 0xF0, // 9
    0xF0, 0x90, 0xF0, 0x90, 0x90, // A
    0xE0, 0x90, 0xE0, 0x90, 0xE0, // B
    0xF0, 0x80, 0x80, 0x80, 0xF0, // C
    0xE0, 0x90, 0x90, 0x90, 0xE0, // D
    0xF0, 0x80, 0xF0, 0x80, 0xF0, // E
    0xF0, 0x80, 0xF0, 0x80, 0x80, // F
];

/// A CHIP-8 machine.
#[derive(Debug)]
pub struct Chip8 {
    /// 4 KiB of RAM.
    pub memory: [u8; 4096],
    /// The registers V0 to VF.
    pub registers: [u8; 16],
    /// The index register I, which holds memory addresses.
    pub index_reg: u16,
    /// The program counter.
    pub pcounter: u16,
    /// The call stack of return addresses.
    pub stack: Vec<u16>,
    /// Which of the 16 keys are down.
    pub keypad: KeypadArray,
    /// The 64 x 32 monochrome display, row by row.
    pub display: DisplayArray,
    /// Whether to follow the quirks of the original hardware.
    pub og_behaviour: bool,
    pub delay_timer: u8,
    pub sound_timer: u8,
    pub frame_count: u128,
}

/// The abstract state of a machine.
#[verifier::ext_equal]
pub struct Chip8State {
    pub memory: Seq<u8>,
    pub registers: Seq<u8>,
    pub index_reg: u16,
    pub pcounter: u16,
    pub stack: Seq<u16>,
    pub keypad: Seq<bool>,
    pub display: Seq<bool>,
    pub og_behaviour: bool,
    pub delay_timer: u8,
    pub sound_timer: u8,
    pub frame_count: u128,
}

impl View for Chip8 {
    type V = Chip8State;

    open spec fn view(&self) -> Chip8State {
        Chip8State {
            memory: self.memory@,
            registers: self.registers@,
            index_reg: self.index_reg,
            pcounter: self.pcounter,
            stack: self.stack@,
            keypad: self.keypad@,
            display: self.display@,
            og_behaviour: self.og_behaviour,
            delay_timer: self.delay_timer,
            sound_timer: self.sound_timer,
            frame_count: self.frame_count,
        }
    }
}

/// The state of a machine that was just switched on: the font at the
/// start of memory and zeros after it, all registers at zero, the program
/// counter at the start address, an empty stack, no key down and a dark
/// display.
pub open spec fn initial_state(og: bool) -> Chip8State {
    Chip8State {
        memory: Seq::new(4096, |i: int| if i < FONTSET_SIZE { FONTSET@[i] } else { 0u8 }),
        registers: Seq::new(16, |i: int| 0u8),
        index_reg: 0,
        pcounter: START_ADDRESS,
        stack: Seq::empty(),
        keypad: Seq::new(16, |i: int| false),
        display: Seq::new(CHIP8_DISPLAY_SIZE as nat, |i: int| false),
        og_behaviour: og,
        delay_timer: 0,
        sound_timer: 0,
        frame_count: 0,
    }
}

/// A ROM that is too large to fit in memory after the start address.
#[derive(Debug, Clone, Copy, PartialEq, Eq, Structural)]
pub enum RomError {
    TooLarge,
}

/// Memory after a ROM was copied to it from the start address on.
pub open spec fn memory_with_rom(mem: Seq<u8>, rom: Seq<u8>) -> Seq<u8> {
    Seq::new(
        mem.len(),
        |i: int|
            if START_ADDRESS <= i < START_ADDRESS + rom.len() {
                rom[i - START_ADDRESS]
            } else {
                mem[i]
            },
    )
}

impl Chip8 {
    /// A machine that was just switched on, following the quirks of the
    /// original hardware when `og` is set.
    pub fn new(og: bool) -> (c: Self)
        ensures
            c@ == initial_state(og),
    {
        let mut new_cpu = Self {
            memory: [0u8; 4096],
            registers: [0u8; 16],
            index_reg: 0,
            pcounter: START_ADDRESS,
            stack: Vec::with_capacity(16),
            keypad: [false; 16],
            display: [false; CHIP8_DISPLAY_SIZE],
            og_behaviour: og,
            delay_timer: 0,
            sound_timer: 0,
            frame_count: 0,
        };
        new_cpu.load_font();
        assert(new_cpu.memory@ =~= initial_state(og).memory);
        assert(new_cpu.registers@ =~= initial_state(og).registers);
        assert(new_cpu.keypad@ =~= initial_state(og).keypad);
        assert(new_cpu.display@ =~= initial_state(og).display);
        new_cpu
    }

    /// Puts the font into the first 80 bytes of memory.
    fn load_font(&mut self)
        ensures
            final(self)@ == (Chip8State {
                memory: Seq::new(
                    4096,
                    |i: int| if i < FONTSET_SIZE { FONTSET@[i] } else { old(self).memory[i] },
                ),
                ..old(self)@
            }),
    {
        let ghost old_mem = self.memory@;
        let font = FONTSET;
        let mut i: usize = 0;
        while i < FONTSET_SIZE
            invariant
                i <= FONTSET_SIZE,
                font@ == FONTSET@,
                self.memory@.len() == 4096,
                forall|k: int| 0 <= k < i ==> self.memory@[k] == FONTSET@[k],
                forall|k: int| i <= k < 4096 ==> self.memory@[k] == old_mem[k],
                self.registers == old(self).registers,
                self.index_reg == old(self).index_reg,
                self.pcounter == old(self).pcounter,
                self.stack == old(self).stack,
                self.keypad == old(self).keypad,
                self.display == old(self).display,
                self.og_behaviour == old(self).og_behaviour,
                self.delay_timer == old(self).delay_timer,
                self.sound_timer == old(self).sound_timer,
                self.frame_count == old(self).frame_count,
                old_mem == old(self).memory@,
            decreases FONTSET_SIZE - i,
        {
            self.memory[i] = font[i];
            i = i + 1;
        }
        assert(self.memory@ =~= Seq::new(
            4096,
            |k: int| if k < FONTSET_SIZE { FONTSET@[k] } else { old(self).memory@[k] },
        ));
    }

    /// Copies a ROM into memory from the start address on. A ROM longer
    /// than the memory after the start address is refused, and nothing
    /// changes.
    pub fn load_rom(&mut self, rom: &[u8]) -> (r: Result<(), RomError>)
        ensures
            rom@.len() > MAX_ROM_SIZE ==> r == Err::<(), RomError>(RomError::TooLarge)
                && final(self)@ == old(self)@,
            rom@.len() <= MAX_ROM_SIZE ==> r is Ok && final(self)@ == (Chip8State {
                memory: memory_with_rom(old(self)@.memory, rom@),
                ..old(self)@
            }),
    {
        if rom.len() > MAX_ROM_SIZE {
            return Err(RomError::TooLarge);
        }
        let start_address: usize = START_ADDRESS as usize;
        let mut i: usize = 0;
        while i < rom.len()
            invariant
                i <= rom@.len() <= MAX_ROM_SIZE,
                start_address == START_ADDRESS,
                self.memory@.len() == 4096,
                forall|k: int|
                    0 <= k < 4096 ==> self.memory@[k] == (if START_ADDRESS <= k < START_ADDRESS
                        + i { rom@[k - START_ADDRESS] } else { old(self).memory@[k] }),
                self.registers == old(self).registers,
                self.index_reg == old(self).index_reg,
                self.pcounter == old(self).pcounter,
                self.stack == old(self).stack,
                self.keypad == old(self).keypad,
                self.display == old(self).display,
                self.og_behaviour == old(self).og_behaviour,
                self.delay_timer == old(self).delay_timer,
                self.sound_timer == old(self).sound_timer,
                self.frame_count == old(self).frame_count,
            decreases rom@.len() - i,
        {
            self.memory[start_address + i] = rom[i];
            i = i + 1;
        }
        assert(self.memory@ =~= memory_with_rom(old(self)@.memory, rom@));
        Ok(())
    }
}

} // verus!

verus! {

/// The pieces of an opcode are in range: register numbers and the
/// immediate nibble below 16, the address below 4096.
pub open spec fn decoded_wf(d: DecodedOpcode) -> bool {
    d.x < 16 && d.y < 16 && d.n < 16 && d.nnn < 4096
}

/// The state with the program counter moved past the next instruction when
/// `c` holds.
pub open spec fn skip_if(s: Chip8State, c: bool) -> Chip8State {
    if c {
        Chip8State { pcounter: (s.pcounter + 2) as u16, ..s }
    } else {
        s
    }
}

/// The state with other registers.
pub open spec fn with_registers(s: Chip8State, regs: Seq<u8>) -> Chip8State {
    Chip8State { registers: regs, ..s }
}

/// The registers with VF cleared when the original hardware's quirks are
/// followed.
pub open spec fn reset_vf_if_og(regs: Seq<u8>, og: bool) -> Seq<u8> {
    if og {
        regs.update(15, 0u8)
    } else {
        regs
    }
}

/// The register that the shift instructions shift: VY on the original
/// hardware, VX otherwise.
pub open spec fn shift_source(s: Chip8State, d: DecodedOpcode) -> u8 {
    if s.og_behaviour {
        s.registers[d.y as int]
    } else {
        s.registers[d.x as int]
    }
}

/// The index register after a register store or load: advanced past the
/// registers on the original hardware, unchanged otherwise.
pub open spec fn index_after_transfer(s: Chip8State, d: DecodedOpcode) -> u16 {
    if s.og_behaviour {
        ((s.index_reg + d.x + 1) % 0x10000) as u16
    } else {
        s.index_reg
    }
}

/// Whether some key is down.
pub open spec fn any_key(keypad: Seq<bool>) -> bool {
    keypad.contains(true)
}

/// When an instruction can run on a state without an out-of-range index,
/// an arithmetic overflow or a return with an empty stack.
pub open spec fn execute_safe(s: Chip8State, ins: Chip8Instruction, d: DecodedOpcode) -> bool {
    let vx = s.registers[d.x as int];
    match ins {
        Chip8Instruction::_00EE => s.stack.len() > 0,
        Chip8Instruction::_3XNN | Chip8Instruction::_4XNN | Chip8Instruction::_5XY0
        | Chip8Instruction::_9XY0 => s.pcounter + 2 <= u16::MAX,
        Chip8Instruction::_DXYN => d.n == 0 || s.index_reg + d.n <= 4096,
        Chip8Instruction::_EX9A | Chip8Instruction::_EXA1 => vx < 16 && s.pcounter + 2
            <= u16::MAX,
        Chip8Instruction::_FX0A => any_key(s.keypad) || s.pcounter >= 2,
        Chip8Instruction::_FX1E => s.index_reg + vx <= u16::MAX,
        Chip8Instruction::_FX33 => s.index_reg + 2 < 4096,
        Chip8Instruction::_FX55 | Chip8Instruction::_FX65 => s.index_reg + d.x + 1 <= 4096,
        _ => true,
    }
}

/// What an instruction does to the machine and its timers. The program
/// counter has already moved past the instruction. `rnd` is the random
/// byte that CXNN masks; no other instruction reads it.
pub open spec fn execute_spec(
    s: Chip8State,
    t: TimerState,
    ins: Chip8Instruction,
    d: DecodedOpcode,
    rnd: u8,
) -> (Chip8State, TimerState) {
    let x = d.x as int;
    let y = d.y as int;
    let regs = s.registers;
    let vx = regs[x];
    let vy = regs[y];
    let og = s.og_behaviour;
    match ins {
        Chip8Instruction::_00E0 => (
            Chip8State { display: Seq::new(CHIP8_DISPLAY_SIZE as nat, |i: int| false), ..s },
            t,
        ),
        Chip8Instruction::_00EE => (
            Chip8State { pcounter: s.stack.last(), stack: s.stack.drop_last(), ..s },
            t,
        ),
        Chip8Instruction::_1NNN => (Chip8State { pcounter: d.nnn, ..s }, t),
        Chip8Instruction::_2NNN => (
            Chip8State { stack: s.stack.push(s.pcounter), pcounter: d.nnn, ..s },
            t,
        ),
        Chip8Instruction::_3XNN => (skip_if(s, vx == d.nn), t),
        Chip8Instruction::_4XNN => (skip_if(s, vx != d.nn), t),
        Chip8Instruction::_5XY0 => (skip_if(s, vx == vy), t),
        Chip8Instruction::_6XNN => (with_registers(s, regs.update(x, d.nn)), t),
        Chip8Instruction::_7XNN => (
            with_registers(s, regs.update(x, ((vx + d.nn) % 256) as u8)),
            t,
        ),
        Chip8Instruction::_8XY0 => (with_registers(s, regs.update(x, vy)), t),
        Chip8Instruction::_8XY1 => (
            with_registers(s, reset_vf_if_og(regs.update(x, vx | vy), og)),
            t,
        ),
        Chip8Instruction::_8XY2 => (
            with_registers(s, reset_vf_if_og(regs.update(x, vx & vy), og)),
            t,
        ),
        Chip8Instruction::_8XY3 => (
            with_registers(s, reset_vf_if_og(regs.update(x, vx ^ vy), og)),
            t,
        ),
        Chip8Instruction::_8XY4 => (
            with_registers(
                s,
                regs.update(x, ((vx + vy) % 256) as u8).update(
                    15,
                    if vx + vy > 255 {
                        1u8
                    } else {
                        0u8
                    },
                ),
            ),
            t,
        ),
        Chip8Instruction::_8XY5 => (
            with_registers(
                s,
                regs.update(x, ((vx - vy + 256) % 256) as u8).update(
                    15,
                    if vx >= vy {
                        1u8
                    } else {
                        0u8
                    },
                ),
            ),
            t,
        ),
        Chip8Instruction::_8XY6 => {
            let v = shift_source(s, d);
            (with_registers(s, regs.update(x, v).update(15, v % 2).update(x, v / 2)), t)
        },
        Chip8Instruction::_8XY7 => (
            with_registers(s, regs.update(x, ((vy - vx + 256) % 256) as u8)),
            t,
        ),
        Chip8Instruction::_8XYE => {
            let v = shift_source(s, d);
            (
                with_registers(
                    s,
                    regs.update(x, v).update(15, v / 128).update(x, ((v * 2) % 256) as u8),
                ),
                t,
            )
        },
        Chip8Instruction::_9XY0 => (skip_if(s, vx != vy), t),
        Chip8Instruction::_ANNN => (Chip8State { index_reg: d.nnn, ..s }, t),
        Chip8Instruction::_BNNN => (
            Chip8State { pcounter: (d.nnn + regs[0]) as u16, ..s },
            t,
        ),
        Chip8Instruction::_BXNN => (Chip8State { pcounter: (d.nnn + vx) as u16, ..s }, t),
        Chip8Instruction::_CXNN => (with_registers(s, regs.update(x, rnd & d.nn)), t),
        Chip8Instruction::_DXYN => (
            Chip8State {
                display: drawn_display(s.display, s.memory, s.index_reg, vx, vy, d.n),
                registers: regs.update(
                    15,
                    if draw_collides(s.display, s.memory, s.index_reg, vx, vy, d.n) {
                        1u8
                    } else {
                        0u8
                    },
                ),
                ..s
            },
            t,
        ),
        Chip8Instruction::_EX9A => (skip_if(s, s.keypad[vx as int]), t),
        Chip8Instruction::_EXA1 => (skip_if(s, !s.keypad[vx as int]), t),
        Chip8Instruction::_FX07 => (with_registers(s, regs.update(x, t.delay)), t),
        Chip8Instruction::_FX0A => (
            Chip8State {
                pcounter: if any_key(s.keypad) {
                    s.pcounter
                } else {
                    (s.pcounter - 2) as u16
                },
                ..s
            },
            t,
        ),
        Chip8Instruction::_FX15 => (s, TimerState { delay: vx, ..t }),
        Chip8Instruction::_FX18 => (s, TimerState { sound: vx, ..t }),
        Chip8Instruction::_FX29 => (Chip8State { index_reg: ((vx % 16) * 5) as u16, ..s }, t),
        Chip8Instruction::_FX1E => (Chip8State { index_reg: (s.index_reg + vx) as u16, ..s }, t),
        Chip8Instruction::_FX33 => (
            Chip8State {
                memory: s.memory.update(s.index_reg + 2, vx % 10).update(
                    s.index_reg + 1,
                    vx / 10 % 10,
                ).update(s.index_reg as int, vx / 100 % 10),
                ..s
            },
            t,
        ),
        Chip8Instruction::_FX55 => (
            Chip8State {
                memory: Seq::new(
                    s.memory.len(),
                    |k: int|
                        if s.index_reg <= k <= s.index_reg + x {
                            regs[k - s.index_reg]
                        } else {
                            s.memory[k]
                        },
                ),
                index_reg: index_after_transfer(s, d),
                ..s
            },
            t,
        ),
        Chip8Instruction::_FX65 => (
            Chip8State {
                registers: Seq::new(
                    regs.len(),
                    |k: int|
                        if k <= x {
                            s.memory[s.index_reg + k]
                        } else {
                            regs[k]
                        },
                ),
                index_reg: index_after_transfer(s, d),
                ..s
            },
            t,
        ),
    }
}

/// Whether an instruction changes what the display shows.
pub open spec fn changes_display(ins: Chip8Instruction) -> bool {
    ins == Chip8Instruction::_00E0 || ins == Chip8Instruction::_DXYN
}

} // verus!

verus! {

/// Whether some key is down on a keypad.
fn any_key_down(keypad: &[bool; 16]) -> (b: bool)
    ensures
        b == any_key(keypad@),
{
    let mut i: usize = 0;
    while i < 16
        invariant
            i <= 16,
            keypad@.len() == 16,
            forall|k: int| 0 <= k < i ==> !keypad@[k],
        decreases 16 - i,
    {
        if keypad[i] {
            assert(keypad@[i as int] == true);
            return true;
        }
        i = i + 1;
    }
    assert(!keypad@.contains(true));
    false
}

impl Chip8 {
    /// Runs one instruction whose opcode was already fetched and decoded
    /// (the program counter has moved past it). `random_byte` is what CXNN
    /// masks. Tells whether what the display shows may have changed.
    pub fn execute(
        &mut self,
        timer: &mut ChipTimer,
        instruction: Chip8Instruction,
        decoded: &DecodedOpcode,
        random_byte: u8,
    ) -> (display_changed: bool)
        requires
            decoded_wf(*decoded),
            execute_safe(old(self)@, instruction, *decoded),
        ensures
            final(self)@ == execute_spec(
                old(self)@,
                old(timer)@,
                instruction,
                *decoded,
                random_byte,
            ).0,
            final(timer)@ == execute_spec(
                old(self)@,
                old(timer)@,
                instruction,
                *decoded,
                random_byte,
            ).1,
            display_changed == changes_display(instruction),
    {
        match instruction {
            Chip8Instruction::_00E0 | Chip8Instruction::_00EE | Chip8Instruction::_1NNN | Chip8Instruction::_2NNN | Chip8Instruction::_3XNN | Chip8Instruction::_4XNN | Chip8Instruction::_5XY0 | Chip8Instruction::_9XY0 | Chip8Instruction::_ANNN | Chip8Instruction::_BNNN | Chip8Instruction::_BXNN | Chip8Instruction::_EX9A | Chip8Instruction::_EXA1 | Chip8Instruction::_FX0A => self.execute_control(timer, instruction, decoded, random_byte),
            Chip8Instruction::_6XNN | Chip8Instruction::_7XNN | Chip8Instruction::_8XY0 | Chip8Instruction::_8XY1 | Chip8Instruction::_8XY2 | Chip8Instruction::_8XY3 | Chip8Instruction::_8XY7 | Chip8Instruction::_CXNN => self.execute_logic(timer, instruction, decoded, random_byte),
            Chip8Instruction::_8XY4 | Chip8Instruction::_8XY5 | Chip8Instruction::_8XY6 | Chip8Instruction::_8XYE => self.execute_flagged(timer, instruction, decoded, random_byte),
            Chip8Instruction::_DXYN | Chip8Instruction::_FX07 | Chip8Instruction::_FX15 | Chip8Instruction::_FX18 | Chip8Instruction::_FX29 | Chip8Instruction::_FX1E | Chip8Instruction::_FX33 | Chip8Instruction::_FX55 | Chip8Instruction::_FX65 => self.execute_misc(timer, instruction, decoded, random_byte),
        }
    }

    /// Runs an instruction that clears the display or moves the program counter.
    fn execute_control(
        &mut self,
        timer: &mut ChipTimer,
        instruction: Chip8Instruction,
        decoded: &DecodedOpcode,
        random_byte: u8,
    ) -> (display_changed: bool)
        requires
            decoded_wf(*decoded),
            execute_safe(old(self)@, instruction, *decoded),
            instruction == Chip8Instruction::_00E0 || instruction == Chip8Instruction::_00EE || instruction == Chip8Instruction::_1NNN || instruction == Chip8Instruction::_2NNN || instruction == Chip8Instruction::_3XNN || instruction == Chip8Instruction::_4XNN || instruction == Chip8Instruction::_5XY0 || instruction == Chip8Instruction::_9XY0 || instruction == Chip8Instruction::_ANNN || instruction == Chip8Instruction::_BNNN || instruction == Chip8Instruction::_BXNN || instruction == Chip8Instruction::_EX9A || instruction == Chip8Instruction::_EXA1 || instruction == Chip8Instruction::_FX0A,
        ensures
            final(self)@ == execute_spec(
                old(self)@,
                old(timer)@,
                instruction,
                *decoded,
                random_byte,
            ).0,
            final(timer)@ == execute_spec(
                old(self)@,
                old(timer)@,
                instruction,
                *decoded,
                random_byte,
            ).1,
            display_changed == changes_display(instruction),
    {
        let x = decoded.x;
        let y = decoded.y;
        match instruction {
            Chip8Instruction::_00E0 => {
                self.display = [false; CHIP8_DISPLAY_SIZE];
                assert(self.display@ =~= Seq::new(CHIP8_DISPLAY_SIZE as nat, |i: int| false));
                return true;
            },
            Chip8Instruction::_00EE => {
                match self.stack.pop() {
                    Some(addr) => {
                        self.pcounter = addr;
                    },
                    None => {},
                }
            },
            Chip8Instruction::_1NNN => {
                self.pcounter = decoded.nnn;
            },
            Chip8Instruction::_2NNN => {
                self.stack.push(self.pcounter);
                self.pcounter = decoded.nnn;
            },
            Chip8Instruction::_3XNN => {
                if self.registers[x] == decoded.nn {
                    self.pcounter += 2;
                }
            },
            Chip8Instruction::_4XNN => {
                if self.registers[x] != decoded.nn {
                    self.pcounter += 2;
                }
            },
            Chip8Instruction::_5XY0 => {
                if self.registers[x] == self.registers[y] {
                    self.pcounter += 2;
                }
            },
            Chip8Instruction::_9XY0 => {
                if self.registers[x] != self.registers[y] {
                    self.pcounter += 2;
                }
            },
            Chip8Instruction::_ANNN => {
                self.index_reg = decoded.nnn;
            },
            Chip8Instruction::_BNNN => {
                self.pcounter = decoded.nnn + self.registers[0] as u16;
            },
            Chip8Instruction::_BXNN => {
                self.pcounter = decoded.nnn + self.registers[x] as u16;
            },
            Chip8Instruction::_EX9A => {
                let key: usize = self.registers[x] as usize;
                if self.keypad[key] {
                    self.pcounter += 2;
                }
            },
            Chip8Instruction::_EXA1 => {
                let key: usize = self.registers[x] as usize;
                if !self.keypad[key] {
                    self.pcounter += 2;
                }
            },
            Chip8Instruction::_FX0A => {
                // Pause until a key is down: with no key down, go back to this
                // instruction; with one down, go on to the next.
                if !any_key_down(&self.keypad) {
                    self.pcounter -= 2;
                }
            },
            _ => {},
        }
        false
    }

    /// Runs an instruction that sets a register from registers, the opcode or the random
    /// byte, leaving VF alone unless the quirks clear it.
    fn execute_logic(
        &mut self,
        timer: &mut ChipTimer,
        instruction: Chip8Instruction,
        decoded: &DecodedOpcode,
        random_byte: u8,
    ) -> (display_changed: bool)
        requires
            decoded_wf(*decoded),
            execute_safe(old(self)@, instruction, *decoded),
            instruction == Chip8Instruction::_6XNN || instruction == Chip8Instruction::_7XNN || instruction == Chip8Instruction::_8XY0 || instruction == Chip8Instruction::_8XY1 || instruction == Chip8Instruction::_8XY2 || instruction == Chip8Instruction::_8XY3 || instruction == Chip8Instruction::_8XY7 || instruction == Chip8Instruction::_CXNN,
        ensures
            final(self)@ == execute_spec(
                old(self)@,
                old(timer)@,
                instruction,
                *decoded,
                random_byte,
            ).0,
            final(timer)@ == execute_spec(
                old(self)@,
                old(timer)@,
                instruction,
                *decoded,
                random_byte,
            ).1,
            display_changed == changes_display(instruction),
    {
        let x = decoded.x;
        let y = decoded.y;
        match instruction {
            Chip8Instruction::_6XNN => {
                self.registers[x] = decoded.nn;
            },
            Chip8Instruction::_7XNN => {
                proof {
                    lemma_wrap_add(self.registers@[x as int], decoded.nn);
                }
                self.registers[x] = self.registers[x].wrapping_add(decoded.nn);
            },
            Chip8Instruction::_8XY0 => {
                self.registers[x] = self.registers[y];
            },
            Chip8Instruction::_8XY1 => {
                self.registers[x] = self.registers[x] | self.registers[y];
                if self.og_behaviour {
                    self.registers[15] = 0;
                }
            },
            Chip8Instruction::_8XY2 => {
                self.registers[x] = self.registers[x] & self.registers[y];
                if self.og_behaviour {
                    self.registers[15] = 0;
                }
            },
            Chip8Instruction::_8XY3 => {
                self.registers[x] = self.registers[x] ^ self.registers[y];
                if self.og_behaviour {
                    self.registers[15] = 0;
                }
            },
            Chip8Instruction::_8XY7 => {
                proof {
                    lemma_wrap_sub(self.registers@[y as int], self.registers@[x as int]);
                }
                self.registers[x] = self.registers[y].wrapping_sub(self.registers[x]);
            },
            Chip8Instruction::_CXNN => {
                self.registers[x] = random_byte & decoded.nn;
            },
            _ => {},
        }
        false
    }

    /// Runs an arithmetic or shift instruction that sets VF to its carry, borrow or
    /// shifted-out bit.
    fn execute_flagged(
        &mut self,
        timer: &mut ChipTimer,
        instruction: Chip8Instruction,
        decoded: &DecodedOpcode,
        random_byte: u8,
    ) -> (display_changed: bool)
        requires
            decoded_wf(*decoded),
            execute_safe(old(self)@, instruction, *decoded),
            instruction == Chip8Instruction::_8XY4 || instruction == Chip8Instruction::_8XY5 || instruction == Chip8Instruction::_8XY6 || instruction == Chip8Instruction::_8XYE,
        ensures
            final(self)@ == execute_spec(
                old(self)@,
                old(timer)@,
                instruction,
                *decoded,
                random_byte,
            ).0,
            final(timer)@ == execute_spec(
                old(self)@,
                old(timer)@,
                instruction,
                *decoded,
                random_byte,
            ).1,
            display_changed == changes_display(instruction),
    {
        let x = decoded.x;
        let y = decoded.y;
        match instruction {
            Chip8Instruction::_8XY4 => {
                proof {
                    lemma_wrap_add(self.registers@[x as int], self.registers@[y as int]);
                }
                let result: u16 = self.registers[x] as u16 + self.registers[y] as u16;
                self.registers[x] = self.registers[x].wrapping_add(self.registers[y]);
                if result > 255 {
                    self.registers[15] = 1;
                } else {
                    self.registers[15] = 0;
                }
            },
            Chip8Instruction::_8XY5 => {
                let borrow_flag: u8 = if self.registers[x] >= self.registers[y] {
                    1
                } else {
                    0
                };
                proof {
                    lemma_wrap_sub(self.registers@[x as int], self.registers@[y as int]);
                }
                let result = self.registers[x].wrapping_sub(self.registers[y]);
                self.registers[x] = result;
                self.registers[15] = borrow_flag;
            },
            Chip8Instruction::_8XY6 => {
                if self.og_behaviour {
                    self.registers[x] = self.registers[y];
                }
                let tmp_vx = self.registers[x];
                let lsb = tmp_vx & 1;
                assert(lsb == tmp_vx % 2) by (bit_vector)
                    requires
                        lsb == tmp_vx & 1,
                ;
                self.registers[15] = lsb;
                let half = tmp_vx >> 1;
                assert(half == tmp_vx / 2) by (bit_vector)
                    requires
                        half == tmp_vx >> 1,
                ;
                self.registers[x] = half;
            },
            Chip8Instruction::_8XYE => {
                if self.og_behaviour {
                    self.registers[x] = self.registers[y];
                }
                let tmp_vx = self.registers[x];
                let msb: u8 = tmp_vx >> 7;
                assert(msb == tmp_vx / 128) by (bit_vector)
                    requires
                        msb == tmp_vx >> 7,
                ;
                self.registers[15] = msb;
                let doubled = tmp_vx << 1;
                assert(doubled == (tmp_vx * 2) % 256) by (bit_vector)
                    requires
                        doubled == tmp_vx << 1,
                ;
                self.registers[x] = doubled;
            },
            _ => {},
        }
        false
    }

    /// Runs an instruction that draws, reads or sets the timers, or moves data between registers and memory.
    fn execute_misc(
        &mut self,
        timer: &mut ChipTimer,
        instruction: Chip8Instruction,
        decoded: &DecodedOpcode,
        random_byte: u8,
    ) -> (display_changed: bool)
        requires
            decoded_wf(*decoded),
            execute_safe(old(self)@, instruction, *decoded),
            instruction == Chip8Instruction::_DXYN || instruction == Chip8Instruction::_FX07 || instruction == Chip8Instruction::_FX15 || instruction == Chip8Instruction::_FX18 || instruction == Chip8Instruction::_FX29 || instruction == Chip8Instruction::_FX1E || instruction == Chip8Instruction::_FX33 || instruction == Chip8Instruction::_FX55 || instruction == Chip8Instruction::_FX65,
        ensures
            final(self)@ == execute_spec(
                old(self)@,
                old(timer)@,
                instruction,
                *decoded,
                random_byte,
            ).0,
            final(timer)@ == execute_spec(
                old(self)@,
                old(timer)@,
                instruction,
                *decoded,
                random_byte,
            ).1,
            display_changed == changes_display(instruction),
    {
        let x = decoded.x;
        let y = decoded.y;
        match instruction {
            Chip8Instruction::_DXYN => {
                let vx = self.registers[x];
                let vy = self.registers[y];
                let collision = draw_sprite(
                    &mut self.display,
                    &self.memory,
                    self.index_reg,
                    vx,
                    vy,
                    decoded.n,
                );
                if collision {
                    self.registers[15] = 1;
                } else {
                    self.registers[15] = 0;
                }
                return true;
            },
            Chip8Instruction::_FX07 => {
                self.registers[x] = timer.read_dt();
            },
            Chip8Instruction::_FX15 => {
                timer.write_dt(self.registers[x]);
            },
            Chip8Instruction::_FX18 => {
                timer.write_st(self.registers[x]);
            },
            Chip8Instruction::_FX29 => {
                let vx = self.registers[x];
                let lb = (vx & 0x0F) as u8;
                let quad = lb << 2;
                assert(lb == vx % 16 && quad == lb * 4) by (bit_vector)
                    requires
                        lb == vx & 0x0F,
                        quad == lb << 2,
                ;
                let shifted = quad + lb;
                self.index_reg = (shifted + 0x000) as u16;
            },
            Chip8Instruction::_FX1E => {
                self.index_reg = self.index_reg + self.registers[x] as u16;
            },
            Chip8Instruction::_FX33 => {
                let tmp_vx = self.registers[x];
                let base = self.index_reg as usize;
                self.memory[base + 2] = tmp_vx % 10;
                self.memory[base + 1] = tmp_vx / 10 % 10;
                self.memory[base] = tmp_vx / 100 % 10;
            },
            Chip8Instruction::_FX55 => {
                self.store_registers(x);
                if self.og_behaviour {
                    self.index_reg = self.index_reg.wrapping_add((x as u16) + 1);
                }
            },
            Chip8Instruction::_FX65 => {
                self.load_registers(x);
                if self.og_behaviour {
                    self.index_reg = self.index_reg.wrapping_add((x as u16) + 1);
                }
            },
            _ => {},
        }
        false
    }

    /// Copies V0 to VX into memory from the index register on.
    fn store_registers(&mut self, x: usize)
        requires
            x < 16,
            old(self).index_reg + x + 1 <= 4096,
        ensures
            final(self)@ == (Chip8State {
                memory: Seq::new(
                    4096,
                    |k: int|
                        if old(self).index_reg <= k <= old(self).index_reg + x {
                            old(self).registers@[k - old(self).index_reg]
                        } else {
                            old(self).memory@[k]
                        },
                ),
                ..old(self)@
            }),
    {
        let start = self.index_reg as usize;
        let mut k: usize = 0;
        while k <= x
            invariant
                x < 16,
                start == self.index_reg,
                start + x + 1 <= 4096,
                k <= x + 1,
                self.memory@.len() == 4096,
                forall|m: int|
                    0 <= m < 4096 ==> self.memory@[m] == (if start <= m < start + k {
                        self.registers@[m - start]
                    } else {
                        old(self).memory@[m]
                    }),
                self.registers == old(self).registers,
                self.index_reg == old(self).index_reg,
                self.pcounter == old(self).pcounter,
                self.stack == old(self).stack,
                self.keypad == old(self).keypad,
                self.display == old(self).display,
                self.og_behaviour == old(self).og_behaviour,
                self.delay_timer == old(self).delay_timer,
                self.sound_timer == old(self).sound_timer,
                self.frame_count == old(self).frame_count,
            decreases x + 1 - k,
        {
            self.memory[start + k] = self.registers[k];
            k = k + 1;
        }
        assert(self.memory@ =~= Seq::new(
            4096,
            |m: int|
                if old(self).index_reg <= m <= old(self).index_reg + x {
                    old(self).registers@[m - old(self).index_reg]
                } else {
                    old(self).memory@[m]
                },
        ));
    }

    /// Copies memory from the index register on into V0 to VX.
    fn load_registers(&mut self, x: usize)
        requires
            x < 16,
            old(self).index_reg + x + 1 <= 4096,
        ensures
            final(self)@ == (Chip8State {
                registers: Seq::new(
                    16,
                    |k: int|
                        if k <= x {
                            old(self).memory@[old(self).index_reg + k]
                        } else {
                            old(self).registers@[k]
                        },
                ),
                ..old(self)@
            }),
    {
        let start = self.index_reg as usize;
        let mut k: usize = 0;
        while k <= x
            invariant
                x < 16,
                start == self.index_reg,
                start + x + 1 <= 4096,
                k <= x + 1,
                self.registers@.len() == 16,
                forall|m: int|
                    0 <= m < 16 ==> self.registers@[m] == (if m < k {
                        self.memory@[start + m]
                    } else {
                        old(self).registers@[m]
                    }),
                self.memory == old(self).memory,
                self.index_reg == old(self).index_reg,
                self.pcounter == old(self).pcounter,
                self.stack == old(self).stack,
                self.keypad == old(self).keypad,
                self.display == old(self).display,
                self.og_behaviour == old(self).og_behaviour,
                self.delay_timer == old(self).delay_timer,
                self.sound_timer == old(self).sound_timer,
                self.frame_count == old(self).frame_count,
            decreases x + 1 - k,
        {
            self.registers[k] = self.memory[start + k];
            k = k + 1;
        }
        assert(self.registers@ =~= Seq::new(
            16,
            |m: int|
                if m <= x {
                    old(self).memory@[old(self).index_reg + m]
                } else {
                    old(self).registers@[m]
                },
        ));
    }
}

} // verus!

verus! {
/// Wrapping addition of bytes is addition modulo 256.
proof fn lemma_wrap_add(a: u8, b: u8)
    ensures
        vstd::wrapping::u8_specs::wrapping_add(a, b) == ((a + b) % 256) as u8,
{
    if a + b < 256 {
        assert((a + b) % 256 == a + b);
    } else {
        assert((a + b) % 256 == a + b - 256);
    }
}

/// Wrapping subtraction of bytes is subtraction modulo 256.
proof fn lemma_wrap_sub(a: u8, b: u8)
    ensures
        vstd::wrapping::u8_specs::wrapping_sub(a, b) == ((a - b + 256) % 256) as u8,
{
    if a >= b {
        assert((a - b + 256) % 256 == a - b);
    } else {
        assert((a - b + 256) % 256 == a - b + 256);
    }
}
}

verus! {

/// Calls `rand::random::<u8>()`: a byte drawn from the thread-local random
/// number generator. Nothing is promised of its value: every byte may come.
#[verifier::external_body]
fn random_byte() -> (b: u8) {
    rand::random::<u8>()
}

/// Why a cycle stopped.
#[derive(Debug, Clone, Copy, PartialEq, Eq, Structural)]
pub enum Chip8Error {
    /// The opcode at the program counter names no instruction.
    UnknownInstruction(DecodedOpcode),
}

/// The state with the keypad that the user interface last sent, if it sent
/// one since the last cycle.
pub open spec fn with_keypad(s: Chip8State, input: Option<KeypadArray>) -> Chip8State {
    match input {
        Some(k) => Chip8State { keypad: k@, ..s },
        None => s,
    }
}

/// The opcode at the program counter: the byte there is its high byte and
/// the next byte its low byte.
pub open spec fn fetch_spec(s: Chip8State) -> u16 {
    (s.memory[s.pcounter as int] * 256 + s.memory[s.pcounter + 1]) as u16
}

/// The state with the program counter moved past the fetched opcode.
pub open spec fn after_fetch(s: Chip8State) -> Chip8State {
    Chip8State { pcounter: (s.pcounter + 2) as u16, ..s }
}

/// When a cycle can run without an out-of-range index, an arithmetic
/// overflow or a return with an empty stack: the opcode lies in memory and
/// the instruction it names, if any, can run.
pub open spec fn cycle_safe(s: Chip8State, input: Option<KeypadArray>) -> bool {
    let s0 = with_keypad(s, input);
    let d = decode_spec(fetch_spec(s0));
    &&& s0.pcounter + 1 < 4096
    &&& match instruction_spec(d.n1, d.n, d.nn, s0.og_behaviour) {
        Some(ins) => execute_safe(after_fetch(s0), ins, d),
        None => true,
    }
}

impl Chip8 {
    /// Whether an instruction can run without an out-of-range index, an
    /// arithmetic overflow or a return with an empty stack, on this machine
    /// with the program counter at `pc` and the keys of `keypad` down.
    fn safe_to_run(
        &self,
        instruction: Chip8Instruction,
        decoded: &DecodedOpcode,
        pc: u16,
        keypad: &[bool; 16],
    ) -> (b: bool)
        requires
            decoded_wf(*decoded),
        ensures
            b == execute_safe(
                Chip8State { pcounter: pc, keypad: keypad@, ..self@ },
                instruction,
                *decoded,
            ),
    {
        let vx = self.registers[decoded.x];
        let pc_fits = pc <= u16::MAX - 2;
        match instruction {
            Chip8Instruction::_00EE => self.stack.len() > 0,
            Chip8Instruction::_3XNN | Chip8Instruction::_4XNN | Chip8Instruction::_5XY0
            | Chip8Instruction::_9XY0 => pc_fits,
            Chip8Instruction::_DXYN => decoded.n == 0 || self.index_reg as usize
                + decoded.n as usize <= 4096,
            Chip8Instruction::_EX9A | Chip8Instruction::_EXA1 => vx < 16 && pc_fits,
            Chip8Instruction::_FX0A => any_key_down(keypad) || pc >= 2,
            Chip8Instruction::_FX1E => self.index_reg as u32 + vx as u32 <= u16::MAX as u32,
            Chip8Instruction::_FX33 => (self.index_reg as usize) + 2 < 4096,
            Chip8Instruction::_FX55 | Chip8Instruction::_FX65 => self.index_reg as usize
                + decoded.x + 1 <= 4096,
            _ => true,
        }
    }

    /// Whether the next cycle, with the keypad that the user interface
    /// sent, can run without an out-of-range index, an arithmetic overflow
    /// or a return with an empty stack.
    pub fn can_cycle(&self, keypad_input: &Option<KeypadArray>) -> (b: bool)
        ensures
            b == cycle_safe(self@, *keypad_input),
    {
        if self.pcounter as usize + 1 >= 4096 {
            return false;
        }
        let opcode = fetch_opcode(&self.memory, self.pcounter);
        let decoded = decode_opcode(opcode);
        match get_instruction(&decoded, self.og_behaviour) {
            Err(_) => true,
            Ok(instruction) => {
                let keypad: &[bool; 16] = match keypad_input {
                    Some(k) => k,
                    None => &self.keypad,
                };
                self.safe_to_run(instruction, &decoded, self.pcounter + 2, keypad)
            },
        }
    }
}

/// The opcode at `pc`: the byte there is its high byte and the next byte
/// its low byte.
fn fetch_opcode(memory: &[u8; 4096], pc: u16) -> (opcode: u16)
    requires
        pc + 1 < 4096,
    ensures
        opcode == memory@[pc as int] * 256 + memory@[pc + 1],
{
    let hi = memory[pc as usize];
    let lo = memory[pc as usize + 1];
    let opcode: u16 = ((hi as u16) << 8) | (lo as u16);
    assert(opcode == hi * 256 + lo) by (bit_vector)
        requires
            opcode == ((hi as u16) << 8) | (lo as u16),
    ;
    opcode
}

} // verus!

verus! {

impl Chip8 {
    /// One cycle of the machine: takes the keypad that the user interface
    /// sent since the last cycle, if any; fetches the opcode at the program
    /// counter and moves the counter past it; then runs the instruction
    /// that the opcode names, drawing a random byte for CXNN. Tells whether
    /// what the display shows may have changed, or that the opcode names
    /// no instruction (then nothing but the keypad and the program counter
    /// has changed).
    pub fn cycle(&mut self, timer: &mut ChipTimer, keypad_input: Option<KeypadArray>) -> (r: Result<
        bool,
        Chip8Error,
    >)
        requires
            cycle_safe(old(self)@, keypad_input),
        ensures
            ({
                let s0 = with_keypad(old(self)@, keypad_input);
                let d = decode_spec(fetch_spec(s0));
                let s1 = after_fetch(s0);
                match instruction_spec(d.n1, d.n, d.nn, s0.og_behaviour) {
                    None => {
                        &&& r == Err::<bool, Chip8Error>(Chip8Error::UnknownInstruction(d))
                        &&& final(self)@ == s1
                        &&& final(timer)@ == old(timer)@
                    },
                    Some(ins) => {
                        &&& r == Ok::<bool, Chip8Error>(changes_display(ins))
                        &&& exists|rnd: u8|
                            {
                                &&& final(self)@ == (#[trigger] execute_spec(
                                    s1,
                                    old(timer)@,
                                    ins,
                                    d,
                                    rnd,
                                )).0
                                &&& final(timer)@ == execute_spec(
                                    s1,
                                    old(timer)@,
                                    ins,
                                    d,
                                    rnd,
                                ).1
                            }
                    },
                }
            }),
    {
        match keypad_input {
            Some(k) => {
                self.keypad = k;
            },
            None => {},
        }
        let opcode = fetch_opcode(&self.memory, self.pcounter);
        self.pcounter += 2;
        let decoded = decode_opcode(opcode);
        let instruction = match get_instruction(&decoded, self.og_behaviour) {
            Err(_) => {
                return Err(Chip8Error::UnknownInstruction(decoded));
            },
            Ok(o) => o,
        };
        let rnd: u8 = if instruction == Chip8Instruction::_CXNN {
            random_byte()
        } else {
            0
        };
        let changed = self.execute(timer, instruction, &decoded, rnd);
        Ok(changed)
    }
}

} // verus!
