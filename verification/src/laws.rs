//! Properties of the instruction set that span instructions or say more
//! than one instruction's definition shows.
use vstd::prelude::*;

use crate::bits::{bit, lemma_bitwise_bits, lemma_shift_mask_is_bit};
use crate::chip_timer::{tick_spec, TimerState};
use crate::display::{
    draw_collides, drawn_display, lemma_collision_iff_pixel_erased, lemma_offsets_determine_pixel,
    lemma_pixel_offsets, col_offset, row_offset,
};
use crate::cpu::{
    initial_state, after_fetch, any_key, changes_display, cycle_safe, decode_spec, fetch_spec, with_keypad, decoded_wf, execute_safe, execute_spec, memory_with_rom, Chip8State,
    DecodedOpcode, FONTSET,
};
use crate::execute::{instruction_spec, Chip8Instruction};
use crate::{
    flag_line, lit_corners, padded, Flag, KeypadArray, FONTSET_SIZE, MAX_ROM_SIZE, SCREEN_SCALE,
    START_ADDRESS,
};

verus! {

/// Only clearing the screen (00E0) and drawing (DXYN) change the display;
/// every other instruction leaves it as it was.
pub proof fn lemma_display_changes_only_by_clear_or_draw(
    s: Chip8State,
    t: TimerState,
    ins: Chip8Instruction,
    d: DecodedOpcode,
    rnd: u8,
)
    requires
        !changes_display(ins),
    ensures
        execute_spec(s, t, ins, d, rnd).0.display == s.display,
{
}

/// A subroutine call (2NNN) followed by a return (00EE) comes back to the
/// instruction after the call, with the stack as it was.
pub proof fn lemma_call_then_return(
    s: Chip8State,
    t: TimerState,
    call: DecodedOpcode,
    ret: DecodedOpcode,
    rnd1: u8,
    rnd2: u8,
)
    ensures
        ({
            let (s1, t1) = execute_spec(s, t, Chip8Instruction::_2NNN, call, rnd1);
            let (s2, t2) = execute_spec(s1, t1, Chip8Instruction::_00EE, ret, rnd2);
            &&& execute_safe(s1, Chip8Instruction::_00EE, ret)
            &&& s2.pcounter == s.pcounter
            &&& s2.stack == s.stack
            &&& t2 == t
        }),
{
    let s1 = execute_spec(s, t, Chip8Instruction::_2NNN, call, rnd1).0;
    assert(s1.stack.drop_last() =~= s.stack);
}

/// FX33 writes the decimal digits of VX: hundreds, tens and ones, at I,
/// I + 1 and I + 2, and they make up VX again.
pub proof fn lemma_bcd_digits(s: Chip8State, t: TimerState, d: DecodedOpcode, rnd: u8)
    requires
        decoded_wf(d),
        execute_safe(s, Chip8Instruction::_FX33, d),
        s.memory.len() == 4096,
        s.registers.len() == 16,
    ensures
        ({
            let m = execute_spec(s, t, Chip8Instruction::_FX33, d, rnd).0.memory;
            let i = s.index_reg as int;
            &&& m[i] < 10 && m[i + 1] < 10 && m[i + 2] < 10
            &&& m[i] * 100 + m[i + 1] * 10 + m[i + 2] == s.registers[d.x as int]
        }),
{
    let v = s.registers[d.x as int];
    let i = s.index_reg as int;
    let m = execute_spec(s, t, Chip8Instruction::_FX33, d, rnd).0.memory;
    assert(m[i] == v / 100 % 10 && m[i + 1] == v / 10 % 10 && m[i + 2] == v % 10);
    assert(v / 100 % 10 * 100 + v / 10 % 10 * 10 + v % 10 == v) by (nonlinear_arith)
        requires
            0 <= v < 256,
    ;
}

/// Storing V0 to VX in memory (FX55) and loading them back from the same
/// place (FX65) gives the registers that were stored, when the index
/// register stays put (modern behaviour).
pub proof fn lemma_store_then_load(s: Chip8State, t: TimerState, d: DecodedOpcode, r1: u8, r2: u8)
    requires
        decoded_wf(d),
        !s.og_behaviour,
        execute_safe(s, Chip8Instruction::_FX55, d),
        s.memory.len() == 4096,
        s.registers.len() == 16,
    ensures
        ({
            let (s1, t1) = execute_spec(s, t, Chip8Instruction::_FX55, d, r1);
            let (s2, t2) = execute_spec(s1, t1, Chip8Instruction::_FX65, d, r2);
            &&& execute_safe(s1, Chip8Instruction::_FX65, d)
            &&& s2.registers == s.registers
            &&& s2.memory == s1.memory
            &&& s2.index_reg == s.index_reg
        }),
{
    let s1 = execute_spec(s, t, Chip8Instruction::_FX55, d, r1).0;
    let s2 = execute_spec(s1, t, Chip8Instruction::_FX65, d, r2).0;
    assert(s2.registers =~= s.registers);
}

/// 8XY4 adds with carry: for a target other than VF, the new VX plus 256
/// times the carry in VF is the sum of the old VX and VY.
pub proof fn lemma_add_with_carry(s: Chip8State, t: TimerState, d: DecodedOpcode, rnd: u8)
    requires
        decoded_wf(d),
        d.x != 15,
        s.registers.len() == 16,
    ensures
        ({
            let r = execute_spec(s, t, Chip8Instruction::_8XY4, d, rnd).0.registers;
            r[d.x as int] + 256 * r[15] == s.registers[d.x as int] + s.registers[d.y as int]
        }),
{
    let a = s.registers[d.x as int];
    let b = s.registers[d.y as int];
    if a + b > 255 {
        assert((a + b) % 256 == a + b - 256);
    } else {
        assert((a + b) % 256 == a + b);
    }
}

/// 8XY5 subtracts with borrow: for a target other than VF, VF is 1 when no
/// borrow was needed and 0 when one was, and the new VX is the old VX less
/// VY, plus 256 when it borrowed.
pub proof fn lemma_sub_with_borrow(s: Chip8State, t: TimerState, d: DecodedOpcode, rnd: u8)
    requires
        decoded_wf(d),
        d.x != 15,
        s.registers.len() == 16,
    ensures
        ({
            let r = execute_spec(s, t, Chip8Instruction::_8XY5, d, rnd).0.registers;
            &&& r[15] == 0 || r[15] == 1
            &&& r[d.x as int] == s.registers[d.x as int] - s.registers[d.y as int] + 256 * (1
                - r[15])
        }),
{
    let a = s.registers[d.x as int];
    let b = s.registers[d.y as int];
    if a >= b {
        assert((a - b + 256) % 256 == a - b);
    } else {
        assert((a - b + 256) % 256 == a - b + 256);
    }
}

/// 8XY6 shifts right by one: for a target other than VF, twice the new VX
/// plus the bit shifted out into VF is the shifted value.
pub proof fn lemma_shift_right_keeps_bits(s: Chip8State, t: TimerState, d: DecodedOpcode, rnd: u8)
    requires
        decoded_wf(d),
        d.x != 15,
        s.registers.len() == 16,
    ensures
        ({
            let r = execute_spec(s, t, Chip8Instruction::_8XY6, d, rnd).0.registers;
            let v = if s.og_behaviour {
                s.registers[d.y as int]
            } else {
                s.registers[d.x as int]
            };
            &&& r[15] == 0 || r[15] == 1
            &&& 2 * r[d.x as int] + r[15] == v
        }),
{
}

/// 8XYE shifts left by one: for a target other than VF, the new VX plus
/// 256 times the bit shifted out into VF is twice the shifted value.
pub proof fn lemma_shift_left_keeps_bits(s: Chip8State, t: TimerState, d: DecodedOpcode, rnd: u8)
    requires
        decoded_wf(d),
        d.x != 15,
        s.registers.len() == 16,
    ensures
        ({
            let r = execute_spec(s, t, Chip8Instruction::_8XYE, d, rnd).0.registers;
            let v = if s.og_behaviour {
                s.registers[d.y as int]
            } else {
                s.registers[d.x as int]
            };
            &&& r[15] == 0 || r[15] == 1
            &&& r[d.x as int] + 256 * r[15] == 2 * v
        }),
{
    let v = if s.og_behaviour {
        s.registers[d.y as int]
    } else {
        s.registers[d.x as int]
    };
    if v >= 128 {
        assert((v * 2) % 256 == v * 2 - 256);
    } else {
        assert((v * 2) % 256 == v * 2);
    }
}

/// FX0A pauses until a key is down: while no key is down, fetching and
/// running it brings the program counter back to it, so it runs again;
/// once a key is down, the program goes on to the next instruction.
pub proof fn lemma_wait_for_key_pauses(s: Chip8State, t: TimerState, d: DecodedOpcode, rnd: u8)
    requires
        s.pcounter + 2 <= u16::MAX,
    ensures
        execute_spec(after_fetch(s), t, Chip8Instruction::_FX0A, d, rnd).0.pcounter == if any_key(
            s.keypad,
        ) {
            s.pcounter + 2
        } else {
            s.pcounter as int
        },
{
}

/// FX29 points the index register at the font sprite of the digit in the
/// low nibble of VX, when the font is in place at the start of memory.
pub proof fn lemma_font_sprite_address(s: Chip8State, t: TimerState, d: DecodedOpcode, rnd: u8, k: int)
    requires
        decoded_wf(d),
        s.memory.len() == 4096,
        s.registers.len() == 16,
        forall|i: int| 0 <= i < FONTSET_SIZE ==> s.memory[i] == FONTSET@[i],
        0 <= k < 5,
    ensures
        ({
            let s1 = execute_spec(s, t, Chip8Instruction::_FX29, d, rnd).0;
            let digit = s.registers[d.x as int] % 16;
            &&& s1.index_reg == digit * 5
            &&& s1.memory[s1.index_reg + k] == FONTSET@[digit * 5 + k]
        }),
{
}

/// Loading a ROM leaves the reserved area below the start address, where
/// the font lives, as it was.
pub proof fn lemma_rom_keeps_reserved_area(mem: Seq<u8>, rom: Seq<u8>, i: int)
    requires
        0 <= i < START_ADDRESS,
        i < mem.len(),
    ensures
        memory_with_rom(mem, rom)[i] == mem[i],
{
}

} // verus!

verus! {

/// Only CXNN reads the random byte: every other instruction does the same
/// whatever byte is drawn, so a cycle that runs one is deterministic.
pub proof fn lemma_only_random_instruction_reads_random_byte(
    s: Chip8State,
    t: TimerState,
    ins: Chip8Instruction,
    d: DecodedOpcode,
    r1: u8,
    r2: u8,
)
    requires
        ins != Chip8Instruction::_CXNN,
    ensures
        execute_spec(s, t, ins, d, r1) == execute_spec(s, t, ins, d, r2),
{
}

} // verus!

verus! {

/// Where row `i` and column `j` of a sprite drawn at (VX, VY) land on the
/// display: rows wrap at 32, columns at 64.
pub open spec fn sprite_pixel(vx: u8, vy: u8, i: int, j: int) -> int {
    ((vy % 32 + i) % 32) * 64 + (vx % 64 + j) % 64
}

/// Drawing flips exactly the pixel under each set bit of the sprite: for
/// row `i` below the height and column `j` below 8, the pixel at
/// ((VY mod 32 + i) mod 32, (VX mod 64 + j) mod 64) is flipped exactly when
/// bit 7 - j of the sprite byte at I + i is 1.
pub proof fn lemma_draw_flips_sprite_bits(
    display: Seq<bool>,
    mem: Seq<u8>,
    index: u16,
    vx: u8,
    vy: u8,
    height: u8,
    i: int,
    j: int,
)
    requires
        display.len() == 2048,
        height < 32,
        0 <= i < height,
        0 <= j < 8,
    ensures
        0 <= sprite_pixel(vx, vy, i, j) < 2048,
        drawn_display(display, mem, index, vx, vy, height).len() == 2048,
        drawn_display(display, mem, index, vx, vy, height)[sprite_pixel(vx, vy, i, j)] == (
        display[sprite_pixel(vx, vy, i, j)] != (bit(mem[index + i] as int, (7 - j) as nat)
            == 1)),
{
    let sx = (vx % 64) as int;
    let sy = (vy % 32) as int;
    lemma_pixel_offsets(sx, sy, i, j);
    lemma_shift_mask_is_bit(mem[index + i], (7 - j) as u8);
}

/// Drawing leaves every pixel that no row and column of the sprite lands
/// on as it was.
pub proof fn lemma_draw_leaves_other_pixels(
    display: Seq<bool>,
    mem: Seq<u8>,
    index: u16,
    vx: u8,
    vy: u8,
    height: u8,
    p: int,
)
    requires
        display.len() == 2048,
        height < 32,
        0 <= p < 2048,
        forall|i: int, j: int|
            0 <= i < height && 0 <= j < 8 ==> p != #[trigger] sprite_pixel(vx, vy, i, j),
    ensures
        drawn_display(display, mem, index, vx, vy, height)[p] == display[p],
{
    let sx = (vx % 64) as int;
    let sy = (vy % 32) as int;
    lemma_offsets_determine_pixel(sx, sy, p);
    let i = row_offset(sy, p);
    let j = col_offset(sx, p);
    if i < height && j < 8 {
        assert(p == sprite_pixel(vx, vy, i, j));
    }
}

/// A draw collides exactly when some set bit of the sprite lands on a lit
/// pixel.
pub proof fn lemma_draw_collision_from_bits(
    display: Seq<bool>,
    mem: Seq<u8>,
    index: u16,
    vx: u8,
    vy: u8,
    height: u8,
)
    requires
        display.len() == 2048,
        height < 32,
    ensures
        draw_collides(display, mem, index, vx, vy, height) <==> exists|i: int, j: int|
            0 <= i < height && 0 <= j < 8 && display[#[trigger] sprite_pixel(vx, vy, i, j)] && bit(
                mem[index + i] as int,
                (7 - j) as nat,
            ) == 1,
{
    lemma_collision_iff_pixel_erased(display, mem, index, vx, vy, height);
    let after = drawn_display(display, mem, index, vx, vy, height);
    if draw_collides(display, mem, index, vx, vy, height) {
        let p = choose|p: int| 0 <= p < display.len() && display[p] && !(#[trigger] after[p]);
        if forall|i: int, j: int|
            0 <= i < height && 0 <= j < 8 ==> p != #[trigger] sprite_pixel(vx, vy, i, j) {
            lemma_draw_leaves_other_pixels(display, mem, index, vx, vy, height, p);
        }
        let (i, j) = choose|i: int, j: int|
            0 <= i < height && 0 <= j < 8 && p == #[trigger] sprite_pixel(vx, vy, i, j);
        lemma_draw_flips_sprite_bits(display, mem, index, vx, vy, height, i, j);
    }
    if exists|i: int, j: int|
        0 <= i < height && 0 <= j < 8 && display[#[trigger] sprite_pixel(vx, vy, i, j)] && bit(
            mem[index + i] as int,
            (7 - j) as nat,
        ) == 1 {
        let (i, j) = choose|i: int, j: int|
            0 <= i < height && 0 <= j < 8 && display[#[trigger] sprite_pixel(vx, vy, i, j)]
                && bit(mem[index + i] as int, (7 - j) as nat) == 1;
        lemma_draw_flips_sprite_bits(display, mem, index, vx, vy, height, i, j);
        assert(!after[sprite_pixel(vx, vy, i, j)]);
    }
}

} // verus!

verus! {

/// Whether an instruction only computes a register: 6XNN, 7XNN, 8XY_ and
/// CXNN.
pub open spec fn is_register_instruction(ins: Chip8Instruction) -> bool {
    ins == Chip8Instruction::_6XNN || ins == Chip8Instruction::_7XNN || ins
        == Chip8Instruction::_8XY0 || ins == Chip8Instruction::_8XY1 || ins
        == Chip8Instruction::_8XY2 || ins == Chip8Instruction::_8XY3 || ins
        == Chip8Instruction::_8XY4 || ins == Chip8Instruction::_8XY5 || ins
        == Chip8Instruction::_8XY6 || ins == Chip8Instruction::_8XY7 || ins
        == Chip8Instruction::_8XYE || ins == Chip8Instruction::_CXNN
}

/// The register instructions write VX and at most VF: every other
/// register, the memory, the display, the program counter, the index
/// register, the stack and the timers stay as they were.
pub proof fn lemma_register_instructions_touch_only_vx_and_vf(
    s: Chip8State,
    t: TimerState,
    ins: Chip8Instruction,
    d: DecodedOpcode,
    rnd: u8,
    k: int,
)
    requires
        decoded_wf(d),
        is_register_instruction(ins),
        s.registers.len() == 16,
        0 <= k < 16,
        k != d.x,
        k != 15,
    ensures
        ({
            let (s1, t1) = execute_spec(s, t, ins, d, rnd);
            &&& s1.registers.len() == 16
            &&& s1.registers[k] == s.registers[k]
            &&& s1.memory == s.memory
            &&& s1.display == s.display
            &&& s1.pcounter == s.pcounter
            &&& s1.index_reg == s.index_reg
            &&& s1.stack == s.stack
            &&& t1 == t
        }),
{
}

/// 6XNN sets VX to NN, 8XY0 copies VY into VX, and 7XNN adds NN to VX
/// modulo 256; none of them touches VF (for a target other than VF).
pub proof fn lemma_set_copy_add(s: Chip8State, t: TimerState, d: DecodedOpcode, rnd: u8)
    requires
        decoded_wf(d),
        d.x != 15,
        s.registers.len() == 16,
    ensures
        ({
            let x = d.x as int;
            let vx = s.registers[x];
            let r6 = execute_spec(s, t, Chip8Instruction::_6XNN, d, rnd).0.registers;
            let r0 = execute_spec(s, t, Chip8Instruction::_8XY0, d, rnd).0.registers;
            let r7 = execute_spec(s, t, Chip8Instruction::_7XNN, d, rnd).0.registers;
            &&& r6[x] == d.nn && r6[15] == s.registers[15]
            &&& r0[x] == s.registers[d.y as int] && r0[15] == s.registers[15]
            &&& r7[x] + (if vx + d.nn >= 256 {
                256int
            } else {
                0int
            }) == vx + d.nn
            &&& r7[15] == s.registers[15]
        }),
{
    let vx = s.registers[d.x as int];
    if vx + d.nn >= 256 {
        assert((vx + d.nn) % 256 == vx + d.nn - 256);
    } else {
        assert((vx + d.nn) % 256 == vx + d.nn);
    }
}

/// 8XY7 sets VX to VY less VX, plus 256 when that is negative, and leaves
/// VF alone (for a target other than VF).
pub proof fn lemma_reverse_subtract(s: Chip8State, t: TimerState, d: DecodedOpcode, rnd: u8)
    requires
        decoded_wf(d),
        d.x != 15,
        s.registers.len() == 16,
    ensures
        ({
            let vx = s.registers[d.x as int];
            let vy = s.registers[d.y as int];
            let r = execute_spec(s, t, Chip8Instruction::_8XY7, d, rnd).0.registers;
            &&& r[d.x as int] == vy - vx + (if vy < vx {
                256int
            } else {
                0int
            })
            &&& r[15] == s.registers[15]
        }),
{
    let vx = s.registers[d.x as int];
    let vy = s.registers[d.y as int];
    if vy >= vx {
        assert((vy - vx + 256) % 256 == vy - vx);
    } else {
        assert((vy - vx + 256) % 256 == vy - vx + 256);
    }
}

/// 8XY1 sets each bit of VX to the OR of the bits of VX and VY; VF is
/// cleared on the original hardware and left alone otherwise (for a target
/// other than VF).
pub proof fn lemma_or_instruction(s: Chip8State, t: TimerState, d: DecodedOpcode, rnd: u8, k: nat)
    requires
        decoded_wf(d),
        d.x != 15,
        s.registers.len() == 16,
        k < 8,
    ensures
        bit(execute_spec(s, t, Chip8Instruction::_8XY1, d, rnd).0.registers[d.x as int] as int, k)
            == (if bit(s.registers[d.x as int] as int, k) == 1 || bit(s.registers[d.y as int] as int, k) == 1 {
            1int
        } else {
            0int
        }),
        execute_spec(s, t, Chip8Instruction::_8XY1, d, rnd).0.registers[15] == (if s.og_behaviour {
            0u8
        } else {
            s.registers[15]
        }),
{
    let vx = s.registers[d.x as int];
    let vy = s.registers[d.y as int];
    assert((k as u8) as nat == k);
    lemma_bitwise_bits(vx, vy, k as u8);
    lemma_shift_mask_is_bit(vx, k as u8);
    lemma_shift_mask_is_bit(vy, k as u8);
    let bx = bit(vx as int, k);
    let by = bit(vy as int, k);
    assert(bx * by == if bx == 1 && by == 1 {
        1int
    } else {
        0int
    }) by (nonlinear_arith)
        requires
            0 <= bx <= 1,
            0 <= by <= 1,
    ;
}

/// 8XY2 sets each bit of VX to the AND of the bits of VX and VY; VF is
/// cleared on the original hardware and left alone otherwise (for a target
/// other than VF).
pub proof fn lemma_and_instruction(s: Chip8State, t: TimerState, d: DecodedOpcode, rnd: u8, k: nat)
    requires
        decoded_wf(d),
        d.x != 15,
        s.registers.len() == 16,
        k < 8,
    ensures
        bit(execute_spec(s, t, Chip8Instruction::_8XY2, d, rnd).0.registers[d.x as int] as int, k)
            == (if bit(s.registers[d.x as int] as int, k) == 1 && bit(s.registers[d.y as int] as int, k) == 1 {
            1int
        } else {
            0int
        }),
        execute_spec(s, t, Chip8Instruction::_8XY2, d, rnd).0.registers[15] == (if s.og_behaviour {
            0u8
        } else {
            s.registers[15]
        }),
{
    let vx = s.registers[d.x as int];
    let vy = s.registers[d.y as int];
    assert((k as u8) as nat == k);
    lemma_bitwise_bits(vx, vy, k as u8);
    lemma_shift_mask_is_bit(vx, k as u8);
    lemma_shift_mask_is_bit(vy, k as u8);
    let bx = bit(vx as int, k);
    let by = bit(vy as int, k);
    assert(bx * by == if bx == 1 && by == 1 {
        1int
    } else {
        0int
    }) by (nonlinear_arith)
        requires
            0 <= bx <= 1,
            0 <= by <= 1,
    ;
}

/// 8XY3 sets each bit of VX to the XOR of the bits of VX and VY: 1 exactly
/// where they differ. VF is cleared on the original hardware and left alone
/// otherwise (for a target other than VF).
pub proof fn lemma_xor_instruction(s: Chip8State, t: TimerState, d: DecodedOpcode, rnd: u8, k: nat)
    requires
        decoded_wf(d),
        d.x != 15,
        s.registers.len() == 16,
        k < 8,
    ensures
        bit(execute_spec(s, t, Chip8Instruction::_8XY3, d, rnd).0.registers[d.x as int] as int, k)
            == (if bit(s.registers[d.x as int] as int, k) != bit(s.registers[d.y as int] as int, k) {
            1int
        } else {
            0int
        }),
        execute_spec(s, t, Chip8Instruction::_8XY3, d, rnd).0.registers[15] == (if s.og_behaviour {
            0u8
        } else {
            s.registers[15]
        }),
{
    let vx = s.registers[d.x as int];
    let vy = s.registers[d.y as int];
    assert((k as u8) as nat == k);
    lemma_bitwise_bits(vx, vy, k as u8);
    lemma_shift_mask_is_bit(vx, k as u8);
    lemma_shift_mask_is_bit(vy, k as u8);
    let bx = bit(vx as int, k);
    let by = bit(vy as int, k);
    assert(bx * by == if bx == 1 && by == 1 {
        1int
    } else {
        0int
    }) by (nonlinear_arith)
        requires
            0 <= bx <= 1,
            0 <= by <= 1,
    ;
}

/// CXNN keeps a bit of the random byte exactly where NN has a 1 and
/// clears the others: each bit of the new VX is 1 only when that bit of
/// NN is 1.
pub proof fn lemma_random_is_masked(s: Chip8State, t: TimerState, d: DecodedOpcode, rnd: u8, k: nat)
    requires
        decoded_wf(d),
        s.registers.len() == 16,
        k < 8,
    ensures
        bit(execute_spec(s, t, Chip8Instruction::_CXNN, d, rnd).0.registers[d.x as int] as int, k)
            == bit(rnd as int, k) * bit(d.nn as int, k),
{
    assert((k as u8) as nat == k);
    lemma_bitwise_bits(rnd, d.nn, k as u8);
}

} // verus!

verus! {

/// The skip instructions move the program counter past the next
/// instruction exactly when their test holds, and leave it just after
/// themselves otherwise: 3XNN when VX equals NN, 4XNN when it does not,
/// 5XY0 when VX equals VY, 9XY0 when it does not, EX9E when key VX is down
/// and EXA1 when it is up. Each pair skips in complementary cases, and
/// none of them changes a register or memory.
pub proof fn lemma_skip_instructions(s: Chip8State, t: TimerState, d: DecodedOpcode, rnd: u8)
    requires
        decoded_wf(d),
        s.registers.len() == 16,
        s.keypad.len() == 16,
        s.pcounter + 2 <= u16::MAX,
    ensures
        ({
            let vx = s.registers[d.x as int];
            let vy = s.registers[d.y as int];
            let pc = s.pcounter as int;
            let p3 = execute_spec(s, t, Chip8Instruction::_3XNN, d, rnd).0;
            let p4 = execute_spec(s, t, Chip8Instruction::_4XNN, d, rnd).0;
            let p5 = execute_spec(s, t, Chip8Instruction::_5XY0, d, rnd).0;
            let p9 = execute_spec(s, t, Chip8Instruction::_9XY0, d, rnd).0;
            &&& p3.pcounter == (if vx == d.nn {
                pc + 2
            } else {
                pc
            })
            &&& p4.pcounter == (if vx != d.nn {
                pc + 2
            } else {
                pc
            })
            &&& p3.pcounter + p4.pcounter == 2 * pc + 2
            &&& p5.pcounter == (if vx == vy {
                pc + 2
            } else {
                pc
            })
            &&& p9.pcounter == (if vx != vy {
                pc + 2
            } else {
                pc
            })
            &&& p5.pcounter + p9.pcounter == 2 * pc + 2
            &&& p3.registers == s.registers && p3.memory == s.memory
            &&& p4.registers == s.registers && p4.memory == s.memory
            &&& p5.registers == s.registers && p5.memory == s.memory
            &&& p9.registers == s.registers && p9.memory == s.memory
        }),
{
}

/// EX9E skips the next instruction exactly when key VX is down, EXA1
/// exactly when it is up, so they skip in complementary cases.
pub proof fn lemma_key_skip_instructions(s: Chip8State, t: TimerState, d: DecodedOpcode, rnd: u8)
    requires
        decoded_wf(d),
        s.registers.len() == 16,
        s.keypad.len() == 16,
        s.registers[d.x as int] < 16,
        s.pcounter + 2 <= u16::MAX,
    ensures
        ({
            let key = s.registers[d.x as int] as int;
            let pc = s.pcounter as int;
            let pe = execute_spec(s, t, Chip8Instruction::_EX9A, d, rnd).0;
            let pa = execute_spec(s, t, Chip8Instruction::_EXA1, d, rnd).0;
            &&& pe.pcounter == (if s.keypad[key] {
                pc + 2
            } else {
                pc
            })
            &&& pa.pcounter == (if !s.keypad[key] {
                pc + 2
            } else {
                pc
            })
            &&& pe.pcounter + pa.pcounter == 2 * pc + 2
            &&& pe.registers == s.registers && pa.registers == s.registers
        }),
{
}

/// The jumps: 1NNN goes to NNN, BNNN to NNN + V0, BXNN to NNN + VX, and
/// 2NNN goes to NNN after pushing the address of the next instruction.
/// ANNN sets I to NNN. None of them changes a register or memory.
pub proof fn lemma_jumps(s: Chip8State, t: TimerState, d: DecodedOpcode, rnd: u8)
    requires
        decoded_wf(d),
        s.registers.len() == 16,
    ensures
        ({
            let j1 = execute_spec(s, t, Chip8Instruction::_1NNN, d, rnd).0;
            let jb = execute_spec(s, t, Chip8Instruction::_BNNN, d, rnd).0;
            let jx = execute_spec(s, t, Chip8Instruction::_BXNN, d, rnd).0;
            let j2 = execute_spec(s, t, Chip8Instruction::_2NNN, d, rnd).0;
            let ja = execute_spec(s, t, Chip8Instruction::_ANNN, d, rnd).0;
            &&& j1.pcounter == d.nnn && j1.stack == s.stack
            &&& jb.pcounter == d.nnn + s.registers[0]
            &&& jx.pcounter == d.nnn + s.registers[d.x as int]
            &&& j2.pcounter == d.nnn
            &&& j2.stack.len() == s.stack.len() + 1
            &&& j2.stack.last() == s.pcounter
            &&& j2.stack.drop_last() == s.stack
            &&& ja.index_reg == d.nnn && ja.pcounter == s.pcounter
            &&& j1.registers == s.registers && jb.registers == s.registers
            &&& jx.registers == s.registers && j2.registers == s.registers
            &&& ja.registers == s.registers
            &&& j1.memory == s.memory && j2.memory == s.memory && ja.memory == s.memory
        }),
{
    let j2 = execute_spec(s, t, Chip8Instruction::_2NNN, d, rnd).0;
    assert(j2.stack.drop_last() =~= s.stack);
}

/// A return (00EE) goes to the address on top of the stack and pops it.
pub proof fn lemma_return(s: Chip8State, t: TimerState, d: DecodedOpcode, rnd: u8)
    requires
        s.stack.len() > 0,
    ensures
        ({
            let r = execute_spec(s, t, Chip8Instruction::_00EE, d, rnd).0;
            &&& r.pcounter == s.stack[s.stack.len() - 1]
            &&& r.stack.len() == s.stack.len() - 1
            &&& forall|i: int| 0 <= i < r.stack.len() ==> r.stack[i] == s.stack[i]
            &&& r.registers == s.registers
        }),
{
}

/// 00E0 turns every pixel off and changes nothing else on the display's
/// size.
pub proof fn lemma_clear_screen(s: Chip8State, t: TimerState, d: DecodedOpcode, rnd: u8, p: int)
    requires
        0 <= p < 2048,
    ensures
        ({
            let c = execute_spec(s, t, Chip8Instruction::_00E0, d, rnd).0;
            &&& c.display.len() == 2048
            &&& !c.display[p]
            &&& c.registers == s.registers
            &&& c.pcounter == s.pcounter
        }),
{
}

} // verus!

verus! {

/// The opcode pattern that an instruction's name spells: its first nibble,
/// and its last nibble or low byte where the name fixes them. Opcodes that
/// start with B name BNNN on the original hardware and BXNN otherwise.
pub open spec fn matches_pattern(ins: Chip8Instruction, n1: u8, n: u8, nn: u8, og: bool) -> bool {
    match ins {
        Chip8Instruction::_00E0 => n1 == 0x0 && nn == 0xE0,
        Chip8Instruction::_00EE => n1 == 0x0 && nn == 0xEE,
        Chip8Instruction::_1NNN => n1 == 0x1,
        Chip8Instruction::_2NNN => n1 == 0x2,
        Chip8Instruction::_3XNN => n1 == 0x3,
        Chip8Instruction::_4XNN => n1 == 0x4,
        Chip8Instruction::_5XY0 => n1 == 0x5,
        Chip8Instruction::_6XNN => n1 == 0x6,
        Chip8Instruction::_7XNN => n1 == 0x7,
        Chip8Instruction::_8XY0 => n1 == 0x8 && n == 0x0,
        Chip8Instruction::_8XY1 => n1 == 0x8 && n == 0x1,
        Chip8Instruction::_8XY2 => n1 == 0x8 && n == 0x2,
        Chip8Instruction::_8XY3 => n1 == 0x8 && n == 0x3,
        Chip8Instruction::_8XY4 => n1 == 0x8 && n == 0x4,
        Chip8Instruction::_8XY5 => n1 == 0x8 && n == 0x5,
        Chip8Instruction::_8XY6 => n1 == 0x8 && n == 0x6,
        Chip8Instruction::_8XY7 => n1 == 0x8 && n == 0x7,
        Chip8Instruction::_8XYE => n1 == 0x8 && n == 0xE,
        Chip8Instruction::_9XY0 => n1 == 0x9,
        Chip8Instruction::_ANNN => n1 == 0xA,
        Chip8Instruction::_BNNN => n1 == 0xB && og,
        Chip8Instruction::_BXNN => n1 == 0xB && !og,
        Chip8Instruction::_CXNN => n1 == 0xC,
        Chip8Instruction::_DXYN => n1 == 0xD,
        Chip8Instruction::_EX9A => n1 == 0xE && nn == 0x9E,
        Chip8Instruction::_EXA1 => n1 == 0xE && nn == 0xA1,
        Chip8Instruction::_FX07 => n1 == 0xF && nn == 0x07,
        Chip8Instruction::_FX0A => n1 == 0xF && nn == 0x0A,
        Chip8Instruction::_FX15 => n1 == 0xF && nn == 0x15,
        Chip8Instruction::_FX18 => n1 == 0xF && nn == 0x18,
        Chip8Instruction::_FX29 => n1 == 0xF && nn == 0x29,
        Chip8Instruction::_FX1E => n1 == 0xF && nn == 0x1E,
        Chip8Instruction::_FX33 => n1 == 0xF && nn == 0x33,
        Chip8Instruction::_FX55 => n1 == 0xF && nn == 0x55,
        Chip8Instruction::_FX65 => n1 == 0xF && nn == 0x65,
    }
}

/// An opcode names an instruction exactly when it fits the pattern that
/// the instruction's name spells; and it fits no other instruction's
/// pattern, so each opcode names at most one instruction.
pub proof fn lemma_instruction_names_match_patterns(
    ins: Chip8Instruction,
    n1: u8,
    n: u8,
    nn: u8,
    og: bool,
)
    ensures
        instruction_spec(n1, n, nn, og) == Some(ins) <==> matches_pattern(ins, n1, n, nn, og),
        instruction_spec(n1, n, nn, og) is None <==> forall|other: Chip8Instruction|
            !#[trigger] matches_pattern(other, n1, n, nn, og),
{
    if instruction_spec(n1, n, nn, og) is None {
        assert forall|other: Chip8Instruction| !#[trigger] matches_pattern(other, n1, n, nn, og) by {
            match other {
                _ => {},
            }
        }
    } else {
        let found = instruction_spec(n1, n, nn, og).unwrap();
        assert(matches_pattern(found, n1, n, nn, og));
    }
}

} // verus!

verus! {

/// An instruction can run whenever nothing it touches lies out of range:
/// the program counter can move two either way, the index register leaves
/// room for 256 bytes of memory, a return has a return address on the
/// stack, and a key test names one of the 16 keys. In particular every
/// key test of a key 0 to F can run.
pub proof fn lemma_in_range_instructions_are_safe(s: Chip8State, ins: Chip8Instruction, d: DecodedOpcode)
    requires
        decoded_wf(d),
        s.registers.len() == 16,
        2 <= s.pcounter <= u16::MAX - 2,
        s.index_reg + 256 <= 4096,
        ins == Chip8Instruction::_00EE ==> s.stack.len() > 0,
        (ins == Chip8Instruction::_EX9A || ins == Chip8Instruction::_EXA1) ==> s.registers[d.x as int] < 16,
    ensures
        execute_safe(s, ins, d),
{
}

/// The key tests and the return are refused exactly where they would
/// fault: a key number of 16 or more, or an empty stack.
pub proof fn lemma_refused_key_tests_and_returns(s: Chip8State, d: DecodedOpcode)
    requires
        s.pcounter + 2 <= u16::MAX,
    ensures
        execute_safe(s, Chip8Instruction::_EX9A, d) <==> s.registers[d.x as int] < 16,
        execute_safe(s, Chip8Instruction::_EXA1, d) <==> s.registers[d.x as int] < 16,
        execute_safe(s, Chip8Instruction::_00EE, d) <==> s.stack.len() > 0,
{
}

/// A cycle can run whenever its opcode lies in memory and the instruction
/// it names, if any, touches nothing out of range (as above) once the
/// program counter has moved past it.
pub proof fn lemma_in_range_cycles_are_safe(s: Chip8State, input: Option<KeypadArray>)
    requires
        s.registers.len() == 16,
        2 <= s.pcounter + 2 <= u16::MAX - 2,
        s.pcounter + 1 < 4096,
        s.index_reg + 256 <= 4096,
        s.stack.len() > 0,
        forall|k: int| 0 <= k < 16 ==> s.registers[k] < 16,
        s.memory.len() == 4096,
    ensures
        cycle_safe(s, input),
{
    let s0 = with_keypad(s, input);
    let d = decode_spec(fetch_spec(s0));
    let s1 = after_fetch(s0);
    match instruction_spec(d.n1, d.n, d.nn, s0.og_behaviour) {
        Some(ins) => {
            lemma_in_range_instructions_are_safe(s1, ins, d);
        },
        None => {},
    }
}

} // verus!

verus! {

/// FX07 copies the delay timer into VX, FX15 sets the delay timer to VX
/// and FX18 sets the sound timer to VX; each leaves the other timer alone,
/// and only FX07 changes a register.
pub proof fn lemma_timer_instructions(s: Chip8State, t: TimerState, d: DecodedOpcode, rnd: u8)
    requires
        decoded_wf(d),
        s.registers.len() == 16,
    ensures
        ({
            let vx = s.registers[d.x as int];
            let (s7, t7) = execute_spec(s, t, Chip8Instruction::_FX07, d, rnd);
            let (s15, t15) = execute_spec(s, t, Chip8Instruction::_FX15, d, rnd);
            let (s18, t18) = execute_spec(s, t, Chip8Instruction::_FX18, d, rnd);
            &&& s7.registers[d.x as int] == t.delay && t7 == t
            &&& forall|k: int| 0 <= k < 16 && k != d.x ==> s7.registers[k] == s.registers[k]
            &&& t15.delay == vx && t15.sound == t.sound && s15.registers == s.registers
            &&& t18.sound == vx && t18.delay == t.delay && s18.registers == s.registers
        }),
{
}

/// FX1E adds VX to the index register; FX55 writes V0 to VX to memory at
/// I, I + 1, ... and leaves every other byte alone; FX65 reads V0 to VX
/// from there and leaves the other registers alone.
pub proof fn lemma_memory_instructions(
    s: Chip8State,
    t: TimerState,
    d: DecodedOpcode,
    rnd: u8,
    k: int,
    m: int,
)
    requires
        decoded_wf(d),
        s.registers.len() == 16,
        s.memory.len() == 4096,
        s.index_reg + d.x + 1 <= 4096,
        0 <= k < 16,
        0 <= m < 4096,
    ensures
        ({
            let i = s.index_reg as int;
            let x = d.x as int;
            let e = execute_spec(s, t, Chip8Instruction::_FX1E, d, rnd).0;
            let st = execute_spec(s, t, Chip8Instruction::_FX55, d, rnd).0;
            let ld = execute_spec(s, t, Chip8Instruction::_FX65, d, rnd).0;
            &&& s.index_reg + s.registers[x] <= u16::MAX ==> e.index_reg == s.index_reg
                + s.registers[x]
            &&& k <= x ==> st.memory[i + k] == s.registers[k]
            &&& !(i <= m <= i + x) ==> st.memory[m] == s.memory[m]
            &&& st.memory.len() == 4096 && st.registers == s.registers
            &&& k <= x ==> ld.registers[k] == s.memory[i + k]
            &&& k > x ==> ld.registers[k] == s.registers[k]
            &&& ld.memory == s.memory
        }),
{
}

/// A tick beeps exactly when the sound timer was above zero before it.
pub proof fn lemma_tick_beeps_while_sound_runs(t: TimerState)
    ensures
        tick_spec(t).beep <==> t.sound > 0,
        tick_spec(t).sound <= t.sound,
        tick_spec(t).delay <= t.delay,
{
}

/// Loading a ROM puts its byte `k` at the start address plus `k`, and
/// leaves every byte outside the ROM's span alone.
pub proof fn lemma_rom_lands_at_start_address(mem: Seq<u8>, rom: Seq<u8>, k: int, m: int)
    requires
        mem.len() == 4096,
        rom.len() <= MAX_ROM_SIZE,
        0 <= m < 4096,
    ensures
        memory_with_rom(mem, rom).len() == 4096,
        0 <= k < rom.len() ==> memory_with_rom(mem, rom)[START_ADDRESS + k] == rom[k],
        !(START_ADDRESS <= m < START_ADDRESS + rom.len()) ==> memory_with_rom(mem, rom)[m]
            == mem[m],
{
}

/// A machine that was just switched on has the font in its first 80
/// bytes and zeros in the rest of memory, all registers at zero, the
/// program counter at 0x200, an empty stack, no key down and a dark
/// display.
pub proof fn lemma_switched_on(og: bool, m: int, k: int, p: int)
    requires
        0 <= m < 4096,
        0 <= k < 16,
        0 <= p < 2048,
    ensures
        ({
            let s = initial_state(og);
            &&& s.memory.len() == 4096 && s.registers.len() == 16
            &&& s.memory[m] == if m < 80 {
                FONTSET@[m]
            } else {
                0u8
            }
            &&& s.registers[k] == 0
            &&& s.pcounter == 0x200 && s.index_reg == 0
            &&& s.stack.len() == 0
            &&& !s.keypad[k]
            &&& s.display.len() == 2048 && !s.display[p]
            &&& s.og_behaviour == og
        }),
{
}

} // verus!

verus! {

/// When the target register is VF itself, the flag and the result race
/// for it and the later write wins: 8XY4 and 8XY5 leave their flag in VF,
/// 8XY6 and 8XYE their shifted value.
pub proof fn lemma_vf_as_target(s: Chip8State, t: TimerState, d: DecodedOpcode, rnd: u8)
    requires
        decoded_wf(d),
        d.x == 15,
        s.registers.len() == 16,
    ensures
        ({
            let vx = s.registers[15];
            let vy = s.registers[d.y as int];
            let v = if s.og_behaviour {
                vy
            } else {
                vx
            };
            &&& execute_spec(s, t, Chip8Instruction::_8XY4, d, rnd).0.registers[15] == (if vx + vy
                > 255 {
                1u8
            } else {
                0u8
            })
            &&& execute_spec(s, t, Chip8Instruction::_8XY5, d, rnd).0.registers[15] == (if vx
                >= vy {
                1u8
            } else {
                0u8
            })
            &&& 2 * execute_spec(s, t, Chip8Instruction::_8XY6, d, rnd).0.registers[15] + v % 2 == v
            &&& execute_spec(s, t, Chip8Instruction::_8XYE, d, rnd).0.registers[15] + (if v
                >= 128 {
                256int
            } else {
                0int
            }) == 2 * v
        }),
{
    let v = if s.og_behaviour {
        s.registers[d.y as int]
    } else {
        s.registers[15]
    };
    if v >= 128 {
        assert((v * 2) % 256 == v * 2 - 256);
    } else {
        assert((v * 2) % 256 == v * 2);
    }
}

/// DXYN draws the N-byte sprite at I with its corner at (VX, VY): the
/// pixel under row i and column j flips exactly when bit 7 - j of the
/// byte at I + i is 1, every other pixel stays, VF becomes 1 when a set
/// bit lands on a lit pixel and 0 otherwise, and no other register
/// changes.
pub proof fn lemma_draw_instruction(
    s: Chip8State,
    t: TimerState,
    d: DecodedOpcode,
    rnd: u8,
    i: int,
    j: int,
    k: int,
)
    requires
        decoded_wf(d),
        s.registers.len() == 16,
        s.display.len() == 2048,
        0 <= i < d.n,
        0 <= j < 8,
        0 <= k < 15,
    ensures
        ({
            let vx = s.registers[d.x as int];
            let vy = s.registers[d.y as int];
            let p = sprite_pixel(vx, vy, i, j);
            let r = execute_spec(s, t, Chip8Instruction::_DXYN, d, rnd).0;
            &&& r.display.len() == 2048
            &&& r.display[p] == (s.display[p] != (bit(s.memory[s.index_reg + i] as int, (7 - j) as nat) == 1))
            &&& r.registers[15] == (if exists|a: int, b: int|
                0 <= a < d.n && 0 <= b < 8 && s.display[#[trigger] sprite_pixel(vx, vy, a, b)]
                    && bit(s.memory[s.index_reg + a] as int, (7 - b) as nat) == 1 {
                1u8
            } else {
                0u8
            })
            &&& r.registers[k] == s.registers[k]
        }),
{
    let vx = s.registers[d.x as int];
    let vy = s.registers[d.y as int];
    lemma_draw_flips_sprite_bits(s.display, s.memory, s.index_reg, vx, vy, d.n, i, j);
    lemma_draw_collision_from_bits(s.display, s.memory, s.index_reg, vx, vy, d.n);
}

/// DXYN leaves every pixel that no row and column of its sprite lands on
/// as it was.
pub proof fn lemma_draw_instruction_leaves_other_pixels(
    s: Chip8State,
    t: TimerState,
    d: DecodedOpcode,
    rnd: u8,
    p: int,
)
    requires
        decoded_wf(d),
        s.registers.len() == 16,
        s.display.len() == 2048,
        0 <= p < 2048,
        forall|i: int, j: int|
            0 <= i < d.n && 0 <= j < 8 ==> p != #[trigger] sprite_pixel(
                s.registers[d.x as int],
                s.registers[d.y as int],
                i,
                j,
            ),
    ensures
        execute_spec(s, t, Chip8Instruction::_DXYN, d, rnd).0.display[p] == s.display[p],
{
    lemma_draw_leaves_other_pixels(
        s.display,
        s.memory,
        s.index_reg,
        s.registers[d.x as int],
        s.registers[d.y as int],
        d.n,
        p,
    );
}

/// Exactly clearing the screen and drawing report that the display may
/// have changed.
pub proof fn lemma_display_reports(ins: Chip8Instruction)
    ensures
        changes_display(ins) <==> (ins == Chip8Instruction::_00E0 || ins == Chip8Instruction::_DXYN),
{
}

/// The byte at the program counter is the high byte of the opcode and
/// the byte after it the low byte: its first nibble is the group, and the
/// next byte is NN. The keypad a cycle sees is the one just sent, if any.
pub proof fn lemma_fetch_order(s: Chip8State, input: Option<KeypadArray>)
    requires
        s.memory.len() == 4096,
        s.pcounter + 1 < 4096,
    ensures
        ({
            let d = decode_spec(fetch_spec(s));
            let hi = s.memory[s.pcounter as int];
            let lo = s.memory[s.pcounter + 1];
            &&& d.n1 == hi / 16
            &&& d.x == hi % 16
            &&& d.nn == lo
            &&& d.y == lo / 16
            &&& d.n == lo % 16
            &&& after_fetch(s).pcounter == s.pcounter + 2
        }),
        match input {
            Some(k) => with_keypad(s, input).keypad == k@,
            None => with_keypad(s, input).keypad == s.keypad,
        },
        with_keypad(s, input).registers == s.registers,
        with_keypad(s, input).pcounter == s.pcounter,
{
    let hi = s.memory[s.pcounter as int];
    let lo = s.memory[s.pcounter + 1];
    let op = hi * 256 + lo;
    assert(op / 4096 == hi / 16 && (op / 256) % 16 == hi % 16 && op % 256 == lo && (op / 16)
        % 16 == lo / 16 && op % 16 == lo % 16) by (nonlinear_arith)
        requires
            op == hi * 256 + lo,
            0 <= hi < 256,
            0 <= lo < 256,
    ;
}

} // verus!

verus! {

/// Every position that the window draws at is the corner of a lit pixel:
/// column times the scale across, row times the scale down.
pub proof fn lemma_corners_are_lit_pixels(display: Seq<bool>, n: nat, c: int)
    requires
        n <= display.len(),
        0 <= c < lit_corners(display, n).len(),
    ensures
        exists|p: int|
            0 <= p < n && display[p] && lit_corners(display, n)[c] == (
            ((p % 64) * SCREEN_SCALE) as i32,
            ((p / 64) * SCREEN_SCALE) as i32,
        ),
    decreases n,
{
    let prev = lit_corners(display, (n - 1) as nat);
    if c < prev.len() {
        lemma_corners_are_lit_pixels(display, (n - 1) as nat, c);
        let p = choose|p: int|
            0 <= p < n - 1 && display[p] && prev[c] == (
            ((p % 64) * SCREEN_SCALE) as i32,
            ((p / 64) * SCREEN_SCALE) as i32,
        );
        assert(lit_corners(display, n)[c] == prev[c]);
    } else {
        assert(display[n - 1]);
        assert(lit_corners(display, n)[c] == (
            (((n - 1) % 64) * SCREEN_SCALE) as i32,
            (((n - 1) / 64) * SCREEN_SCALE) as i32,
        ));
    }
}

/// Every lit pixel has its corner among the positions the window draws
/// at.
pub proof fn lemma_lit_pixels_have_corners(display: Seq<bool>, n: nat, p: int)
    requires
        n <= display.len(),
        0 <= p < n,
        display[p],
    ensures
        lit_corners(display, n).contains(
            (((p % 64) * SCREEN_SCALE) as i32, ((p / 64) * SCREEN_SCALE) as i32),
        ),
    decreases n,
{
    let corner = (((p % 64) * SCREEN_SCALE) as i32, ((p / 64) * SCREEN_SCALE) as i32);
    let prev = lit_corners(display, (n - 1) as nat);
    if p < n - 1 {
        lemma_lit_pixels_have_corners(display, (n - 1) as nat, p);
        let w = choose|w: int| 0 <= w < prev.len() && prev[w] == corner;
        assert(lit_corners(display, n)[w] == corner);
    } else {
        let last = lit_corners(display, n).len() - 1;
        assert(lit_corners(display, n)[last] == corner);
    }
}

/// Padding a text to a width keeps the text, then adds spaces until it is
/// that wide; a text already that wide stays as it is.
pub proof fn lemma_padding(s: Seq<char>, width: nat, i: int)
    ensures
        padded(s, width).len() == if s.len() >= width {
            s.len()
        } else {
            width
        },
        0 <= i < s.len() ==> padded(s, width)[i] == s[i],
        s.len() <= i < width ==> padded(s, width)[i] == ' ',
{
}

/// The help lines line up: for a short spelling of at most 5 characters
/// and a long one of at most 15, the line is two spaces, the short
/// spelling from column 2, the long one from column 7 and the description
/// from column 22, with spaces between, and ends with a newline.
pub proof fn lemma_help_columns_line_up(f: Flag, i: int)
    requires
        f.short@.len() <= 5,
        f.long@.len() <= 15,
    ensures
        ({
            let line = flag_line(f);
            let sh = f.short@;
            let lg = f.long@;
            let ds = f.desc@;
            &&& line.len() == 23 + ds.len()
            &&& 0 <= i < 2 ==> line[i] == ' '
            &&& 0 <= i < sh.len() ==> line[2 + i] == sh[i]
            &&& 2 + sh.len() <= i < 7 ==> line[i] == ' '
            &&& 0 <= i < lg.len() ==> line[7 + i] == lg[i]
            &&& 7 + lg.len() <= i < 22 ==> line[i] == ' '
            &&& 0 <= i < ds.len() ==> line[22 + i] == ds[i]
            &&& line[22 + ds.len() as int] == '\n'
        }),
{
    reveal_strlit("  ");
    reveal_strlit("\n");
    let sh = f.short@;
    let lg = f.long@;
    let ds = f.desc@;
    let a = "  "@;
    let b = padded(sh, 5);
    let c = padded(lg, 15);
    assert(a.len() == 2 && a[0] == ' ' && a[1] == ' ');
    assert(b.len() == 5 && c.len() == 15);
    let line = flag_line(f);
    assert(line == a + b + c + ds + "\n"@);
}

} // verus!

verus! {

/// Some key is down exactly when one of the 16 keys is.
pub proof fn lemma_any_key(keypad: Seq<bool>)
    requires
        keypad.len() == 16,
    ensures
        any_key(keypad) <==> exists|i: int| 0 <= i < 16 && #[trigger] keypad[i],
{
    if any_key(keypad) {
        let i = choose|i: int| 0 <= i < keypad.len() && keypad[i] == true;
        assert(keypad[i]);
    }
}

/// After FX55 or FX65 the index register has moved past the registers
/// copied (to I + X + 1) on the original hardware, and stays at I
/// otherwise.
pub proof fn lemma_transfer_moves_index(s: Chip8State, t: TimerState, d: DecodedOpcode, rnd: u8)
    requires
        decoded_wf(d),
        s.index_reg + d.x + 1 <= 4096,
    ensures
        ({
            let want = if s.og_behaviour {
                s.index_reg + d.x + 1
            } else {
                s.index_reg as int
            };
            &&& execute_spec(s, t, Chip8Instruction::_FX55, d, rnd).0.index_reg == want
            &&& execute_spec(s, t, Chip8Instruction::_FX65, d, rnd).0.index_reg == want
        }),
{
}

/// The instructions that touch memory or move the program counter are
/// refused exactly where they would reach outside memory or overflow: a
/// draw exactly when some sprite row lies past the last byte, BCD when
/// one of its three bytes does, a register store or load when one of its
/// X + 1 bytes does, FX1E when I + VX does not fit in 16 bits, a skip when
/// the counter cannot move two further, and a wait with no key down when
/// it cannot move two back.
pub proof fn lemma_refusals_are_faults(s: Chip8State, d: DecodedOpcode)
    requires
        decoded_wf(d),
        s.registers.len() == 16,
    ensures
        execute_safe(s, Chip8Instruction::_DXYN, d) <==> forall|i: int|
            0 <= i < d.n ==> #[trigger] (s.index_reg + i) < 4096,
        execute_safe(s, Chip8Instruction::_FX33, d) <==> forall|i: int|
            0 <= i < 3 ==> #[trigger] (s.index_reg + i) < 4096,
        execute_safe(s, Chip8Instruction::_FX55, d) <==> forall|i: int|
            0 <= i <= d.x ==> #[trigger] (s.index_reg + i) < 4096,
        execute_safe(s, Chip8Instruction::_FX65, d) <==> forall|i: int|
            0 <= i <= d.x ==> #[trigger] (s.index_reg + i) < 4096,
        execute_safe(s, Chip8Instruction::_FX1E, d) <==> s.index_reg + s.registers[d.x as int]
            < 0x10000,
        execute_safe(s, Chip8Instruction::_3XNN, d) <==> s.pcounter + 2 < 0x10000,
        execute_safe(s, Chip8Instruction::_9XY0, d) <==> s.pcounter + 2 < 0x10000,
        !any_key(s.keypad) ==> (execute_safe(s, Chip8Instruction::_FX0A, d) <==> s.pcounter - 2
            >= 0),
        any_key(s.keypad) ==> execute_safe(s, Chip8Instruction::_FX0A, d),
{
    if d.n > 0 && forall|i: int| 0 <= i < d.n ==> #[trigger] (s.index_reg + i) < 4096 {
        assert(s.index_reg + (d.n - 1) < 4096);
    }
    if forall|i: int| 0 <= i < 3 ==> #[trigger] (s.index_reg + i) < 4096 {
        assert(s.index_reg + 2 < 4096);
    }
    if forall|i: int| 0 <= i <= d.x ==> #[trigger] (s.index_reg + i) < 4096 {
        assert(s.index_reg + d.x < 4096);
    }
}

} // verus!
