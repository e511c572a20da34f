//! What drawing a sprite does to the display.
//!
//! A sprite is `height` bytes read from memory at the index register, one
//! byte per row and one bit per column, most significant bit leftmost. It
//! is drawn with its top-left corner at (VX mod 64, VY mod 32) and wraps
//! around the edges of the 64 x 32 display. Each set bit flips the pixel
//! under it; the draw collides when it turns a lit pixel off.
use vstd::prelude::*;

verus! {

/// Whether column `j` (0 is the leftmost) of a sprite row is set.
pub open spec fn sprite_bit(byte: u8, j: int) -> bool {
    (byte >> ((7 - j) as u8)) & 1u8 == 1u8
}

/// The sprite row that display pixel `p` lies in, counted from the row
/// where the sprite starts and wrapping around the bottom edge.
pub open spec fn row_offset(start_y: int, p: int) -> int {
    (p / 64 - start_y + 32) % 32
}

/// The sprite column that display pixel `p` lies in, counted from the
/// column where the sprite starts and wrapping around the right edge.
pub open spec fn col_offset(start_x: int, p: int) -> int {
    (p % 64 - start_x + 64) % 64
}

/// Whether the sprite has a set bit over display pixel `p`, among its rows
/// before `ri` and the columns before `cj` of row `ri`.
pub open spec fn covered_before(
    mem: Seq<u8>,
    index: u16,
    vx: u8,
    vy: u8,
    height: u8,
    p: int,
    ri: int,
    cj: int,
) -> bool {
    let i = row_offset((vy % 32) as int, p);
    let j = col_offset((vx % 64) as int, p);
    &&& i < height
    &&& j < 8
    &&& (i < ri || (i == ri && j < cj))
    &&& sprite_bit(mem[index + i], j)
}

/// Whether the sprite has a set bit over display pixel `p`.
pub open spec fn sprite_covers(mem: Seq<u8>, index: u16, vx: u8, vy: u8, height: u8, p: int) -> bool {
    let i = row_offset((vy % 32) as int, p);
    let j = col_offset((vx % 64) as int, p);
    &&& i < height
    &&& j < 8
    &&& sprite_bit(mem[index + i], j)
}

/// The display after the sprite was drawn: every pixel under a set bit of
/// the sprite flipped, every other pixel as it was.
pub open spec fn drawn_display(
    display: Seq<bool>,
    mem: Seq<u8>,
    index: u16,
    vx: u8,
    vy: u8,
    height: u8,
) -> Seq<bool> {
    Seq::new(display.len(), |p: int| display[p] != sprite_covers(mem, index, vx, vy, height, p))
}

/// Whether drawing the sprite turns some lit pixel off.
pub open spec fn draw_collides(
    display: Seq<bool>,
    mem: Seq<u8>,
    index: u16,
    vx: u8,
    vy: u8,
    height: u8,
) -> bool {
    exists|p: int|
        0 <= p < display.len() && display[p] && #[trigger] sprite_covers(
            mem,
            index,
            vx,
            vy,
            height,
            p,
        )
}

/// The pixel at row `i` and column `j` of a sprite that starts at
/// (`sx`, `sy`) lies on the display and its offsets are `i` and `j`.
pub proof fn lemma_pixel_offsets(sx: int, sy: int, i: int, j: int)
    requires
        0 <= sx < 64,
        0 <= sy < 32,
        0 <= i < 32,
        0 <= j < 64,
    ensures
        ({
            let p = ((sy + i) % 32) * 64 + (sx + j) % 64;
            &&& 0 <= p < 2048
            &&& row_offset(sy, p) == i
            &&& col_offset(sx, p) == j
        }),
{
    let r = (sy + i) % 32;
    let c = (sx + j) % 64;
    let p = r * 64 + c;
    assert(0 <= r < 32 && 0 <= c < 64);
    assert(p / 64 == r && p % 64 == c) by (nonlinear_arith)
        requires
            p == r * 64 + c,
            0 <= c < 64,
            0 <= r,
    ;
    if sy + i < 32 {
        assert(r == sy + i);
    } else {
        assert(r == sy + i - 32);
    }
    if sx + j < 64 {
        assert(c == sx + j);
    } else {
        assert(c == sx + j - 64);
    }
}

/// A display pixel is the pixel of the sprite at its offsets.
pub proof fn lemma_offsets_determine_pixel(sx: int, sy: int, p: int)
    requires
        0 <= sx < 64,
        0 <= sy < 32,
        0 <= p < 2048,
    ensures
        0 <= row_offset(sy, p) < 32,
        0 <= col_offset(sx, p) < 64,
        p == ((sy + row_offset(sy, p)) % 32) * 64 + (sx + col_offset(sx, p)) % 64,
{
    let r = p / 64;
    let c = p % 64;
    assert(p == r * 64 + c && 0 <= r < 32 && 0 <= c < 64) by (nonlinear_arith)
        requires
            r == p / 64,
            c == p % 64,
            0 <= p < 2048,
    ;
    let i = row_offset(sy, p);
    let j = col_offset(sx, p);
    if r - sy >= 0 {
        assert(i == r - sy);
    } else {
        assert(i == r - sy + 32);
    }
    if c - sx >= 0 {
        assert(j == c - sx);
    } else {
        assert(j == c - sx + 64);
    }
}

} // verus!

verus! {

/// Moving past column `j` of row `i` adds exactly the pixel under that
/// column, if its bit is set, to what the sprite has covered.
pub proof fn lemma_cover_step(
    mem: Seq<u8>,
    index: u16,
    vx: u8,
    vy: u8,
    height: u8,
    i: int,
    j: int,
    p: int,
)
    requires
        0 <= i < height < 32,
        0 <= j < 8,
        0 <= p < 2048,
    ensures
        covered_before(mem, index, vx, vy, height, p, i, j + 1) == (covered_before(
            mem,
            index,
            vx,
            vy,
            height,
            p,
            i,
            j,
        ) || (p == ((vy % 32 + i) % 32) * 64 + (vx % 64 + j) % 64 && sprite_bit(
            mem[index + i],
            j,
        ))),
{
    let sx = (vx % 64) as int;
    let sy = (vy % 32) as int;
    lemma_pixel_offsets(sx, sy, i, j);
    lemma_offsets_determine_pixel(sx, sy, p);
}

/// Draws a sprite onto the display: flips every pixel under a set bit of
/// the sprite and tells whether a lit pixel was turned off.
pub fn draw_sprite(
    display: &mut [bool; 2048],
    memory: &[u8; 4096],
    index: u16,
    vx: u8,
    vy: u8,
    height: u8,
) -> (collision: bool)
    requires
        height < 16,
        height == 0 || index + height <= 4096,
    ensures
        final(display)@ == drawn_display(old(display)@, memory@, index, vx, vy, height),
        collision == draw_collides(old(display)@, memory@, index, vx, vy, height),
{
    let ghost old_disp = display@;
    let ghost mem = memory@;
    let start_x = vx % 64;
    let start_y = vy % 32;
    let mut collision = false;
    let mut i: u8 = 0;
    while i < height
        invariant
            i <= height < 16,
            height == 0 || index + height <= 4096,
            start_x == vx % 64,
            start_y == vy % 32,
            mem == memory@,
            old_disp == old(display)@,
            display@.len() == 2048,
            forall|p: int|
                0 <= p < 2048 ==> #[trigger] display@[p] == (old_disp[p] != covered_before(
                    mem,
                    index,
                    vx,
                    vy,
                    height,
                    p,
                    i as int,
                    0,
                )),
            collision == exists|p: int|
                0 <= p < 2048 && old_disp[p] && #[trigger] covered_before(
                    mem,
                    index,
                    vx,
                    vy,
                    height,
                    p,
                    i as int,
                    0,
                ),
        decreases height - i,
    {
        let sprite_byte: u8 = memory[index as usize + i as usize];
        let row_coord = (start_y + i) % 32;
        let mut j: u8 = 0;
        while j < 8
            invariant
                i < height < 16,
                j <= 8,
                start_x == vx % 64,
                start_y == vy % 32,
                row_coord == (start_y + i) % 32,
                sprite_byte == mem[index + i],
                mem == memory@,
                old_disp == old(display)@,
                display@.len() == 2048,
                forall|p: int|
                    0 <= p < 2048 ==> #[trigger] display@[p] == (old_disp[p] != covered_before(
                        mem,
                        index,
                        vx,
                        vy,
                        height,
                        p,
                        i as int,
                        j as int,
                    )),
                collision == exists|p: int|
                    0 <= p < 2048 && old_disp[p] && #[trigger] covered_before(
                        mem,
                        index,
                        vx,
                        vy,
                        height,
                        p,
                        i as int,
                        j as int,
                    ),
            decreases 8 - j,
        {
            let column = (start_x + j) % 64;
            let isolated_bit = sprite_byte >> (7 - j) & 1;
            let display_index: usize = row_coord as usize * 64 + column as usize;
            let ghost idx = display_index as int;
            let ghost bit = sprite_bit(sprite_byte, j as int);
            assert(isolated_bit == 1 <==> bit);
            proof {
                lemma_pixel_offsets(start_x as int, start_y as int, i as int, j as int);
                assert forall|p: int| 0 <= p < 2048 implies covered_before(
                    mem,
                    index,
                    vx,
                    vy,
                    height,
                    p,
                    i as int,
                    j + 1,
                ) == (covered_before(mem, index, vx, vy, height, p, i as int, j as int) || (p
                    == idx && bit)) by {
                    lemma_cover_step(mem, index, vx, vy, height, i as int, j as int, p);
                }
                assert(!covered_before(mem, index, vx, vy, height, idx, i as int, j as int));
            }
            let ghost before = display@;
            let ghost before_collision = collision;
            if isolated_bit == 1 {
                if display[display_index] == true {
                    collision = true;
                    display[display_index] = false;
                } else {
                    display[display_index] = true;
                }
            }
            proof {
                assert forall|p: int| 0 <= p < 2048 implies #[trigger] display@[p] == (
                old_disp[p] != covered_before(mem, index, vx, vy, height, p, i as int, j + 1)) by {
                    if p != idx {
                        assert(display@[p] == before[p]);
                    }
                }
                if bit && old_disp[idx] {
                    assert(covered_before(mem, index, vx, vy, height, idx, i as int, j + 1));
                }
                if !collision {
                    assert forall|p: int| 0 <= p < 2048 && old_disp[p] implies !covered_before(
                        mem,
                        index,
                        vx,
                        vy,
                        height,
                        p,
                        i as int,
                        j + 1,
                    ) by {
                        if p != idx {
                            assert(!covered_before(mem, index, vx, vy, height, p, i as int, j as int));
                        }
                    }
                }
                if before_collision {
                    let w = choose|p: int|
                        0 <= p < 2048 && old_disp[p] && #[trigger] covered_before(
                            mem,
                            index,
                            vx,
                            vy,
                            height,
                            p,
                            i as int,
                            j as int,
                        );
                    assert(covered_before(mem, index, vx, vy, height, w, i as int, j + 1));
                }
            }
            j = j + 1;
        }
        proof {
            assert forall|p: int| 0 <= p < 2048 implies covered_before(
                mem,
                index,
                vx,
                vy,
                height,
                p,
                i as int,
                8,
            ) == covered_before(mem, index, vx, vy, height, p, i + 1, 0) by {}
            if collision {
                let w = choose|p: int|
                    0 <= p < 2048 && old_disp[p] && #[trigger] covered_before(
                        mem,
                        index,
                        vx,
                        vy,
                        height,
                        p,
                        i as int,
                        8,
                    );
                assert(covered_before(mem, index, vx, vy, height, w, i + 1, 0));
            }
            if !collision {
                assert forall|p: int| 0 <= p < 2048 && old_disp[p] implies !covered_before(
                    mem,
                    index,
                    vx,
                    vy,
                    height,
                    p,
                    i + 1,
                    0,
                ) by {
                    assert(!covered_before(mem, index, vx, vy, height, p, i as int, 8));
                }
            }
        }
        i = i + 1;
    }
    proof {
        assert forall|p: int| 0 <= p < 2048 implies covered_before(
            mem,
            index,
            vx,
            vy,
            height,
            p,
            height as int,
            0,
        ) == sprite_covers(mem, index, vx, vy, height, p) by {}
        assert(display@ =~= drawn_display(old_disp, mem, index, vx, vy, height));
        if collision {
            let w = choose|p: int|
                0 <= p < 2048 && old_disp[p] && #[trigger] covered_before(
                    mem,
                    index,
                    vx,
                    vy,
                    height,
                    p,
                    height as int,
                    0,
                );
            assert(sprite_covers(mem, index, vx, vy, height, w));
        }
        if draw_collides(old_disp, mem, index, vx, vy, height) {
            let w = choose|p: int|
                0 <= p < 2048 && old_disp[p] && #[trigger] sprite_covers(
                    mem,
                    index,
                    vx,
                    vy,
                    height,
                    p,
                );
            assert(covered_before(mem, index, vx, vy, height, w, height as int, 0));
        }
    }
    collision
}

} // verus!

verus! {

/// Drawing the same sprite twice at the same place leaves the display as
/// it was: each draw flips the same pixels.
pub proof fn lemma_draw_twice_restores(
    display: Seq<bool>,
    mem: Seq<u8>,
    index: u16,
    vx: u8,
    vy: u8,
    height: u8,
)
    ensures
        drawn_display(drawn_display(display, mem, index, vx, vy, height), mem, index, vx, vy, height)
            == display,
{
    assert(drawn_display(drawn_display(display, mem, index, vx, vy, height), mem, index, vx, vy, height)
        =~= display);
}

/// A draw collides exactly when it turns some lit pixel off.
pub proof fn lemma_collision_iff_pixel_erased(
    display: Seq<bool>,
    mem: Seq<u8>,
    index: u16,
    vx: u8,
    vy: u8,
    height: u8,
)
    ensures
        draw_collides(display, mem, index, vx, vy, height) <==> exists|p: int|
            0 <= p < display.len() && display[p] && !(#[trigger] drawn_display(
                display,
                mem,
                index,
                vx,
                vy,
                height,
            )[p]),
{
    let after = drawn_display(display, mem, index, vx, vy, height);
    if draw_collides(display, mem, index, vx, vy, height) {
        let p = choose|p: int|
            0 <= p < display.len() && display[p] && #[trigger] sprite_covers(
                mem,
                index,
                vx,
                vy,
                height,
                p,
            );
        assert(!after[p]);
    }
    if exists|p: int| 0 <= p < display.len() && display[p] && !(#[trigger] after[p]) {
        let p = choose|p: int| 0 <= p < display.len() && display[p] && !(#[trigger] after[p]);
        assert(sprite_covers(mem, index, vx, vy, height, p));
    }
}

} // verus!
