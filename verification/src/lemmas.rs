use vstd::prelude::*;

use crate::display::blank_screen;
use crate::isa::{
    draw_bits, draw_rows, instr_wf, load_regs, pixel_of, spec_decode, spec_step, sprite_bit,
    store_regs, Instr, Machine,
};
use crate::Chip8Error;

verus! {

/// Every field of a decoded instruction lies within its bit width.
pub proof fn lemma_decode_wf(ins: u16)
    ensures
        instr_wf(spec_decode(ins)),
{
    assert((ins >> 12) & 0xF < 16 && ((ins >> 8) & 0xF) < 16 && ((ins >> 4) & 0xF) < 16 && (ins
        & 0xF) < 16 && (ins & 0xFF) < 256 && (ins & 0xFFF) < 4096) by (bit_vector);
}

/// Drawing keeps the screen at its 2048 cells.
proof fn lemma_draw_rows_len(
    s: Seq<bool>,
    vf: bool,
    mem: Seq<u8>,
    index: u16,
    vx: u8,
    vy: u8,
    rows: int,
)
    requires
        s.len() == 2048,
        0 <= rows,
    ensures
        draw_rows(s, vf, mem, index, vx, vy, rows).0.len() == 2048,
    decreases rows,
{
    if rows > 0 {
        lemma_draw_rows_len(s, vf, mem, index, vx, vy, rows - 1);
        let prev = draw_rows(s, vf, mem, index, vx, vy, rows - 1);
        lemma_draw_bits_pointwise(
            prev.0,
            prev.1,
            mem[index + rows - 1],
            vx,
            (vy + rows - 1) % 32,
            8,
            0,
        );
    }
}

/// The state invariant: whatever instruction a well-formed machine executes,
/// the machine it steps to is well formed again — the register file, stack,
/// memory, screen and key vector keep their sizes and the stack pointer
/// stays within its sixteen slots.
pub proof fn lemma_step_preserves_wf(m: Machine, ins: u16, r: u8)
    requires
        m.wf(),
    ensures
        match spec_step(m, ins, r) {
            Ok(m2) => m2.wf(),
            Err(_) => true,
        },
{
    lemma_decode_wf(ins);
    match spec_decode(ins) {
        Instr::Draw(x, y, n) => {
            if !(n > 0 && m.index + n > 4096) {
                lemma_draw_rows_len(
                    m.screen,
                    false,
                    m.mem,
                    m.index,
                    m.vx[x as int],
                    m.vx[y as int],
                    n as int,
                );
            }
        },
        Instr::StoreRegs(x) => {
            if !(m.index + x + 1 > 4096) {
                lemma_store_regs_pointwise(m.mem, m.vx, m.index, x as int + 1, 0);
            }
        },
        Instr::LoadRegs(x) => {
            if !(m.index + x + 1 > 4096) {
                lemma_load_regs_pointwise(m.vx, m.mem, m.index, x as int + 1, 0);
            }
        },
        _ => {},
    }
}

/// Some bit among the first `bits` of the sprite byte lands on cell `q`.
spec fn covered(byte: u8, x0: u8, yrow: int, bits: int, q: int) -> bool {
    exists|i: int| 0 <= i < bits && sprite_bit(byte, i) && pixel_of(x0, yrow, i) == q
}

/// Two different bits of one sprite row land on two different columns.
proof fn lemma_cols_distinct(x0: u8, i: u8, j: u8)
    by (bit_vector)
    requires
        i < 8,
        j < 8,
        i != j,
    ensures
        (x0 + i) % 64 != (x0 + j) % 64,
{
}

/// Cell by cell, drawing one sprite row XORs exactly the cells its set bits
/// land on and leaves every other cell alone.
proof fn lemma_draw_bits_pointwise(
    s: Seq<bool>,
    vf: bool,
    byte: u8,
    x0: u8,
    yrow: int,
    bits: int,
    q: int,
)
    requires
        s.len() == 2048,
        0 <= yrow < 32,
        0 <= bits <= 8,
        0 <= q < 2048,
    ensures
        draw_bits(s, vf, byte, x0, yrow, bits).0.len() == 2048,
        draw_bits(s, vf, byte, x0, yrow, bits).0[q] == (if covered(byte, x0, yrow, bits, q) {
            !s[q]
        } else {
            s[q]
        }),
    decreases bits,
{
    if bits == 0 {
        assert(!covered(byte, x0, yrow, 0, q));
    } else {
        lemma_draw_bits_pointwise(s, vf, byte, x0, yrow, bits - 1, q);
        let prev = draw_bits(s, vf, byte, x0, yrow, bits - 1);
        let xoff = bits - 1;
        if sprite_bit(byte, xoff) {
            let p = pixel_of(x0, yrow, xoff);
            assert(0 <= p < 2048);
            if p == q {
                if covered(byte, x0, yrow, bits - 1, q) {
                    let i = choose|i: int|
                        0 <= i < bits - 1 && sprite_bit(byte, i) && pixel_of(x0, yrow, i) == q;
                    lemma_cols_distinct(x0, i as u8, xoff as u8);
                    assert(false);
                }
                assert(covered(byte, x0, yrow, bits, q));
            } else {
                if covered(byte, x0, yrow, bits, q) {
                    let i = choose|i: int|
                        0 <= i < bits && sprite_bit(byte, i) && pixel_of(x0, yrow, i) == q;
                    assert(i != xoff);
                    assert(covered(byte, x0, yrow, bits - 1, q));
                }
                if covered(byte, x0, yrow, bits - 1, q) {
                    let i = choose|i: int|
                        0 <= i < bits - 1 && sprite_bit(byte, i) && pixel_of(x0, yrow, i) == q;
                    assert(0 <= i < bits && sprite_bit(byte, i) && pixel_of(x0, yrow, i) == q);
                    assert(covered(byte, x0, yrow, bits, q));
                }
            }
        } else {
            if covered(byte, x0, yrow, bits, q) {
                let i = choose|i: int|
                    0 <= i < bits && sprite_bit(byte, i) && pixel_of(x0, yrow, i) == q;
                assert(i != xoff);
                assert(covered(byte, x0, yrow, bits - 1, q));
            }
            if covered(byte, x0, yrow, bits - 1, q) {
                let i = choose|i: int|
                    0 <= i < bits - 1 && sprite_bit(byte, i) && pixel_of(x0, yrow, i) == q;
                assert(0 <= i < bits && sprite_bit(byte, i) && pixel_of(x0, yrow, i) == q);
                assert(covered(byte, x0, yrow, bits, q));
            }
        }
    }
}

/// Drawing one sprite row reports a collision exactly when some set bit of
/// it lands on a cell that was already on — or when one was carried in.
proof fn lemma_draw_bits_vf(s: Seq<bool>, vf: bool, byte: u8, x0: u8, yrow: int, bits: int)
    requires
        s.len() == 2048,
        0 <= yrow < 32,
        0 <= bits <= 8,
    ensures
        draw_bits(s, vf, byte, x0, yrow, bits).1 == (vf || exists|i: int|
            0 <= i < bits && sprite_bit(byte, i) && s[pixel_of(x0, yrow, i)]),
    decreases bits,
{
    if bits == 0 {
    } else {
        lemma_draw_bits_vf(s, vf, byte, x0, yrow, bits - 1);
        let xoff = bits - 1;
        let prev = draw_bits(s, vf, byte, x0, yrow, bits - 1);
        let e_prev = (exists|i: int|
            0 <= i < bits - 1 && sprite_bit(byte, i) && s[pixel_of(x0, yrow, i)]);
        let e_cur = (exists|i: int|
            0 <= i < bits && sprite_bit(byte, i) && s[pixel_of(x0, yrow, i)]);
        if e_prev {
            let i = choose|i: int|
                0 <= i < bits - 1 && sprite_bit(byte, i) && s[pixel_of(x0, yrow, i)];
            assert(0 <= i < bits && sprite_bit(byte, i) && s[pixel_of(x0, yrow, i)]);
            assert(e_cur);
        }
        if sprite_bit(byte, xoff) {
            let p = pixel_of(x0, yrow, xoff);
            assert(0 <= p < 2048);
            lemma_draw_bits_pointwise(s, vf, byte, x0, yrow, bits - 1, p);
            if covered(byte, x0, yrow, bits - 1, p) {
                let i = choose|i: int|
                    0 <= i < bits - 1 && sprite_bit(byte, i) && pixel_of(x0, yrow, i) == p;
                lemma_cols_distinct(x0, i as u8, xoff as u8);
                assert(false);
            }
            assert(prev.0[p] == s[p]);
            if s[p] {
                assert(0 <= xoff < bits && sprite_bit(byte, xoff) && s[pixel_of(x0, yrow, xoff)]);
                assert(e_cur);
            }
            if e_cur && !e_prev && !s[p] {
                let i = choose|i: int|
                    0 <= i < bits && sprite_bit(byte, i) && s[pixel_of(x0, yrow, i)];
                assert(i == xoff);
                assert(false);
            }
        } else {
            if e_cur {
                let i = choose|i: int|
                    0 <= i < bits && sprite_bit(byte, i) && s[pixel_of(x0, yrow, i)];
                assert(i != xoff);
                assert(e_prev);
            }
        }
    }
}

/// A nonzero sprite byte has at least one set bit.
proof fn lemma_byte_has_bit(b: u8)
    requires
        b != 0,
    ensures
        exists|i: int| 0 <= i < 8 && sprite_bit(b, i),
{
    assert((b >> 7u8) & 1 == 1 || (b >> 6u8) & 1 == 1 || (b >> 5u8) & 1 == 1 || (b >> 4u8) & 1 == 1
        || (b >> 3u8) & 1 == 1 || (b >> 2u8) & 1 == 1 || (b >> 1u8) & 1 == 1 || (b >> 0u8) & 1
        == 1) by (bit_vector)
        requires
            b != 0,
    ;
    if (b >> 7u8) & 1 == 1 {
        assert(sprite_bit(b, 0));
    } else if (b >> 6u8) & 1 == 1 {
        assert(sprite_bit(b, 1));
    } else if (b >> 5u8) & 1 == 1 {
        assert(sprite_bit(b, 2));
    } else if (b >> 4u8) & 1 == 1 {
        assert(sprite_bit(b, 3));
    } else if (b >> 3u8) & 1 == 1 {
        assert(sprite_bit(b, 4));
    } else if (b >> 2u8) & 1 == 1 {
        assert(sprite_bit(b, 5));
    } else if (b >> 1u8) & 1 == 1 {
        assert(sprite_bit(b, 6));
    } else {
        assert(sprite_bit(b, 7));
    }
}

/// Draw collision and XOR undo: drawing a nonzero single-row sprite on a
/// cleared screen reports no collision; drawing the very same sprite at the
/// same coordinates once more erases it — the screen is cleared again — and
/// reports a collision.
pub proof fn lemma_draw_twice_single_row(mem: Seq<u8>, index: u16, vx: u8, vy: u8)
    requires
        mem.len() == 4096,
        index < 4096,
        mem[index as int] != 0,
    ensures
        ({
            let first = draw_rows(blank_screen(), false, mem, index, vx, vy, 1);
            let second = draw_rows(first.0, false, mem, index, vx, vy, 1);
            !first.1 && second.0 == blank_screen() && second.1
        }),
{
    let b = mem[index as int];
    let yrow = (vy as int + 0) % 32;
    let s0 = blank_screen();
    assert(draw_rows(s0, false, mem, index, vx, vy, 0) == (s0, false));
    let first = draw_rows(s0, false, mem, index, vx, vy, 1);
    assert(first == draw_bits(s0, false, b, vx, yrow, 8));
    assert(draw_rows(first.0, false, mem, index, vx, vy, 0) == (first.0, false));
    let second = draw_rows(first.0, false, mem, index, vx, vy, 1);
    assert(second == draw_bits(first.0, false, b, vx, yrow, 8));
    // the first draw meets only dark cells
    lemma_draw_bits_vf(s0, false, b, vx, yrow, 8);
    assert forall|i: int| 0 <= i < 8 implies !s0[pixel_of(vx, yrow, i)] by {
        assert(0 <= pixel_of(vx, yrow, i) < 2048);
    }
    assert(!first.1);
    // the second draw toggles exactly the same cells back
    lemma_draw_bits_pointwise(s0, false, b, vx, yrow, 8, 0);
    lemma_draw_bits_pointwise(first.0, false, b, vx, yrow, 8, 0);
    assert forall|q: int| 0 <= q < 2048 implies !second.0[q] by {
        lemma_draw_bits_pointwise(s0, false, b, vx, yrow, 8, q);
        lemma_draw_bits_pointwise(first.0, false, b, vx, yrow, 8, q);
    }
    assert(second.0 =~= blank_screen());
    // and meets at least one lit cell
    lemma_draw_bits_vf(first.0, false, b, vx, yrow, 8);
    lemma_byte_has_bit(b);
    let i0 = choose|i: int| 0 <= i < 8 && sprite_bit(b, i);
    let p0 = pixel_of(vx, yrow, i0);
    assert(0 <= p0 < 2048);
    lemma_draw_bits_pointwise(s0, false, b, vx, yrow, 8, p0);
    assert(covered(b, vx, yrow, 8, p0));
    assert(first.0[p0]);
    assert(0 <= i0 < 8 && sprite_bit(b, i0) && first.0[pixel_of(vx, yrow, i0)]);
    assert(second.1);
}

/// Setting a register from an immediate: for every register `x` and every
/// immediate `nn`, the instruction `6XNN` sets register `x` to exactly `nn`,
/// leaves everything else alone, and advances the program counter by two.
pub proof fn lemma_set_register(m: Machine, x: u8, nn: u8, r: u8)
    requires
        m.wf(),
        x < 16,
    ensures
        ({
            let ins = (0x6000u16 | ((x as u16) << 8u16)) | (nn as u16);
            let m2 = Machine { vx: m.vx.update(x as int, nn), pc: (m.pc + 2) as u16, ..m };
            spec_step(m, ins, r) == Ok::<Machine, Chip8Error>(m2) && m2.vx[x as int] == nn && (
            m.pc < 4095 ==> m2.pc == m.pc + 2)
        }),
{
    let ins = (0x6000u16 | ((x as u16) << 8u16)) | (nn as u16);
    assert(ins != 0x00E0 && ins != 0x00EE && (ins >> 12) & 0xF == 0x6 && ((ins >> 8) & 0xF) as u8
        == x && (ins & 0xFF) as u8 == nn) by (bit_vector)
        requires
            ins == (0x6000u16 | ((x as u16) << 8u16)) | (nn as u16),
            x < 16,
    ;
    assert(spec_decode(ins) == Instr::SetImm(x, nn));
}

/// What one register write of a dump looks like from outside: byte `j` of
/// the dumped range holds register `j`, and bytes outside the range keep
/// their old value.
proof fn lemma_store_regs_pointwise(mem: Seq<u8>, vx: Seq<u8>, index: u16, count: int, q: int)
    requires
        mem.len() == 4096,
        0 <= count <= 16,
        index + count <= 4096,
        0 <= q < 4096,
    ensures
        store_regs(mem, vx, index, count).len() == 4096,
        index <= q < index + count ==> store_regs(mem, vx, index, count)[q] == vx[q - index],
        !(index <= q < index + count) ==> store_regs(mem, vx, index, count)[q] == mem[q],
    decreases count,
{
    if count > 0 {
        lemma_store_regs_pointwise(mem, vx, index, count - 1, q);
    }
}

/// What one register of a load looks like: register `j` becomes byte `j` of
/// the read range, and registers past the range keep their old value.
proof fn lemma_load_regs_pointwise(vx: Seq<u8>, mem: Seq<u8>, index: u16, count: int, j: int)
    requires
        vx.len() == 16,
        0 <= count <= 16,
        0 <= j < 16,
    ensures
        load_regs(vx, mem, index, count).len() == 16,
        0 <= j < count ==> load_regs(vx, mem, index, count)[j] == mem[index + j],
        count <= j < 16 ==> load_regs(vx, mem, index, count)[j] == vx[j],
    decreases count,
{
    if count > 0 {
        lemma_load_regs_pointwise(vx, mem, index, count - 1, j);
    }
}

/// Register dump/load round trip: `FX55` at some index writes registers 0 to
/// `x` to memory and advances the index past them; a later `FX65` (here both
/// with x = 3) from the same index restores exactly those registers — no
/// matter what the registers held in between — and advances the index by the
/// same amount. `mid` stands for the machine between the two instructions:
/// same memory and index as after the dump (index moved back), any register
/// file, any program counter.
pub proof fn lemma_dump_load_round_trip(m: Machine, mid: Machine, r: u8, r2: u8)
    requires
        m.wf(),
        mid.wf(),
        m.index + 4 <= 4096,
        mid.mem == store_regs(m.mem, m.vx, m.index, 4),
        mid.index == m.index,
    ensures
        spec_step(m, 0xF355, r) == Ok::<Machine, Chip8Error>(
            Machine {
                mem: store_regs(m.mem, m.vx, m.index, 4),
                index: (m.index + 4) as u16,
                pc: (m.pc + 2) as u16,
                ..m
            },
        ),
        spec_step(mid, 0xF365, r2) == Ok::<Machine, Chip8Error>(
            Machine {
                vx: load_regs(mid.vx, mid.mem, mid.index, 4),
                index: (mid.index + 4) as u16,
                pc: (mid.pc + 2) as u16,
                ..mid
            },
        ),
        forall|j: int| 0 <= j < 4 ==> load_regs(mid.vx, mid.mem, mid.index, 4)[j] == m.vx[j],
        forall|j: int| 4 <= j < 16 ==> load_regs(mid.vx, mid.mem, mid.index, 4)[j] == mid.vx[j],
{
    assert((0xF355u16 >> 12) & 0xF == 0xF && (0xF355u16 & 0xFF) as u8 == 0x55 && ((0xF355u16 >> 8)
        & 0xF) as u8 == 3 && 0xF355u16 != 0x00E0 && 0xF355u16 != 0x00EE) by (bit_vector);
    assert((0xF365u16 >> 12) & 0xF == 0xF && (0xF365u16 & 0xFF) as u8 == 0x65 && ((0xF365u16 >> 8)
        & 0xF) as u8 == 3 && 0xF365u16 != 0x00E0 && 0xF365u16 != 0x00EE) by (bit_vector);
    assert(spec_decode(0xF355) == Instr::StoreRegs(3));
    assert(spec_decode(0xF365) == Instr::LoadRegs(3));
    assert forall|j: int| 0 <= j < 4 implies load_regs(mid.vx, mid.mem, mid.index, 4)[j]
        == m.vx[j] by {
        lemma_load_regs_pointwise(mid.vx, mid.mem, mid.index, 4, j);
        lemma_store_regs_pointwise(m.mem, m.vx, m.index, 4, m.index + j);
    }
    assert forall|j: int| 4 <= j < 16 implies load_regs(mid.vx, mid.mem, mid.index, 4)[j]
        == mid.vx[j] by {
        lemma_load_regs_pointwise(mid.vx, mid.mem, mid.index, 4, j);
    }
}

} // verus!
