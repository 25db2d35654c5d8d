use vstd::prelude::*;

use crate::Chip8Error;
use crate::display::blank_screen;
use crate::keypad::first_key_from;

verus! {

/// Lowest address of the built-in glyph table.
pub const FONT_START: u16 = 0x50;

/// Address at which a program image is placed and execution begins.
pub const PROGRAM_START: u16 = 0x200;

/// One decoded instruction. Field order follows the encoding: register
/// selectors `x` and `y` (4 bits each), an immediate `nn` (8 bits), a sprite
/// height `n` (4 bits), or an address `nnn` (12 bits).
#[derive(Clone, Copy, Debug, PartialEq, Eq, Structural)]
pub enum Instr {
    /// 00E0
    ClearScreen,
    /// 00EE
    Return,
    /// 1NNN
    Jump(u16),
    /// 2NNN
    Call(u16),
    /// 3XNN
    SkipEqImm(u8, u8),
    /// 4XNN
    SkipNeImm(u8, u8),
    /// 5XY0
    SkipEqReg(u8, u8),
    /// 6XNN
    SetImm(u8, u8),
    /// 7XNN
    AddImm(u8, u8),
    /// 8XY0
    CopyReg(u8, u8),
    /// 8XY1
    OrReg(u8, u8),
    /// 8XY2
    AndReg(u8, u8),
    /// 8XY3
    XorReg(u8, u8),
    /// 8XY4
    AddReg(u8, u8),
    /// 8XY5
    SubReg(u8, u8),
    /// 8XY6; shifts `vx` itself, `vy` plays no part (a documented quirk)
    ShiftRight(u8),
    /// 8XY7
    SubFromReg(u8, u8),
    /// 8XYE; shifts `vx` itself, `vy` plays no part (a documented quirk)
    ShiftLeft(u8),
    /// 9XY0
    SkipNeReg(u8, u8),
    /// ANNN
    SetIndex(u16),
    /// BNNN
    JumpOffset(u16),
    /// CXNN
    Random(u8, u8),
    /// DXYN
    Draw(u8, u8, u8),
    /// EX9E
    SkipKeyPressed(u8),
    /// EXA1
    SkipKeyNotPressed(u8),
    /// FX07
    ReadDelay(u8),
    /// FX0A
    WaitKey(u8),
    /// FX15
    SetDelay(u8),
    /// FX18
    SetSound(u8),
    /// FX1E
    AddIndex(u8),
    /// FX29
    FontIndex(u8),
    /// FX33
    StoreBcd(u8),
    /// FX55
    StoreRegs(u8),
    /// FX65
    LoadRegs(u8),
    /// anything else
    Unknown,
}

/// What a 16-bit instruction word decodes to.
pub open spec fn spec_decode(ins: u16) -> Instr {
    let op = (ins >> 12) & 0xF;
    let x = ((ins >> 8) & 0xF) as u8;
    let y = ((ins >> 4) & 0xF) as u8;
    let n = (ins & 0xF) as u8;
    let nn = (ins & 0xFF) as u8;
    let nnn = ins & 0xFFF;
    if ins == 0x00E0 {
        Instr::ClearScreen
    } else if ins == 0x00EE {
        Instr::Return
    } else if op == 0x1 {
        Instr::Jump(nnn)
    } else if op == 0x2 {
        Instr::Call(nnn)
    } else if op == 0x3 {
        Instr::SkipEqImm(x, nn)
    } else if op == 0x4 {
        Instr::SkipNeImm(x, nn)
    } else if op == 0x5 && n == 0x0 {
        Instr::SkipEqReg(x, y)
    } else if op == 0x6 {
        Instr::SetImm(x, nn)
    } else if op == 0x7 {
        Instr::AddImm(x, nn)
    } else if op == 0x8 && n == 0x0 {
        Instr::CopyReg(x, y)
    } else if op == 0x8 && n == 0x1 {
        Instr::OrReg(x, y)
    } else if op == 0x8 && n == 0x2 {
        Instr::AndReg(x, y)
    } else if op == 0x8 && n == 0x3 {
        Instr::XorReg(x, y)
    } else if op == 0x8 && n == 0x4 {
        Instr::AddReg(x, y)
    } else if op == 0x8 && n == 0x5 {
        Instr::SubReg(x, y)
    } else if op == 0x8 && n == 0x6 {
        Instr::ShiftRight(x)
    } else if op == 0x8 && n == 0x7 {
        Instr::SubFromReg(x, y)
    } else if op == 0x8 && n == 0xE {
        Instr::ShiftLeft(x)
    } else if op == 0x9 && n == 0x0 {
        Instr::SkipNeReg(x, y)
    } else if op == 0xA {
        Instr::SetIndex(nnn)
    } else if op == 0xB {
        Instr::JumpOffset(nnn)
    } else if op == 0xC {
        Instr::Random(x, nn)
    } else if op == 0xD {
        Instr::Draw(x, y, n)
    } else if op == 0xE && nn == 0x9E {
        Instr::SkipKeyPressed(x)
    } else if op == 0xE && nn == 0xA1 {
        Instr::SkipKeyNotPressed(x)
    } else if op == 0xF && nn == 0x07 {
        Instr::ReadDelay(x)
    } else if op == 0xF && nn == 0x0A {
        Instr::WaitKey(x)
    } else if op == 0xF && nn == 0x15 {
        Instr::SetDelay(x)
    } else if op == 0xF && nn == 0x18 {
        Instr::SetSound(x)
    } else if op == 0xF && nn == 0x1E {
        Instr::AddIndex(x)
    } else if op == 0xF && nn == 0x29 {
        Instr::FontIndex(x)
    } else if op == 0xF && nn == 0x33 {
        Instr::StoreBcd(x)
    } else if op == 0xF && nn == 0x55 {
        Instr::StoreRegs(x)
    } else if op == 0xF && nn == 0x65 {
        Instr::LoadRegs(x)
    } else {
        Instr::Unknown
    }
}

/// Every field a decoded instruction carries lies within its bit width.
pub open spec fn instr_wf(i: Instr) -> bool {
    match i {
        Instr::ClearScreen => true,
        Instr::Return => true,
        Instr::Jump(nnn) => nnn < 4096,
        Instr::Call(nnn) => nnn < 4096,
        Instr::SkipEqImm(x, _nn) => x < 16,
        Instr::SkipNeImm(x, _nn) => x < 16,
        Instr::SkipEqReg(x, y) => x < 16 && y < 16,
        Instr::SetImm(x, _nn) => x < 16,
        Instr::AddImm(x, _nn) => x < 16,
        Instr::CopyReg(x, y) => x < 16 && y < 16,
        Instr::OrReg(x, y) => x < 16 && y < 16,
        Instr::AndReg(x, y) => x < 16 && y < 16,
        Instr::XorReg(x, y) => x < 16 && y < 16,
        Instr::AddReg(x, y) => x < 16 && y < 16,
        Instr::SubReg(x, y) => x < 16 && y < 16,
        Instr::ShiftRight(x) => x < 16,
        Instr::SubFromReg(x, y) => x < 16 && y < 16,
        Instr::ShiftLeft(x) => x < 16,
        Instr::SkipNeReg(x, y) => x < 16 && y < 16,
        Instr::SetIndex(nnn) => nnn < 4096,
        Instr::JumpOffset(nnn) => nnn < 4096,
        Instr::Random(x, _nn) => x < 16,
        Instr::Draw(x, y, n) => x < 16 && y < 16 && n < 16,
        Instr::SkipKeyPressed(x) => x < 16,
        Instr::SkipKeyNotPressed(x) => x < 16,
        Instr::ReadDelay(x) => x < 16,
        Instr::WaitKey(x) => x < 16,
        Instr::SetDelay(x) => x < 16,
        Instr::SetSound(x) => x < 16,
        Instr::AddIndex(x) => x < 16,
        Instr::FontIndex(x) => x < 16,
        Instr::StoreBcd(x) => x < 16,
        Instr::StoreRegs(x) => x < 16,
        Instr::LoadRegs(x) => x < 16,
        Instr::Unknown => true,
    }
}

/// Splits an instruction word into its fields and picks the operation, as
/// `spec_decode` describes.
pub fn decode(ins: u16) -> (r: Instr)
    ensures
        r == spec_decode(ins),
        instr_wf(r),
{
    proof {
        assert((ins >> 12) & 0xF < 16 && ((ins >> 8) & 0xF) < 16 && ((ins >> 4) & 0xF) < 16
            && (ins & 0xF) < 16 && (ins & 0xFF) < 256 && (ins & 0xFFF) < 4096) by (bit_vector);
    }
    let op = (ins >> 12) & 0xF;
    let x = ((ins >> 8) & 0xF) as u8;
    let y = ((ins >> 4) & 0xF) as u8;
    let n = (ins & 0xF) as u8;
    let nn = (ins & 0xFF) as u8;
    let nnn = ins & 0xFFF;
    if ins == 0x00E0 {
        Instr::ClearScreen
    } else if ins == 0x00EE {
        Instr::Return
    } else if op == 0x1 {
        Instr::Jump(nnn)
    } else if op == 0x2 {
        Instr::Call(nnn)
    } else if op == 0x3 {
        Instr::SkipEqImm(x, nn)
    } else if op == 0x4 {
        Instr::SkipNeImm(x, nn)
    } else if op == 0x5 && n == 0x0 {
        Instr::SkipEqReg(x, y)
    } else if op == 0x6 {
        Instr::SetImm(x, nn)
    } else if op == 0x7 {
        Instr::AddImm(x, nn)
    } else if op == 0x8 && n == 0x0 {
        Instr::CopyReg(x, y)
    } else if op == 0x8 && n == 0x1 {
        Instr::OrReg(x, y)
    } else if op == 0x8 && n == 0x2 {
        Instr::AndReg(x, y)
    } else if op == 0x8 && n == 0x3 {
        Instr::XorReg(x, y)
    } else if op == 0x8 && n == 0x4 {
        Instr::AddReg(x, y)
    } else if op == 0x8 && n == 0x5 {
        Instr::SubReg(x, y)
    } else if op == 0x8 && n == 0x6 {
        Instr::ShiftRight(x)
    } else if op == 0x8 && n == 0x7 {
        Instr::SubFromReg(x, y)
    } else if op == 0x8 && n == 0xE {
        Instr::ShiftLeft(x)
    } else if op == 0x9 && n == 0x0 {
        Instr::SkipNeReg(x, y)
    } else if op == 0xA {
        Instr::SetIndex(nnn)
    } else if op == 0xB {
        Instr::JumpOffset(nnn)
    } else if op == 0xC {
        Instr::Random(x, nn)
    } else if op == 0xD {
        Instr::Draw(x, y, n)
    } else if op == 0xE && nn == 0x9E {
        Instr::SkipKeyPressed(x)
    } else if op == 0xE && nn == 0xA1 {
        Instr::SkipKeyNotPressed(x)
    } else if op == 0xF && nn == 0x07 {
        Instr::ReadDelay(x)
    } else if op == 0xF && nn == 0x0A {
        Instr::WaitKey(x)
    } else if op == 0xF && nn == 0x15 {
        Instr::SetDelay(x)
    } else if op == 0xF && nn == 0x18 {
        Instr::SetSound(x)
    } else if op == 0xF && nn == 0x1E {
        Instr::AddIndex(x)
    } else if op == 0xF && nn == 0x29 {
        Instr::FontIndex(x)
    } else if op == 0xF && nn == 0x33 {
        Instr::StoreBcd(x)
    } else if op == 0xF && nn == 0x55 {
        Instr::StoreRegs(x)
    } else if op == 0xF && nn == 0x65 {
        Instr::LoadRegs(x)
    } else {
        Instr::Unknown
    }
}

/// The whole machine state, as the contracts speak of it: register file,
/// index register, program counter, return stack with its pointer, the two
/// timers, memory, screen and key vector.
#[verifier::ext_equal]
pub struct Machine {
    pub vx: Seq<u8>,
    pub index: u16,
    pub pc: u16,
    pub stack: Seq<u16>,
    pub sp: u16,
    pub st: u8,
    pub dt: u8,
    pub mem: Seq<u8>,
    pub screen: Seq<bool>,
    pub keys: Seq<bool>,
}

impl Machine {
    /// The sizes every live machine keeps: 16 registers, a 16-entry return
    /// stack with its pointer in range, 4096 memory bytes, 2048 pixels and
    /// 16 keys.
    pub open spec fn wf(self) -> bool {
        self.vx.len() == 16 && self.stack.len() == 16 && self.sp <= 16 && self.mem.len() == 4096
            && self.screen.len() == 2048 && self.keys.len() == 16
    }
}

/// Eight-bit addition that wraps around.
pub open spec fn wrap_add8(a: u8, b: u8) -> u8 {
    ((a + b) % 256) as u8
}

/// Eight-bit subtraction that wraps around.
pub open spec fn wrap_sub8(a: u8, b: u8) -> u8 {
    if b <= a {
        (a - b) as u8
    } else {
        (a - b + 256) as u8
    }
}

/// Whether sprite byte `byte` has the bit for column offset `xoff` set; the
/// most significant bit stands for offset 0.
pub open spec fn sprite_bit(byte: u8, xoff: int) -> bool {
    (byte >> ((7 - xoff) as u8)) & 1 == 1
}

/// Screen cell of column offset `xoff` from base column `x0`, on the (already
/// wrapped) row `yrow`; columns wrap at 64.
pub open spec fn pixel_of(x0: u8, yrow: int, xoff: int) -> int {
    yrow * 64 + ((x0 + xoff) % 64)
}

/// Screen and collision flag after XOR-drawing the first `bits` bits of one
/// sprite byte onto row `yrow`, starting from screen `s` and
/// collision-so-far `vf`. A toggled cell that was set before the toggle
/// raises the collision flag; nothing ever lowers it.
pub open spec fn draw_bits(s: Seq<bool>, vf: bool, byte: u8, x0: u8, yrow: int, bits: int) -> (Seq<
    bool,
>, bool)
    decreases bits,
{
    if bits <= 0 {
        (s, vf)
    } else {
        let prev = draw_bits(s, vf, byte, x0, yrow, bits - 1);
        let xoff = bits - 1;
        if sprite_bit(byte, xoff) {
            let p = pixel_of(x0, yrow, xoff);
            (prev.0.update(p, !prev.0[p]), prev.1 || prev.0[p])
        } else {
            prev
        }
    }
}

/// Screen and collision flag after XOR-drawing the first `rows` rows of a
/// sprite read from memory at `index`, at base column `vx` and base row `vy`.
/// Rows wrap at 32.
pub open spec fn draw_rows(
    s: Seq<bool>,
    vf: bool,
    mem: Seq<u8>,
    index: u16,
    vx: u8,
    vy: u8,
    rows: int,
) -> (Seq<bool>, bool)
    decreases rows,
{
    if rows <= 0 {
        (s, vf)
    } else {
        let prev = draw_rows(s, vf, mem, index, vx, vy, rows - 1);
        let yoff = rows - 1;
        draw_bits(prev.0, prev.1, mem[index + yoff], vx, (vy + yoff) % 32, 8)
    }
}

/// Memory after writing registers 0 up to `count - 1` to consecutive bytes
/// starting at `index`.
pub open spec fn store_regs(mem: Seq<u8>, vx: Seq<u8>, index: u16, count: int) -> Seq<u8>
    decreases count,
{
    if count <= 0 {
        mem
    } else {
        store_regs(mem, vx, index, count - 1).update(index + count - 1, vx[count - 1])
    }
}

/// Register file after filling registers 0 up to `count - 1` from
/// consecutive memory bytes starting at `index`.
pub open spec fn load_regs(vx: Seq<u8>, mem: Seq<u8>, index: u16, count: int) -> Seq<u8>
    decreases count,
{
    if count <= 0 {
        vx
    } else {
        load_regs(vx, mem, index, count - 1).update(count - 1, mem[index + count - 1])
    }
}

/// The big-endian instruction word at address `pc`.
pub open spec fn spec_fetch(mem: Seq<u8>, pc: u16) -> u16 {
    ((mem[pc as int] as u16) << 8) | (mem[pc as int + 1] as u16)
}

/// What one tick does to the machine once the instruction word `ins` has
/// been fetched: either the follow-on state, or the fatal error. `r` stands
/// for the byte the random source produced; only `CXNN` looks at it. Errors
/// leave the machine as it was — they are fatal, so nothing may be half
/// done. Bounds are checked before any effect takes place.
pub open spec fn spec_step(m: Machine, ins: u16, r: u8) -> Result<Machine, Chip8Error> {
    match spec_decode(ins) {
        Instr::ClearScreen => Ok(
            Machine { screen: blank_screen(), pc: (m.pc + 2) as u16, ..m },
        ),
        Instr::Return => if m.sp == 0 {
            Err(Chip8Error::StackUnderflow)
        } else {
            Ok(Machine { sp: (m.sp - 1) as u16, pc: m.stack[m.sp - 1], ..m })
        },
        Instr::Jump(nnn) => Ok(Machine { pc: nnn, ..m }),
        Instr::Call(nnn) => if m.sp >= 16 {
            Err(Chip8Error::StackOverflow)
        } else {
            Ok(
                Machine {
                    stack: m.stack.update(m.sp as int, (m.pc + 2) as u16),
                    sp: (m.sp + 1) as u16,
                    pc: nnn,
                    ..m
                },
            )
        },
        Instr::SkipEqImm(x, nn) => Ok(
            Machine {
                pc: if m.vx[x as int] == nn {
                    (m.pc + 4) as u16
                } else {
                    (m.pc + 2) as u16
                },
                ..m
            },
        ),
        Instr::SkipNeImm(x, nn) => Ok(
            Machine {
                pc: if m.vx[x as int] != nn {
                    (m.pc + 4) as u16
                } else {
                    (m.pc + 2) as u16
                },
                ..m
            },
        ),
        Instr::SkipEqReg(x, y) => Ok(
            Machine {
                pc: if m.vx[x as int] == m.vx[y as int] {
                    (m.pc + 4) as u16
                } else {
                    (m.pc + 2) as u16
                },
                ..m
            },
        ),
        Instr::SetImm(x, nn) => Ok(
            Machine { vx: m.vx.update(x as int, nn), pc: (m.pc + 2) as u16, ..m },
        ),
        Instr::AddImm(x, nn) => Ok(
            Machine {
                vx: m.vx.update(x as int, wrap_add8(m.vx[x as int], nn)),
                pc: (m.pc + 2) as u16,
                ..m
            },
        ),
        Instr::CopyReg(x, y) => Ok(
            Machine { vx: m.vx.update(x as int, m.vx[y as int]), pc: (m.pc + 2) as u16, ..m },
        ),
        Instr::OrReg(x, y) => Ok(
            Machine {
                vx: m.vx.update(x as int, m.vx[x as int] | m.vx[y as int]),
                pc: (m.pc + 2) as u16,
                ..m
            },
        ),
        Instr::AndReg(x, y) => Ok(
            Machine {
                vx: m.vx.update(x as int, m.vx[x as int] & m.vx[y as int]),
                pc: (m.pc + 2) as u16,
                ..m
            },
        ),
        Instr::XorReg(x, y) => Ok(
            Machine {
                vx: m.vx.update(x as int, m.vx[x as int] ^ m.vx[y as int]),
                pc: (m.pc + 2) as u16,
                ..m
            },
        ),
        Instr::AddReg(x, y) => Ok(
            Machine {
                vx: m.vx.update(x as int, wrap_add8(m.vx[x as int], m.vx[y as int])).update(
                    15,
                    if m.vx[x as int] + m.vx[y as int] > 255 {
                        1u8
                    } else {
                        0u8
                    },
                ),
                pc: (m.pc + 2) as u16,
                ..m
            },
        ),
        Instr::SubReg(x, y) => Ok(
            Machine {
                vx: m.vx.update(x as int, wrap_sub8(m.vx[x as int], m.vx[y as int])).update(
                    15,
                    if m.vx[x as int] >= m.vx[y as int] {
                        1u8
                    } else {
                        0u8
                    },
                ),
                pc: (m.pc + 2) as u16,
                ..m
            },
        ),
        Instr::ShiftRight(x) => Ok(
            Machine {
                vx: m.vx.update(x as int, m.vx[x as int] >> 1u8).update(
                    15,
                    m.vx[x as int] & 1,
                ),
                pc: (m.pc + 2) as u16,
                ..m
            },
        ),
        Instr::SubFromReg(x, y) => Ok(
            Machine {
                vx: m.vx.update(x as int, wrap_sub8(m.vx[y as int], m.vx[x as int])).update(
                    15,
                    if m.vx[y as int] >= m.vx[x as int] {
                        1u8
                    } else {
                        0u8
                    },
                ),
                pc: (m.pc + 2) as u16,
                ..m
            },
        ),
        Instr::ShiftLeft(x) => Ok(
            Machine {
                vx: m.vx.update(x as int, m.vx[x as int] << 1u8).update(
                    15,
                    (m.vx[x as int] & 0x80) >> 7u8,
                ),
                pc: (m.pc + 2) as u16,
                ..m
            },
        ),
        Instr::SkipNeReg(x, y) => Ok(
            Machine {
                pc: if m.vx[x as int] != m.vx[y as int] {
                    (m.pc + 4) as u16
                } else {
                    (m.pc + 2) as u16
                },
                ..m
            },
        ),
        Instr::SetIndex(nnn) => Ok(Machine { index: nnn, pc: (m.pc + 2) as u16, ..m }),
        Instr::JumpOffset(nnn) => Ok(Machine { pc: (nnn + m.vx[0]) as u16, ..m }),
        Instr::Random(x, nn) => Ok(
            Machine { vx: m.vx.update(x as int, r & nn), pc: (m.pc + 2) as u16, ..m },
        ),
        Instr::Draw(x, y, n) => if n > 0 && m.index + n > 4096 {
            Err(Chip8Error::AddressOutOfRange)
        } else {
            let d = draw_rows(
                m.screen,
                false,
                m.mem,
                m.index,
                m.vx[x as int],
                m.vx[y as int],
                n as int,
            );
            Ok(
                Machine {
                    screen: d.0,
                    vx: if d.1 {
                        m.vx.update(15, 1u8)
                    } else {
                        m.vx
                    },
                    pc: (m.pc + 2) as u16,
                    ..m
                },
            )
        },
        Instr::SkipKeyPressed(x) => if m.vx[x as int] >= 16 {
            Err(Chip8Error::KeyOutOfRange)
        } else {
            Ok(
                Machine {
                    pc: if m.keys[m.vx[x as int] as int] {
                        (m.pc + 4) as u16
                    } else {
                        (m.pc + 2) as u16
                    },
                    ..m
                },
            )
        },
        Instr::SkipKeyNotPressed(x) => if m.vx[x as int] >= 16 {
            Err(Chip8Error::KeyOutOfRange)
        } else {
            Ok(
                Machine {
                    pc: if !m.keys[m.vx[x as int] as int] {
                        (m.pc + 4) as u16
                    } else {
                        (m.pc + 2) as u16
                    },
                    ..m
                },
            )
        },
        Instr::ReadDelay(x) => Ok(
            Machine { vx: m.vx.update(x as int, m.dt), pc: (m.pc + 2) as u16, ..m },
        ),
        Instr::WaitKey(x) => match first_key_from(m.keys, 0) {
            Some(k) => Ok(
                Machine { vx: m.vx.update(x as int, k as u8), pc: (m.pc + 2) as u16, ..m },
            ),
            None => Ok(m),
        },
        Instr::SetDelay(x) => Ok(Machine { dt: m.vx[x as int], pc: (m.pc + 2) as u16, ..m }),
        Instr::SetSound(x) => Ok(Machine { st: m.vx[x as int], pc: (m.pc + 2) as u16, ..m }),
        Instr::AddIndex(x) => Ok(
            Machine {
                index: ((m.index + m.vx[x as int]) % 0x10000) as u16,
                pc: (m.pc + 2) as u16,
                ..m
            },
        ),
        Instr::FontIndex(x) => Ok(
            Machine {
                index: (FONT_START + m.vx[x as int] * 5) as u16,
                pc: (m.pc + 2) as u16,
                ..m
            },
        ),
        Instr::StoreBcd(x) => if m.index + 3 > 4096 {
            Err(Chip8Error::AddressOutOfRange)
        } else {
            Ok(
                Machine {
                    mem: m.mem.update(m.index as int, (m.vx[x as int] / 100) as u8).update(
                        m.index + 1,
                        ((m.vx[x as int] / 10) % 10) as u8,
                    ).update(m.index + 2, (m.vx[x as int] % 10) as u8),
                    pc: (m.pc + 2) as u16,
                    ..m
                },
            )
        },
        Instr::StoreRegs(x) => if m.index + x + 1 > 4096 {
            Err(Chip8Error::AddressOutOfRange)
        } else {
            Ok(
                Machine {
                    mem: store_regs(m.mem, m.vx, m.index, x + 1),
                    index: (m.index + x + 1) as u16,
                    pc: (m.pc + 2) as u16,
                    ..m
                },
            )
        },
        Instr::LoadRegs(x) => if m.index + x + 1 > 4096 {
            Err(Chip8Error::AddressOutOfRange)
        } else {
            Ok(
                Machine {
                    vx: load_regs(m.vx, m.mem, m.index, x + 1),
                    index: (m.index + x + 1) as u16,
                    pc: (m.pc + 2) as u16,
                    ..m
                },
            )
        },
        Instr::Unknown => Err(Chip8Error::UnknownInstruction),
    }
}

/// Relates one executed tick to the model: the machine went from `pre` to
/// `post` and returned `res`, under random byte `r`, exactly as `spec_step`
/// says; on an error nothing changed.
pub open spec fn step_obeys(
    pre: Machine,
    post: Machine,
    ins: u16,
    r: u8,
    res: Result<(), Chip8Error>,
) -> bool {
    match spec_step(pre, ins, r) {
        Ok(m) => res == Ok::<(), Chip8Error>(()) && post == m,
        Err(e) => res == Err::<(), Chip8Error>(e) && post == pre,
    }
}

} // verus!
