use vstd::prelude::*;

use crate::Chip8Error;
use crate::display::Display;
use crate::isa::{
    decode, draw_bits, draw_rows, load_regs, pixel_of, sprite_bit, step_obeys, store_regs, Instr,
    Machine, FONT_START, PROGRAM_START,
};
use crate::keypad::Keypad;
use crate::memory::Ram;
use crate::rng::random_byte;

verus! {

/// Register file, index register, program counter, return stack and the two
/// countdown timers. Pure state; the dispatcher below gives it behaviour.
pub struct Cpu {
    /// General-purpose registers v0 to vF; vF doubles as the flag register.
    pub vx: [u8; 16],
    /// Memory pointer.
    pub index: u16,
    /// Program counter.
    pub pc: u16,
    /// Return addresses of calls still open.
    pub stack: [u16; 16],
    /// Number of return addresses on the stack.
    pub sp: u16,
    /// Sound timer.
    pub st: u8,
    /// Delay timer.
    pub dt: u8,
}

/// The machine model that a CPU, screen, memory and keypad make up together.
pub open spec fn machine_of(cpu: Cpu, display: Display, ram: Ram, keypad: Keypad) -> Machine {
    Machine {
        vx: cpu.vx@,
        index: cpu.index,
        pc: cpu.pc,
        stack: cpu.stack@,
        sp: cpu.sp,
        st: cpu.st,
        dt: cpu.dt,
        mem: ram.memory@,
        screen: display.screen@,
        keys: keypad.keys@,
    }
}

impl Cpu {
    /// All registers, the stack and the timers cleared; execution starts at
    /// `PROGRAM_START`.
    pub fn new() -> (r: Cpu)
        ensures
            r.vx@ == Seq::new(16, |i: int| 0u8),
            r.index == 0,
            r.pc == PROGRAM_START,
            r.stack@ == Seq::new(16, |i: int| 0u16),
            r.sp == 0,
            r.st == 0,
            r.dt == 0,
    {
        let r = Cpu {
            vx: [0u8; 16],
            index: 0,
            pc: 0x200,
            stack: [0u16; 16],
            sp: 0,
            st: 0,
            dt: 0,
        };
        proof {
            assert(r.vx@ =~= Seq::new(16, |i: int| 0u8));
            assert(r.stack@ =~= Seq::new(16, |i: int| 0u16));
        }
        r
    }

    /// Executes one already-fetched instruction word: decodes it and applies
    /// its effect on registers, memory, screen and the keypad view, exactly
    /// as `spec_step` describes for some byte of the random source. On an
    /// error nothing is changed.
    pub fn run_instruction(
        &mut self,
        instruction: u16,
        display: &mut Display,
        ram: &mut Ram,
        keypad: &mut Keypad,
    ) -> (res: Result<(), Chip8Error>)
        requires
            old(self).pc < 4095,
            old(self).sp <= 16,
        ensures
            *final(keypad) == *old(keypad),
            exists|r: u8|
                step_obeys(
                    machine_of(*old(self), *old(display), *old(ram), *old(keypad)),
                    machine_of(*final(self), *final(display), *final(ram), *final(keypad)),
                    instruction,
                    r,
                    res,
                ),
    {
        let ghost pre = machine_of(*self, *display, *ram, *keypad);
        let instr = decode(instruction);
        match instr {
            Instr::ClearScreen => {
                display.reset();
                self.pc = self.pc + 2;
                proof {
                    let post = machine_of(*self, *display, *ram, *keypad);
                    assert(post =~= (Machine {
                        screen: crate::display::blank_screen(),
                        pc: (pre.pc + 2) as u16,
                        ..pre
                    }));
                    assert(step_obeys(pre, post, instruction, 0u8, Ok::<(), Chip8Error>(())));
                }
                Ok(())
            },
            Instr::Return => {
                if self.sp == 0 {
                    proof {
                        let post = machine_of(*self, *display, *ram, *keypad);
                        assert(post =~= pre);
                        assert(step_obeys(
                            pre,
                            post,
                            instruction,
                            0u8,
                            Err::<(), Chip8Error>(Chip8Error::StackUnderflow),
                        ));
                    }
                    Err(Chip8Error::StackUnderflow)
                } else {
                    self.sp = self.sp - 1;
                    self.pc = self.stack[self.sp as usize];
                    proof {
                        let post = machine_of(*self, *display, *ram, *keypad);
                        assert(post =~= (Machine {
                            sp: (pre.sp - 1) as u16,
                            pc: pre.stack[pre.sp - 1],
                            ..pre
                        }));
                        assert(step_obeys(pre, post, instruction, 0u8, Ok::<(), Chip8Error>(())));
                    }
                    Ok(())
                }
            },
            Instr::Jump(nnn) => {
                self.pc = nnn;
                proof {
                    let post = machine_of(*self, *display, *ram, *keypad);
                    assert(post =~= (Machine { pc: nnn, ..pre }));
                    assert(step_obeys(pre, post, instruction, 0u8, Ok::<(), Chip8Error>(())));
                }
                Ok(())
            },
            Instr::Call(nnn) => {
                if self.sp >= 16 {
                    proof {
                        let post = machine_of(*self, *display, *ram, *keypad);
                        assert(post =~= pre);
                        assert(step_obeys(
                            pre,
                            post,
                            instruction,
                            0u8,
                            Err::<(), Chip8Error>(Chip8Error::StackOverflow),
                        ));
                    }
                    Err(Chip8Error::StackOverflow)
                } else {
                    self.stack[self.sp as usize] = self.pc + 2;
                    self.sp = self.sp + 1;
                    self.pc = nnn;
                    proof {
                        let post = machine_of(*self, *display, *ram, *keypad);
                        assert(post =~= (Machine {
                            stack: pre.stack.update(pre.sp as int, (pre.pc + 2) as u16),
                            sp: (pre.sp + 1) as u16,
                            pc: nnn,
                            ..pre
                        }));
                        assert(step_obeys(pre, post, instruction, 0u8, Ok::<(), Chip8Error>(())));
                    }
                    Ok(())
                }
            },
            Instr::SkipEqImm(xr, nn) => {
                if self.vx[xr as usize] == nn {
                    self.pc = self.pc + 4;
                } else {
                    self.pc = self.pc + 2;
                }
                proof {
                    let post = machine_of(*self, *display, *ram, *keypad);
                    assert(step_obeys(pre, post, instruction, 0u8, Ok::<(), Chip8Error>(())));
                }
                Ok(())
            },
            Instr::SkipNeImm(xr, nn) => {
                if self.vx[xr as usize] != nn {
                    self.pc = self.pc + 4;
                } else {
                    self.pc = self.pc + 2;
                }
                proof {
                    let post = machine_of(*self, *display, *ram, *keypad);
                    assert(step_obeys(pre, post, instruction, 0u8, Ok::<(), Chip8Error>(())));
                }
                Ok(())
            },
            Instr::SkipEqReg(xr, yr) => {
                if self.vx[xr as usize] == self.vx[yr as usize] {
                    self.pc = self.pc + 4;
                } else {
                    self.pc = self.pc + 2;
                }
                proof {
                    let post = machine_of(*self, *display, *ram, *keypad);
                    assert(step_obeys(pre, post, instruction, 0u8, Ok::<(), Chip8Error>(())));
                }
                Ok(())
            },
            Instr::SetImm(xr, nn) => {
                self.vx[xr as usize] = nn;
                self.pc = self.pc + 2;
                proof {
                    let post = machine_of(*self, *display, *ram, *keypad);
                    assert(post =~= (Machine {
                        vx: pre.vx.update(xr as int, nn),
                        pc: (pre.pc + 2) as u16,
                        ..pre
                    }));
                    assert(step_obeys(pre, post, instruction, 0u8, Ok::<(), Chip8Error>(())));
                }
                Ok(())
            },
            Instr::AddImm(xr, nn) => {
                let sum: u16 = self.vx[xr as usize] as u16 + nn as u16;
                self.vx[xr as usize] = (sum % 256) as u8;
                self.pc = self.pc + 2;
                proof {
                    let post = machine_of(*self, *display, *ram, *keypad);
                    assert(step_obeys(pre, post, instruction, 0u8, Ok::<(), Chip8Error>(())));
                }
                Ok(())
            },
            Instr::CopyReg(xr, yr) => {
                self.vx[xr as usize] = self.vx[yr as usize];
                self.pc = self.pc + 2;
                proof {
                    let post = machine_of(*self, *display, *ram, *keypad);
                    assert(step_obeys(pre, post, instruction, 0u8, Ok::<(), Chip8Error>(())));
                }
                Ok(())
            },
            Instr::OrReg(xr, yr) => {
                self.vx[xr as usize] = self.vx[xr as usize] | self.vx[yr as usize];
                self.pc = self.pc + 2;
                proof {
                    let post = machine_of(*self, *display, *ram, *keypad);
                    assert(step_obeys(pre, post, instruction, 0u8, Ok::<(), Chip8Error>(())));
                }
                Ok(())
            },
            Instr::AndReg(xr, yr) => {
                self.vx[xr as usize] = self.vx[xr as usize] & self.vx[yr as usize];
                self.pc = self.pc + 2;
                proof {
                    let post = machine_of(*self, *display, *ram, *keypad);
                    assert(step_obeys(pre, post, instruction, 0u8, Ok::<(), Chip8Error>(())));
                }
                Ok(())
            },
            Instr::XorReg(xr, yr) => {
                self.vx[xr as usize] = self.vx[xr as usize] ^ self.vx[yr as usize];
                self.pc = self.pc + 2;
                proof {
                    let post = machine_of(*self, *display, *ram, *keypad);
                    assert(step_obeys(pre, post, instruction, 0u8, Ok::<(), Chip8Error>(())));
                }
                Ok(())
            },
            Instr::AddReg(xr, yr) => {
                let sum: u16 = self.vx[xr as usize] as u16 + self.vx[yr as usize] as u16;
                self.vx[xr as usize] = (sum % 256) as u8;
                self.vx[15] = if sum > 255 {
                    1
                } else {
                    0
                };
                self.pc = self.pc + 2;
                proof {
                    let post = machine_of(*self, *display, *ram, *keypad);
                    assert(step_obeys(pre, post, instruction, 0u8, Ok::<(), Chip8Error>(())));
                }
                Ok(())
            },
            Instr::SubReg(xr, yr) => {
                let a = self.vx[xr as usize];
                let b = self.vx[yr as usize];
                self.vx[xr as usize] = if b <= a {
                    a - b
                } else {
                    (a as u16 + 256 - b as u16) as u8
                };
                self.vx[15] = if a >= b {
                    1
                } else {
                    0
                };
                self.pc = self.pc + 2;
                proof {
                    let post = machine_of(*self, *display, *ram, *keypad);
                    assert(step_obeys(pre, post, instruction, 0u8, Ok::<(), Chip8Error>(())));
                }
                Ok(())
            },
            Instr::ShiftRight(xr) => {
                let a = self.vx[xr as usize];
                self.vx[xr as usize] = a >> 1u8;
                self.vx[15] = a & 1;
                self.pc = self.pc + 2;
                proof {
                    let post = machine_of(*self, *display, *ram, *keypad);
                    assert(step_obeys(pre, post, instruction, 0u8, Ok::<(), Chip8Error>(())));
                }
                Ok(())
            },
            Instr::SubFromReg(xr, yr) => {
                let a = self.vx[xr as usize];
                let b = self.vx[yr as usize];
                self.vx[xr as usize] = if a <= b {
                    b - a
                } else {
                    (b as u16 + 256 - a as u16) as u8
                };
                self.vx[15] = if b >= a {
                    1
                } else {
                    0
                };
                self.pc = self.pc + 2;
                proof {
                    let post = machine_of(*self, *display, *ram, *keypad);
                    assert(step_obeys(pre, post, instruction, 0u8, Ok::<(), Chip8Error>(())));
                }
                Ok(())
            },
            Instr::ShiftLeft(xr) => {
                let a = self.vx[xr as usize];
                self.vx[xr as usize] = a << 1u8;
                self.vx[15] = (a & 0x80) >> 7u8;
                self.pc = self.pc + 2;
                proof {
                    let post = machine_of(*self, *display, *ram, *keypad);
                    assert(step_obeys(pre, post, instruction, 0u8, Ok::<(), Chip8Error>(())));
                }
                Ok(())
            },
            Instr::SkipNeReg(xr, yr) => {
                if self.vx[xr as usize] != self.vx[yr as usize] {
                    self.pc = self.pc + 4;
                } else {
                    self.pc = self.pc + 2;
                }
                proof {
                    let post = machine_of(*self, *display, *ram, *keypad);
                    assert(step_obeys(pre, post, instruction, 0u8, Ok::<(), Chip8Error>(())));
                }
                Ok(())
            },
            Instr::SetIndex(nnn) => {
                self.index = nnn;
                self.pc = self.pc + 2;
                proof {
                    let post = machine_of(*self, *display, *ram, *keypad);
                    assert(step_obeys(pre, post, instruction, 0u8, Ok::<(), Chip8Error>(())));
                }
                Ok(())
            },
            Instr::JumpOffset(nnn) => {
                self.pc = nnn + self.vx[0] as u16;
                proof {
                    let post = machine_of(*self, *display, *ram, *keypad);
                    assert(step_obeys(pre, post, instruction, 0u8, Ok::<(), Chip8Error>(())));
                }
                Ok(())
            },
            Instr::Random(xr, nn) => {
                let rb = random_byte();
                self.vx[xr as usize] = rb & nn;
                self.pc = self.pc + 2;
                proof {
                    let post = machine_of(*self, *display, *ram, *keypad);
                    assert(post =~= (Machine {
                        vx: pre.vx.update(xr as int, rb & nn),
                        pc: (pre.pc + 2) as u16,
                        ..pre
                    }));
                    assert(step_obeys(pre, post, instruction, rb, Ok::<(), Chip8Error>(())));
                }
                Ok(())
            },
            Instr::Draw(xr, yr, n) => {
                let res = self.exec_draw(display, ram, xr, yr, n);
                proof {
                    let post = machine_of(*self, *display, *ram, *keypad);
                    if n > 0 && pre.index + n > 4096 {
                        assert(post =~= pre);
                        assert(step_obeys(
                            pre,
                            post,
                            instruction,
                            0u8,
                            Err::<(), Chip8Error>(Chip8Error::AddressOutOfRange),
                        ));
                    } else {
                        let d = draw_rows(
                            pre.screen,
                            false,
                            pre.mem,
                            pre.index,
                            pre.vx[xr as int],
                            pre.vx[yr as int],
                            n as int,
                        );
                        assert(post =~= (Machine {
                            screen: d.0,
                            vx: if d.1 {
                                pre.vx.update(15, 1u8)
                            } else {
                                pre.vx
                            },
                            pc: (pre.pc + 2) as u16,
                            ..pre
                        }));
                        assert(step_obeys(pre, post, instruction, 0u8, Ok::<(), Chip8Error>(())));
                    }
                }
                res
            },
            Instr::SkipKeyPressed(xr) => {
                let key = self.vx[xr as usize];
                if key >= 16 {
                    proof {
                        let post = machine_of(*self, *display, *ram, *keypad);
                        assert(post =~= pre);
                        assert(step_obeys(
                            pre,
                            post,
                            instruction,
                            0u8,
                            Err::<(), Chip8Error>(Chip8Error::KeyOutOfRange),
                        ));
                    }
                    Err(Chip8Error::KeyOutOfRange)
                } else {
                    if keypad.keys[key as usize] {
                        self.pc = self.pc + 4;
                    } else {
                        self.pc = self.pc + 2;
                    }
                    proof {
                        let post = machine_of(*self, *display, *ram, *keypad);
                        assert(step_obeys(pre, post, instruction, 0u8, Ok::<(), Chip8Error>(())));
                    }
                    Ok(())
                }
            },
            Instr::SkipKeyNotPressed(xr) => {
                let key = self.vx[xr as usize];
                if key >= 16 {
                    proof {
                        let post = machine_of(*self, *display, *ram, *keypad);
                        assert(post =~= pre);
                        assert(step_obeys(
                            pre,
                            post,
                            instruction,
                            0u8,
                            Err::<(), Chip8Error>(Chip8Error::KeyOutOfRange),
                        ));
                    }
                    Err(Chip8Error::KeyOutOfRange)
                } else {
                    if !keypad.keys[key as usize] {
                        self.pc = self.pc + 4;
                    } else {
                        self.pc = self.pc + 2;
                    }
                    proof {
                        let post = machine_of(*self, *display, *ram, *keypad);
                        assert(step_obeys(pre, post, instruction, 0u8, Ok::<(), Chip8Error>(())));
                    }
                    Ok(())
                }
            },
            Instr::ReadDelay(xr) => {
                self.vx[xr as usize] = self.dt;
                self.pc = self.pc + 2;
                proof {
                    let post = machine_of(*self, *display, *ram, *keypad);
                    assert(step_obeys(pre, post, instruction, 0u8, Ok::<(), Chip8Error>(())));
                }
                Ok(())
            },
            Instr::WaitKey(xr) => {
                match keypad.first_pressed() {
                    Some(k) => {
                        self.vx[xr as usize] = k;
                        self.pc = self.pc + 2;
                    },
                    None => {},
                }
                proof {
                    let post = machine_of(*self, *display, *ram, *keypad);
                    assert(step_obeys(pre, post, instruction, 0u8, Ok::<(), Chip8Error>(())));
                }
                Ok(())
            },
            Instr::SetDelay(xr) => {
                self.dt = self.vx[xr as usize];
                self.pc = self.pc + 2;
                proof {
                    let post = machine_of(*self, *display, *ram, *keypad);
                    assert(step_obeys(pre, post, instruction, 0u8, Ok::<(), Chip8Error>(())));
                }
                Ok(())
            },
            Instr::SetSound(xr) => {
                self.st = self.vx[xr as usize];
                self.pc = self.pc + 2;
                proof {
                    let post = machine_of(*self, *display, *ram, *keypad);
                    assert(step_obeys(pre, post, instruction, 0u8, Ok::<(), Chip8Error>(())));
                }
                Ok(())
            },
            Instr::AddIndex(xr) => {
                let wide: u32 = self.index as u32 + self.vx[xr as usize] as u32;
                self.index = (wide % 0x10000) as u16;
                self.pc = self.pc + 2;
                proof {
                    let post = machine_of(*self, *display, *ram, *keypad);
                    assert(step_obeys(pre, post, instruction, 0u8, Ok::<(), Chip8Error>(())));
                }
                Ok(())
            },
            Instr::FontIndex(xr) => {
                self.index = FONT_START + self.vx[xr as usize] as u16 * 5;
                self.pc = self.pc + 2;
                proof {
                    let post = machine_of(*self, *display, *ram, *keypad);
                    assert(step_obeys(pre, post, instruction, 0u8, Ok::<(), Chip8Error>(())));
                }
                Ok(())
            },
            Instr::StoreBcd(xr) => {
                if self.index as usize + 3 > 4096 {
                    proof {
                        let post = machine_of(*self, *display, *ram, *keypad);
                        assert(post =~= pre);
                        assert(step_obeys(
                            pre,
                            post,
                            instruction,
                            0u8,
                            Err::<(), Chip8Error>(Chip8Error::AddressOutOfRange),
                        ));
                    }
                    Err(Chip8Error::AddressOutOfRange)
                } else {
                    let v = self.vx[xr as usize];
                    let base = self.index as usize;
                    ram.memory[base] = v / 100;
                    ram.memory[base + 1] = (v / 10) % 10;
                    ram.memory[base + 2] = v % 10;
                    self.pc = self.pc + 2;
                    proof {
                        let post = machine_of(*self, *display, *ram, *keypad);
                        assert(step_obeys(pre, post, instruction, 0u8, Ok::<(), Chip8Error>(())));
                    }
                    Ok(())
                }
            },
            Instr::StoreRegs(xr) => {
                let res = self.exec_store_regs(ram, xr);
                proof {
                    let post = machine_of(*self, *display, *ram, *keypad);
                    if pre.index + xr + 1 > 4096 {
                        assert(post =~= pre);
                        assert(step_obeys(
                            pre,
                            post,
                            instruction,
                            0u8,
                            Err::<(), Chip8Error>(Chip8Error::AddressOutOfRange),
                        ));
                    } else {
                        assert(post =~= (Machine {
                            mem: store_regs(pre.mem, pre.vx, pre.index, xr + 1),
                            index: (pre.index + xr + 1) as u16,
                            pc: (pre.pc + 2) as u16,
                            ..pre
                        }));
                        assert(step_obeys(pre, post, instruction, 0u8, Ok::<(), Chip8Error>(())));
                    }
                }
                res
            },
            Instr::LoadRegs(xr) => {
                let res = self.exec_load_regs(ram, xr);
                proof {
                    let post = machine_of(*self, *display, *ram, *keypad);
                    if pre.index + xr + 1 > 4096 {
                        assert(post =~= pre);
                        assert(step_obeys(
                            pre,
                            post,
                            instruction,
                            0u8,
                            Err::<(), Chip8Error>(Chip8Error::AddressOutOfRange),
                        ));
                    } else {
                        assert(post =~= (Machine {
                            vx: load_regs(pre.vx, pre.mem, pre.index, xr + 1),
                            index: (pre.index + xr + 1) as u16,
                            pc: (pre.pc + 2) as u16,
                            ..pre
                        }));
                        assert(step_obeys(pre, post, instruction, 0u8, Ok::<(), Chip8Error>(())));
                    }
                }
                res
            },
            Instr::Unknown => {
                proof {
                    let post = machine_of(*self, *display, *ram, *keypad);
                    assert(post =~= pre);
                    assert(step_obeys(
                        pre,
                        post,
                        instruction,
                        0u8,
                        Err::<(), Chip8Error>(Chip8Error::UnknownInstruction),
                    ));
                }
                Err(Chip8Error::UnknownInstruction)
            },
        }
    }

    /// XOR-draws an `n`-row sprite read at the index register, wrapping at
    /// the screen edges; a toggle of an already-set pixel sets vF, which is
    /// never cleared here.
    fn exec_draw(
        &mut self,
        display: &mut Display,
        ram: &Ram,
        x: u8,
        y: u8,
        n: u8,
    ) -> (res: Result<(), Chip8Error>)
        requires
            x < 16,
            y < 16,
            n < 16,
            old(self).pc < 4095,
        ensures
            if n > 0 && old(self).index + n > 4096 {
                res == Err::<(), Chip8Error>(Chip8Error::AddressOutOfRange)
                    && *final(self) == *old(self) && *final(display) == *old(display)
            } else {
                let d = draw_rows(
                    old(display).screen@,
                    false,
                    ram.memory@,
                    old(self).index,
                    old(self).vx@[x as int],
                    old(self).vx@[y as int],
                    n as int,
                );
                res == Ok::<(), Chip8Error>(()) && final(display).screen@ == d.0
                    && final(self).vx@ == (if d.1 {
                    old(self).vx@.update(15, 1u8)
                } else {
                    old(self).vx@
                }) && final(self).pc == old(self).pc + 2 && final(self).index == old(self).index
                    && final(self).stack == old(self).stack && final(self).sp == old(self).sp
                    && final(self).st == old(self).st && final(self).dt == old(self).dt
            },
    {
        if n > 0 && self.index as usize + n as usize > 4096 {
            return Err(Chip8Error::AddressOutOfRange);
        }
        let vx0 = self.vx[x as usize];
        let vy0 = self.vx[y as usize];
        let ghost s0 = display.screen@;
        let mut collided = false;
        let mut row: usize = 0;
        while row < n as usize
            invariant
                row <= n as usize,
                n < 16,
                n as usize > 0 ==> self.index as int + n as int <= 4096,
                vx0 == self.vx@[x as int],
                vy0 == self.vx@[y as int],
                x < 16,
                y < 16,
                display.screen@ == draw_rows(
                    s0,
                    false,
                    ram.memory@,
                    self.index,
                    vx0,
                    vy0,
                    row as int,
                ).0,
                collided == draw_rows(
                    s0,
                    false,
                    ram.memory@,
                    self.index,
                    vx0,
                    vy0,
                    row as int,
                ).1,
                display.screen@.len() == 2048,
            decreases n as int - row as int,
        {
            let addr: usize = self.index as usize + row;
            let byte = ram.memory[addr];
            let yrow: usize = (vy0 as usize + row) % 32;
            let ghost s_row = display.screen@;
            let ghost c_row = collided;
            let mut xoff: usize = 0;
            while xoff < 8
                invariant
                    xoff <= 8,
                    yrow < 32,
                    yrow as int == (vy0 + row) % 32,
                    byte == ram.memory@[self.index + row],
                    display.screen@ == draw_bits(
                        s_row,
                        c_row,
                        byte,
                        vx0,
                        yrow as int,
                        xoff as int,
                    ).0,
                    collided == draw_bits(s_row, c_row, byte, vx0, yrow as int, xoff as int).1,
                    display.screen@.len() == 2048,
                    s_row.len() == 2048,
                decreases 8 - xoff as int,
            {
                let sh: u8 = (7 - xoff) as u8;
                let bit = (byte >> sh) & 1;
                if bit == 1 {
                    let px: usize = (vx0 as usize + xoff) % 64;
                    let pixel: usize = yrow * 64 + px;
                    proof {
                        assert(sprite_bit(byte, xoff as int));
                        assert(pixel as int == pixel_of(vx0, yrow as int, xoff as int));
                    }
                    let was = display.screen[pixel];
                    if was {
                        collided = true;
                    }
                    display.screen[pixel] = !was;
                } else {
                    proof {
                        assert(!sprite_bit(byte, xoff as int));
                    }
                }
                xoff = xoff + 1;
            }
            row = row + 1;
        }
        if collided {
            self.vx[15] = 1;
        }
        self.pc = self.pc + 2;
        Ok(())
    }

    /// Writes registers v0 up to vx to memory at the index register, then
    /// advances the index past them.
    fn exec_store_regs(&mut self, ram: &mut Ram, x: u8) -> (res: Result<(), Chip8Error>)
        requires
            x < 16,
            old(self).pc < 4095,
        ensures
            if old(self).index + x + 1 > 4096 {
                res == Err::<(), Chip8Error>(Chip8Error::AddressOutOfRange)
                    && *final(self) == *old(self) && *final(ram) == *old(ram)
            } else {
                res == Ok::<(), Chip8Error>(()) && final(ram).memory@ == store_regs(
                    old(ram).memory@,
                    old(self).vx@,
                    old(self).index,
                    x as int + 1,
                ) && final(self).index == old(self).index + x + 1 && final(self).pc == old(
                    self,
                ).pc + 2 && final(self).vx == old(self).vx && final(self).stack == old(self).stack
                    && final(self).sp == old(self).sp && final(self).st == old(self).st
                    && final(self).dt == old(self).dt
            },
    {
        if self.index as usize + x as usize + 1 > 4096 {
            return Err(Chip8Error::AddressOutOfRange);
        }
        let mut i: usize = 0;
        while i < x as usize + 1
            invariant
                i <= x as usize + 1,
                x < 16,
                self.index as int + x as int + 1 <= 4096,
                ram.memory@ == store_regs(old(ram).memory@, self.vx@, self.index, i as int),
                ram.memory@.len() == 4096,
            decreases x as int + 1 - i as int,
        {
            let addr: usize = self.index as usize + i;
            ram.memory[addr] = self.vx[i];
            i = i + 1;
        }
        self.index = self.index + x as u16 + 1;
        self.pc = self.pc + 2;
        Ok(())
    }

    /// Fills registers v0 up to vx from memory at the index register, then
    /// advances the index past the bytes read.
    fn exec_load_regs(&mut self, ram: &mut Ram, x: u8) -> (res: Result<(), Chip8Error>)
        requires
            x < 16,
            old(self).pc < 4095,
        ensures
            *final(ram) == *old(ram),
            if old(self).index + x + 1 > 4096 {
                res == Err::<(), Chip8Error>(Chip8Error::AddressOutOfRange)
                    && *final(self) == *old(self)
            } else {
                res == Ok::<(), Chip8Error>(()) && final(self).vx@ == load_regs(
                    old(self).vx@,
                    old(ram).memory@,
                    old(self).index,
                    x as int + 1,
                ) && final(self).index == old(self).index + x + 1 && final(self).pc == old(
                    self,
                ).pc + 2 && final(self).stack == old(self).stack && final(self).sp == old(self).sp
                    && final(self).st == old(self).st && final(self).dt == old(self).dt
            },
    {
        if self.index as usize + x as usize + 1 > 4096 {
            return Err(Chip8Error::AddressOutOfRange);
        }
        let ghost vx0 = self.vx@;
        let mut i: usize = 0;
        while i < x as usize + 1
            invariant
                i <= x as usize + 1,
                x < 16,
                self.index as int + x as int + 1 <= 4096,
                self.index == old(self).index,
                self.pc == old(self).pc,
                self.stack == old(self).stack,
                self.sp == old(self).sp,
                self.st == old(self).st,
                self.dt == old(self).dt,
                old(self).pc < 4095,
                self.vx@ == load_regs(vx0, ram.memory@, self.index, i as int),
            decreases x as int + 1 - i as int,
        {
            let addr: usize = self.index as usize + i;
            self.vx[i] = ram.memory[addr];
            i = i + 1;
        }
        self.index = self.index + x as u16 + 1;
        self.pc = self.pc + 2;
        Ok(())
    }
}

} // verus!
