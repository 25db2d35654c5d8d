use vstd::prelude::*;

use crate::cpu::{machine_of, Cpu};
use crate::display::{blank_screen, Display};
use crate::isa::{spec_fetch, step_obeys, Machine, FONT_START, PROGRAM_START};
use crate::keypad::{no_keys, Keypad};
use crate::memory::Ram;
use crate::Chip8Error;

verus! {

/// The built-in glyph table: sixteen five-byte glyphs for the hexadecimal
/// digits 0 to F, in order.
pub open spec fn font_table() -> Seq<u8> {
    seq![
        0xF0u8, 0x90, 0x90, 0x90, 0xF0, // 0
        0x20, 0x60, 0x20, 0x20, 0x70, // 1
        0xF0, 0x10, 0xF0, 0x80, 0xF0, // 2
        0xF0, 0x10, 0xF0, 0x10, 0xF0, // 3
        0x90, 0x90, 0xF0, 0x10, 0x10, // 4
        0xF0, 0x80, 0xF0, 0x10, 0xF0, // 5
        0xF0, 0x80, 0xF0, 0x90, 0xF0, // 6
        0xF0, 0x10, 0x20, 0x40, 0x40, // 7
        0xF0, 0x90, 0xF0, 0x90, 0xF0, // 8
        0xF0, 0x90, 0xF0, 0x10, 0xF0, // 9
        0xF0, 0x90, 0xF0, 0x90, 0x90, // A
        0xE0, 0x90, 0xE0, 0x90, 0xE0, // B
        0xF0, 0x80, 0x80, 0x80, 0xF0, // C
        0xE0, 0x90, 0x90, 0x90, 0xE0, // D
        0xF0, 0x80, 0xF0, 0x80, 0xF0, // E
        0xF0, 0x80, 0xF0, 0x80, 0x80, // F
    ]
}

/// The machine as it is at startup: everything cleared, the program counter
/// at `PROGRAM_START`.
pub open spec fn initial_machine() -> Machine {
    Machine {
        vx: Seq::new(16, |i: int| 0u8),
        index: 0,
        pc: PROGRAM_START,
        stack: Seq::new(16, |i: int| 0u16),
        sp: 0,
        st: 0,
        dt: 0,
        mem: Seq::new(4096, |i: int| 0u8),
        screen: blank_screen(),
        keys: no_keys(),
    }
}

/// The whole console: memory, processor state, screen and keypad. One call
/// of `run` performs one fetch-decode-execute tick.
pub struct Chip8 {
    pub ram: Ram,
    pub cpu: Cpu,
    pub display: Display,
    pub keypad: Keypad,
}

impl View for Chip8 {
    type V = Machine;

    open spec fn view(&self) -> Machine {
        machine_of(self.cpu, self.display, self.ram, self.keypad)
    }
}

impl Chip8 {
    /// A machine at startup, before any font or program is loaded.
    pub fn new() -> (r: Chip8)
        ensures
            r@ == initial_machine(),
    {
        let r = Chip8 {
            ram: Ram::new(),
            cpu: Cpu::new(),
            display: Display::new(),
            keypad: Keypad::new(),
        };
        proof {
            assert(r@ =~= initial_machine());
        }
        r
    }

    /// One tick: fetches the instruction word at the program counter and
    /// executes it as `spec_step` describes. A fetch beyond the end of
    /// memory fails with `AddressOutOfRange` and changes nothing.
    pub fn run(&mut self) -> (res: Result<(), Chip8Error>)
        requires
            old(self).cpu.sp <= 16,
        ensures
            old(self).cpu.pc as int + 1 < 4096 ==> (exists|r: u8|
                step_obeys(
                    old(self)@,
                    final(self)@,
                    spec_fetch(old(self).ram.memory@, old(self).cpu.pc),
                    r,
                    res,
                )),
            old(self).cpu.pc as int + 1 >= 4096 ==> res == Err::<(), Chip8Error>(
                Chip8Error::AddressOutOfRange,
            ) && *final(self) == *old(self),
    {
        let instruction = match self.get_instruction() {
            Ok(w) => w,
            Err(e) => {
                return Err(e);
            },
        };
        let ghost pre = machine_of(self.cpu, self.display, self.ram, self.keypad);
        let res = self.cpu.run_instruction(
            instruction,
            &mut self.display,
            &mut self.ram,
            &mut self.keypad,
        );
        proof {
            let post = machine_of(self.cpu, self.display, self.ram, self.keypad);
            let r0 = choose|r: u8| step_obeys(pre, post, instruction, r, res);
            assert(step_obeys(pre, post, instruction, r0, res));
            assert(instruction == spec_fetch(old(self).ram.memory@, old(self).cpu.pc));
            assert(pre == old(self)@);
            assert(step_obeys(
                old(self)@,
                self@,
                spec_fetch(old(self).ram.memory@, old(self).cpu.pc),
                r0,
                res,
            ));
            assert(exists|r: u8|
                step_obeys(
                    old(self)@,
                    self@,
                    spec_fetch(old(self).ram.memory@, old(self).cpu.pc),
                    r,
                    res,
                ));
        }
        res
    }

    /// The big-endian instruction word at the program counter; fails with
    /// `AddressOutOfRange` when its two bytes do not both lie in memory.
    /// Never changes the machine.
    pub fn get_instruction(&mut self) -> (res: Result<u16, Chip8Error>)
        ensures
            *final(self) == *old(self),
            old(self).cpu.pc as int + 1 < 4096 ==> res == Ok::<u16, Chip8Error>(
                spec_fetch(old(self).ram.memory@, old(self).cpu.pc),
            ),
            old(self).cpu.pc as int + 1 >= 4096 ==> res == Err::<u16, Chip8Error>(
                Chip8Error::AddressOutOfRange,
            ),
    {
        let hi = match self.ram.read_byte(self.cpu.pc) {
            Ok(b) => b,
            Err(e) => {
                return Err(e);
            },
        };
        let lo = match self.ram.read_byte(self.cpu.pc + 1) {
            Ok(b) => b,
            Err(e) => {
                return Err(e);
            },
        };
        Ok(((hi as u16) << 8u16) | (lo as u16))
    }

    /// Places the eighty-byte glyph table at `FONT_START`; the rest of the
    /// machine is left as it was.
    pub fn load_sprites(&mut self)
        ensures
            final(self).ram.memory@.len() == 4096,
            forall|i: int| 0 <= i < 80 ==> final(self).ram.memory@[0x50 + i] == font_table()[i],
            forall|i: int|
                0 <= i < 4096 && !(0x50 <= i < 0xA0) ==> final(self).ram.memory@[i] == old(
                    self,
                ).ram.memory@[i],
            final(self).cpu == old(self).cpu,
            final(self).display == old(self).display,
            final(self).keypad == old(self).keypad,
    {
        let table: [u8; 80] = [
            0xF0, 0x90, 0x90, 0x90, 0xF0, // 0
            0x20, 0x60, 0x20, 0x20, 0x70, // 1
            0xF0, 0x10, 0xF0, 0x80, 0xF0, // 2
            0xF0, 0x10, 0xF0, 0x10, 0xF0, // 3
            0x90, 0x90, 0xF0, 0x10, 0x10, // 4
            0xF0, 0x80, 0xF0, 0x10, 0xF0, // 5
            0xF0, 0x80, 0xF0, 0x90, 0xF0, // 6
            0xF0, 0x10, 0x20, 0x40, 0x40, // 7
            0xF0, 0x90, 0xF0, 0x90, 0xF0, // 8
            0xF0, 0x90, 0xF0, 0x10, 0xF0, // 9
            0xF0, 0x90, 0xF0, 0x90, 0x90, // A
            0xE0, 0x90, 0xE0, 0x90, 0xE0, // B
            0xF0, 0x80, 0x80, 0x80, 0xF0, // C
            0xE0, 0x90, 0x90, 0x90, 0xE0, // D
            0xF0, 0x80, 0xF0, 0x80, 0xF0, // E
            0xF0, 0x80, 0xF0, 0x80, 0x80, // F
        ];
        proof {
            assert(table@ =~= font_table());
        }
        // The table always fits: it ends at 0xA0, far below the end of
        // memory, so this load cannot fail.
        let _ = self.ram.load(FONT_START as usize, table.as_slice());
    }

    /// Loads a program image at `PROGRAM_START`. An image that does not fit
    /// below the end of memory fails with `RomLoadError` and changes
    /// nothing.
    pub fn load_rom(&mut self, data: &Vec<u8>) -> (res: Result<(), Chip8Error>)
        ensures
            0x200 + data@.len() <= 4096 ==> res == Ok::<(), Chip8Error>(())
                && final(self).ram.memory@.len() == 4096
                && (forall|i: int|
                    0 <= i < data@.len() ==> final(self).ram.memory@[0x200 + i] == data@[i])
                && (forall|i: int|
                    0 <= i < 4096 && !(0x200 <= i < 0x200 + data@.len())
                        ==> final(self).ram.memory@[i] == old(self).ram.memory@[i])
                && final(self).cpu == old(self).cpu && final(self).display == old(self).display
                && final(self).keypad == old(self).keypad,
            0x200 + data@.len() > 4096 ==> res == Err::<(), Chip8Error>(Chip8Error::RomLoadError)
                && *final(self) == *old(self),
    {
        match self.ram.load(PROGRAM_START as usize, data.as_slice()) {
            Ok(()) => Ok(()),
            Err(_) => Err(Chip8Error::RomLoadError),
        }
    }
}

} // verus!
