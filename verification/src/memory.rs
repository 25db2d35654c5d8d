use vstd::prelude::*;

use crate::Chip8Error;

verus! {

/// Number of addressable bytes; addresses run from 0 to 4095.
pub const MEMORY_SIZE: usize = 4096;

/// Flat byte-addressable store. Every access is bounds-checked: an access at
/// or beyond `MEMORY_SIZE` fails with `AddressOutOfRange` and leaves the
/// store untouched.
pub struct Ram {
    pub memory: [u8; 4096],
}

impl Ram {
    /// A fresh store holding all zeroes.
    pub fn new() -> (r: Ram)
        ensures
            r.memory@ == Seq::new(4096, |i: int| 0u8),
    {
        let r = Ram { memory: [0u8; 4096] };
        proof {
            assert(r.memory@ =~= Seq::new(4096, |i: int| 0u8));
        }
        r
    }

    /// Writes one byte, or reports `AddressOutOfRange` without any effect.
    pub fn write_byte(&mut self, address: u16, value: u8) -> (r: Result<(), Chip8Error>)
        ensures
            address < 4096 ==> r == Ok::<(), Chip8Error>(())
                && final(self).memory@ == old(self).memory@.update(address as int, value),
            address >= 4096 ==> r == Err::<(), Chip8Error>(Chip8Error::AddressOutOfRange)
                && *final(self) == *old(self),
    {
        if address < 4096 {
            self.memory[address as usize] = value;
            Ok(())
        } else {
            Err(Chip8Error::AddressOutOfRange)
        }
    }

    /// Reads one byte, or reports `AddressOutOfRange`. The store is never
    /// changed.
    pub fn read_byte(&mut self, address: u16) -> (r: Result<u8, Chip8Error>)
        ensures
            *final(self) == *old(self),
            address < 4096 ==> r == Ok::<u8, Chip8Error>(old(self).memory@[address as int]),
            address >= 4096 ==> r == Err::<u8, Chip8Error>(Chip8Error::AddressOutOfRange),
    {
        if address < 4096 {
            Ok(self.memory[address as usize])
        } else {
            Err(Chip8Error::AddressOutOfRange)
        }
    }

    /// Writes a byte sequence starting at `offset`. Fails with
    /// `AddressOutOfRange`, without any effect, when the sequence would not
    /// fit below `MEMORY_SIZE`.
    pub fn load(&mut self, offset: usize, data: &[u8]) -> (r: Result<(), Chip8Error>)
        ensures
            offset + data@.len() <= 4096 ==> r == Ok::<(), Chip8Error>(())
                && final(self).memory@.len() == 4096
                && (forall|i: int| 0 <= i < data@.len()
                        ==> final(self).memory@[offset + i] == data@[i])
                && (forall|i: int| 0 <= i < 4096 && !(offset <= i < offset + data@.len())
                        ==> final(self).memory@[i] == old(self).memory@[i]),
            offset + data@.len() > 4096 ==> r == Err::<(), Chip8Error>(Chip8Error::AddressOutOfRange)
                && *final(self) == *old(self),
    {
        if data.len() > 4096 || offset > 4096 - data.len() {
            return Err(Chip8Error::AddressOutOfRange);
        }
        let mut i: usize = 0;
        while i < data.len()
            invariant
                i <= data@.len(),
                offset + data@.len() <= 4096,
                self.memory@.len() == 4096,
                forall|j: int| 0 <= j < i ==> self.memory@[offset + j] == data@[j],
                forall|j: int| 0 <= j < 4096 && !(offset <= j < offset + i)
                    ==> self.memory@[j] == old(self).memory@[j],
            decreases data@.len() - i,
        {
            self.memory[offset + i] = data[i];
            i = i + 1;
        }
        Ok(())
    }
}

} // verus!
