use vstd::prelude::*;

verus! {

/// Number of bytes of working memory: addresses `0 ..= 0xFFFE` are backed.
pub const MEMORY_SIZE: usize = 65535;

/// The emulated address space, one byte per address.
#[derive(Clone, Copy, Debug)]
pub struct Memory {
    pub memory: [u8; 65535],
}

impl View for Memory {
    type V = Seq<u8>;

    open spec fn view(&self) -> Seq<u8> {
        self.memory@
    }
}

impl Memory {
    /// Memory filled with zeros.
    pub fn new() -> (m: Memory)
        ensures
            m@.len() == MEMORY_SIZE,
            forall|i: int| 0 <= i < MEMORY_SIZE ==> #[trigger] m@[i] == 0,
    {
        Memory { memory: [0x0; 65535] }
    }

    /// The byte at `addr`; only addresses below `MEMORY_SIZE` are backed.
    pub fn get(&self, addr: u16) -> (v: u8)
        requires
            (addr as int) < MEMORY_SIZE,
        ensures
            v == self@[addr as int],
    {
        self.memory[addr as usize]
    }

    /// Stores `value` at `addr`; only addresses below `MEMORY_SIZE` are backed.
    pub fn set(&mut self, addr: u16, value: u8)
        requires
            (addr as int) < MEMORY_SIZE,
        ensures
            final(self)@ == old(self)@.update(addr as int, value),
    {
        self.memory[addr as usize] = value;
    }
}

} // verus!
