use vstd::prelude::*;

verus! {

/// Capacity of the addressable store: 4096 bytes, addresses 0x000 through 0xFFF.
pub const MEM_SIZE: usize = 4096;

/// Flat byte-addressable store with bounds-checked read and write.
///
/// Every access must name an address below `MEM_SIZE`; callers check the
/// bound and report a fault instead of reaching past the end.
pub struct Memory {
    ram: Vec<u8>,
}

impl View for Memory {
    type V = Seq<u8>;

    closed spec fn view(&self) -> Seq<u8> {
        self.ram@
    }
}

impl Memory {
    /// The store always holds exactly `MEM_SIZE` bytes.
    pub open spec fn wf(&self) -> bool {
        self@.len() == MEM_SIZE
    }

    /// A zero-initialized store of `MEM_SIZE` bytes.
    pub fn init() -> (m: Memory)
        ensures
            m.wf(),
            forall|a: int| 0 <= a < MEM_SIZE ==> m@[a] == 0u8,
    {
        let mut ram: Vec<u8> = Vec::new();
        let mut k: usize = 0;
        while k < MEM_SIZE
            invariant
                k <= MEM_SIZE,
                ram@.len() == k,
                forall|a: int| 0 <= a < k ==> ram@[a] == 0u8,
            decreases MEM_SIZE - k,
        {
            ram.push(0);
            k = k + 1;
        }
        Memory { ram }
    }

    /// The byte stored at `address`.
    pub fn read_ram(&self, address: usize) -> (r: u8)
        requires
            self.wf(),
            address < MEM_SIZE,
        ensures
            r == self@[address as int],
    {
        self.ram[address]
    }

    /// Stores `value` at `address`; no other byte changes.
    pub fn write_ram(&mut self, address: usize, value: u8)
        requires
            old(self).wf(),
            address < MEM_SIZE,
        ensures
            final(self).wf(),
            final(self)@ == old(self)@.update(address as int, value),
    {
        self.ram.set(address, value);
    }
}

} // verus!
