//! A mathematical picture of the target's address space, for stating what the
//! library's requests amount to when the target answers them faithfully.

use vstd::prelude::*;

verus! {

/// The bytes of an address space at one moment. An address that holds nothing reads as zero,
/// as a failed read does.
pub struct Memory {
    pub cells: Map<int, u8>,
}

impl Memory {
    /// The byte at `at`.
    pub open spec fn byte(self, at: int) -> u8 {
        if self.cells.dom().contains(at) {
            self.cells[at]
        } else {
            0
        }
    }

    /// The `len` bytes from `address` on.
    pub open spec fn load(self, address: usize, len: nat) -> Seq<u8> {
        Seq::new(len, |i: int| self.byte(address + i))
    }

    /// The address space after `data` was written from `address` on.
    pub open spec fn store(self, address: usize, data: Seq<u8>) -> Memory {
        Memory {
            cells: Map::new(
                |at: int| self.cells.dom().contains(at) || address <= at < address + data.len(),
                |at: int|
                    if address <= at < address + data.len() {
                        data[at - address]
                    } else {
                        self.cells[at]
                    },
            ),
        }
    }

    /// Whether both address spaces hold the same `len` bytes from `address` on.
    pub open spec fn agrees(self, other: Memory, address: usize, len: nat) -> bool {
        forall|at: int| address <= at < address + len ==> self.byte(at) == other.byte(at)
    }
}

/// A range reads back what was stored in it.
pub proof fn lemma_load_stored(memory: Memory, address: usize, data: Seq<u8>)
    ensures
        memory.store(address, data).load(address, data.len()) == data,
{
}

/// Address spaces that agree on a range load the same bytes from it.
pub proof fn lemma_load_agrees(memory: Memory, other: Memory, address: usize, len: nat)
    requires
        memory.agrees(other, address, len),
    ensures
        memory.load(address, len) == other.load(address, len),
{
}

} // verus!
