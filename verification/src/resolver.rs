//! Walking a pointer chain from a base address to the address of a scalar.
//!
//! Every offset but the last is added to the current address and the pointer found
//! there becomes the next address; the last offset is added without a read. The
//! walk itself reads nothing: it names the pointer slot to read next and takes the
//! bytes found there.

use crate::codec::{decode_pointer, pointer_value, pointer_width};
use crate::memory::Memory;
use vstd::prelude::*;
use vstd::slice::slice_to_vec;

verus! {

/// `base + offset` in the target's address arithmetic, which wraps around at the
/// pointer width.
pub open spec fn offset_address(base: usize, offset: usize) -> usize {
    if base + offset > usize::MAX {
        (base + offset - usize::MAX - 1) as usize
    } else {
        (base + offset) as usize
    }
}

/// The pointer that `memory` holds at `address`.
pub open spec fn pointer_at(memory: Memory, address: usize) -> usize {
    pointer_value(memory.load(address, pointer_width()))
}

/// The address that the chain `offsets` leads to from `base` in `memory`. The empty
/// chain leads nowhere: it stays at `base`.
pub open spec fn resolve(memory: Memory, base: usize, offsets: Seq<usize>) -> usize
    decreases offsets.len(),
{
    if offsets.len() == 0 {
        base
    } else if offsets.len() == 1 {
        offset_address(base, offsets[0])
    } else {
        resolve(memory, pointer_at(memory, offset_address(base, offsets[0])), offsets.skip(1))
    }
}

/// The pointer slots that resolving `offsets` from `base` reads in `memory`, in order.
pub open spec fn slots(memory: Memory, base: usize, offsets: Seq<usize>) -> Seq<usize>
    decreases offsets.len(),
{
    if offsets.len() <= 1 {
        Seq::empty()
    } else {
        let slot = offset_address(base, offsets[0]);
        seq![slot] + slots(memory, pointer_at(memory, slot), offsets.skip(1))
    }
}

/// A walk at one moment: the chain, how many pointers were followed, and the address
/// reached.
pub struct WalkView {
    pub offsets: Seq<usize>,
    pub hop: nat,
    pub base: usize,
}

impl WalkView {
    /// The walk of `offsets` before its first step.
    pub open spec fn start(base: usize, offsets: Seq<usize>) -> WalkView {
        WalkView { offsets, hop: 0, base }
    }

    /// Whether a pointer is still to be followed.
    pub open spec fn walking(self) -> bool {
        self.hop + 1 < self.offsets.len()
    }

    /// The pointer slot at which the next pointer lies, while one is to be followed.
    pub open spec fn slot(self) -> usize {
        offset_address(self.base, self.offsets[self.hop as int])
    }

    /// The address the chain leads to, once no pointer is left to follow.
    pub open spec fn end(self) -> usize {
        if self.offsets.len() == 0 {
            self.base
        } else {
            offset_address(self.base, self.offsets.last())
        }
    }

    /// The pointer slot to read next, if any.
    pub open spec fn pending(self) -> Option<usize> {
        if self.walking() {
            Some(self.slot())
        } else {
            None
        }
    }

    /// The walk after the pending slot was read as `bytes`. A walk that waits for
    /// nothing stays as it is.
    pub open spec fn supply(self, bytes: Seq<u8>) -> WalkView {
        if self.walking() {
            WalkView { offsets: self.offsets, hop: self.hop + 1, base: pointer_value(bytes) }
        } else {
            self
        }
    }

    /// The address of the scalar, known once no pointer is left to follow.
    pub open spec fn address(self) -> Option<usize> {
        if self.walking() {
            None
        } else {
            Some(self.end())
        }
    }

    /// The offsets not yet applied.
    pub open spec fn rest(self) -> Seq<usize> {
        if self.hop <= self.offsets.len() {
            self.offsets.skip(self.hop as int)
        } else {
            Seq::empty()
        }
    }

    /// The walk at its end, when every pending slot is answered from `memory`.
    pub open spec fn run(self, memory: Memory) -> WalkView
        decreases self.offsets.len() - self.hop,
    {
        match self.pending() {
            Some(slot) => self.supply(memory.load(slot, pointer_width())).run(memory),
            None => self,
        }
    }

    /// The slots that `run` reads, in order.
    pub open spec fn reads(self, memory: Memory) -> Seq<usize>
        decreases self.offsets.len() - self.hop,
    {
        match self.pending() {
            Some(slot) => seq![slot] + self.supply(memory.load(slot, pointer_width())).reads(
                memory,
            ),
            None => Seq::empty(),
        }
    }
}

/// A pointer chain being resolved.
pub struct ChainWalk {
    offsets: Vec<usize>,
    hop: usize,
    base: usize,
}

impl View for ChainWalk {
    type V = WalkView;

    closed spec fn view(&self) -> WalkView {
        WalkView { offsets: self.offsets@, hop: self.hop as nat, base: self.base }
    }
}

/// Adds an offset to an address as the target does, wrapping around.
pub fn add_offset(base: usize, offset: usize) -> (address: usize)
    ensures
        address == offset_address(base, offset),
{
    base.wrapping_add(offset)
}

impl ChainWalk {
    /// Begins to resolve `offsets` from `base`.
    pub fn new(base: usize, offsets: &[usize]) -> (walk: ChainWalk)
        ensures
            walk@ == WalkView::start(base, offsets@),
    {
        ChainWalk { offsets: slice_to_vec(offsets), hop: 0, base }
    }

    /// The pointer slot whose bytes the walk needs next, or `None` when it has arrived.
    pub fn pending(&self) -> (slot: Option<usize>)
        ensures
            slot == self@.pending(),
    {
        if self.offsets.len() > 0 && self.hop < self.offsets.len() - 1 {
            Some(add_offset(self.base, self.offsets[self.hop]))
        } else {
            None
        }
    }

    /// Follows the pointer read from the pending slot. The bytes are taken least
    /// significant first; bytes that are missing count as zero. A walk that has
    /// arrived ignores them.
    pub fn supply(&mut self, bytes: &[u8])
        ensures
            final(self)@ == old(self)@.supply(bytes@),
    {
        if self.offsets.len() > 0 && self.hop < self.offsets.len() - 1 {
            self.base = decode_pointer(bytes);
            self.hop = self.hop + 1;
        }
    }

    /// The address of the scalar, once the walk has arrived.
    pub fn address(&self) -> (address: Option<usize>)
        ensures
            address == self@.address(),
    {
        let len = self.offsets.len();
        if len > 0 && self.hop < len - 1 {
            None
        } else {
            Some(self.end())
        }
    }

    /// The address that the last offset gives from where the walk stands: the address
    /// of the scalar, once the walk has arrived.
    pub fn end(&self) -> (address: usize)
        ensures
            address == self@.end(),
    {
        let len = self.offsets.len();
        if len == 0 {
            self.base
        } else {
            add_offset(self.base, self.offsets[len - 1])
        }
    }
}

/// A walk answered from `memory` arrives where its remaining offsets lead, after reading
/// the slots on the way and nothing else.
pub proof fn lemma_run_from(walk: WalkView, memory: Memory)
    requires
        walk.offsets.len() == 0 || walk.hop < walk.offsets.len(),
    ensures
        !walk.run(memory).walking(),
        walk.run(memory).address() == Some(resolve(memory, walk.base, walk.rest())),
        walk.reads(memory) == slots(memory, walk.base, walk.rest()),
    decreases walk.offsets.len() - walk.hop,
{
    if walk.walking() {
        let next = walk.supply(memory.load(walk.slot(), pointer_width()));
        lemma_run_from(next, memory);
        assert(walk.rest().skip(1) =~= next.rest());
    }
}

/// Resolving a chain of `n >= 1` offsets reads exactly `n - 1` pointer slots, asks for no
/// write (a walk has no way to ask for one), and arrives at the address to which the
/// chain leads through the pointers that `memory` holds.
pub proof fn lemma_walk_resolves(memory: Memory, base: usize, offsets: Seq<usize>)
    requires
        offsets.len() >= 1,
    ensures
        WalkView::start(base, offsets).run(memory).address() == Some(
            resolve(memory, base, offsets),
        ),
        WalkView::start(base, offsets).reads(memory) == slots(memory, base, offsets),
        slots(memory, base, offsets).len() == offsets.len() - 1,
{
    let walk = WalkView::start(base, offsets);
    lemma_run_from(walk, memory);
    assert(walk.rest() =~= offsets);
    lemma_slots_len(memory, base, offsets);
}

/// A chain of `n` offsets passes through `n - 1` pointer slots, and the empty chain
/// through none.
pub proof fn lemma_slots_len(memory: Memory, base: usize, offsets: Seq<usize>)
    ensures
        slots(memory, base, offsets).len() == if offsets.len() == 0 {
            0
        } else {
            offsets.len() - 1
        },
    decreases offsets.len(),
{
    if offsets.len() > 1 {
        lemma_slots_len(
            memory,
            pointer_at(memory, offset_address(base, offsets[0])),
            offsets.skip(1),
        );
    }
}

/// A chain of one offset is resolved without a read: the walk arrives at once, at
/// `base + offset` wherever that sum is an address.
pub proof fn lemma_single_offset(base: usize, offset: usize)
    ensures
        WalkView::start(base, seq![offset]).pending() is None,
        WalkView::start(base, seq![offset]).address() == Some(offset_address(base, offset)),
        base + offset <= usize::MAX ==> offset_address(base, offset) == base + offset,
{
}

} // verus!
