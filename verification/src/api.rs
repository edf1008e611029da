//! Reading and writing one scalar of the target through its pointer chain.

use crate::codec::{
    decode_value, encode_value, lemma_value_round_trip, pointer_width, value_bits, value_bytes,
};
use crate::memory::{lemma_load_agrees, lemma_load_stored, Memory};
use crate::protocol::{Reply, ReplyView, Request, RequestView};
use crate::resolver::{offset_address, pointer_at, resolve, slots, ChainWalk, WalkView};
use vstd::prelude::*;

verus! {

/// The root from which every chain is resolved: the address at which the target's first
/// module is loaded.
pub struct APIHandle {
    pub base_address: usize,
}

/// Why no handle to the target could be made. Either failure is final.
#[derive(Clone, Copy, Debug, PartialEq, Eq, Structural)]
pub enum OpenError {
    /// No window carries the target's title.
    TargetNotFound,
    /// The target's process could not be opened for reading and writing.
    AccessDenied,
}

/// An access at one moment.
pub struct AccessView {
    pub walk: WalkView,
    /// The bit pattern to write, or `None` for a read.
    pub store: Option<u32>,
    /// The bit pattern that a finished read found.
    pub outcome: Option<u32>,
    pub done: bool,
}

impl AccessView {
    /// A read of the scalar at the end of `offsets`, before its first step.
    pub open spec fn read(base: usize, offsets: Seq<usize>) -> AccessView {
        AccessView { walk: WalkView::start(base, offsets), store: None, outcome: None, done: false }
    }

    /// A write of `bits` to the scalar at the end of `offsets`, before its first step.
    pub open spec fn write(base: usize, offsets: Seq<usize>, bits: u32) -> AccessView {
        AccessView {
            walk: WalkView::start(base, offsets),
            store: Some(bits),
            outcome: None,
            done: false,
        }
    }

    /// What the access waits for.
    pub open spec fn request(self) -> RequestView {
        if self.done {
            RequestView::Done
        } else if self.walk.walking() {
            RequestView::ReadPointer { address: self.walk.slot() }
        } else {
            match self.store {
                None => RequestView::ReadValue { address: self.walk.end() },
                Some(bits) => RequestView::WriteValue {
                    address: self.walk.end(),
                    bytes: value_bytes(bits),
                },
            }
        }
    }

    /// The access after a read was answered with `bytes`. An access that waits for no
    /// read stays as it is.
    pub open spec fn supply(self, bytes: Seq<u8>) -> AccessView {
        if self.done {
            self
        } else if self.walk.walking() {
            AccessView { walk: self.walk.supply(bytes), ..self }
        } else if self.store is None {
            AccessView { outcome: Some(value_bits(bytes)), done: true, ..self }
        } else {
            self
        }
    }

    /// Whether the access waits for its write.
    pub open spec fn writing(self) -> bool {
        !self.done && !self.walk.walking() && self.store is Some
    }

    /// The access after its write was carried out. An access that waits for no write
    /// stays as it is.
    pub open spec fn written(self) -> AccessView {
        if self.writing() {
            AccessView { done: true, ..self }
        } else {
            self
        }
    }

    /// The access after `reply`. A failure is passed over in silence: a read that failed
    /// counts as a read of zeros, a write that failed as a write. A reply that answers
    /// neither a read nor a write leaves the access as it is.
    pub open spec fn answer(self, reply: ReplyView) -> AccessView {
        match reply {
            ReplyView::Bytes(bytes) => self.supply(bytes),
            ReplyView::Written => self.written(),
            ReplyView::Failed => if self.writing() {
                self.written()
            } else {
                self.supply(Seq::empty())
            },
            _ => self,
        }
    }

    /// The access at its end and the address space it leaves, when every request is
    /// carried out on `memory`.
    pub open spec fn run(self, memory: Memory) -> (AccessView, Memory)
        decreases self.walk.offsets.len() - self.walk.hop,
    {
        match self.request() {
            RequestView::ReadPointer { address } => self.supply(
                memory.load(address, pointer_width()),
            ).run(memory),
            RequestView::ReadValue { address } => (self.supply(memory.load(address, 4)), memory),
            RequestView::WriteValue { address, bytes } => (
                self.written(),
                memory.store(address, bytes),
            ),
            _ => (self, memory),
        }
    }
}

/// The bit pattern of the scalar at the end of `offsets` in `memory`.
pub open spec fn read_value(memory: Memory, base: usize, offsets: Seq<usize>) -> u32 {
    value_bits(memory.load(resolve(memory, base, offsets), 4))
}

/// The address space after `bits` was written to the scalar at the end of `offsets`.
pub open spec fn write_value(memory: Memory, base: usize, offsets: Seq<usize>, bits: u32)
    -> Memory {
    memory.store(resolve(memory, base, offsets), value_bytes(bits))
}

/// Whether the `len` bytes from `address` on lie clear of the pointer slot at `slot`.
pub open spec fn clear_of_slot(address: usize, len: nat, slot: usize) -> bool {
    address + len <= slot || slot + pointer_width() <= address
}

/// Whether a write to the scalar at the end of `writer` leaves the chain `reader` as it
/// is: the scalar lies clear of every pointer slot on the chain.
pub open spec fn spares_chain(memory: Memory, base: usize, writer: Seq<usize>, reader: Seq<usize>)
    -> bool {
    forall|k: int|
        0 <= k < slots(memory, base, reader).len() ==> clear_of_slot(
            resolve(memory, base, writer),
            4,
            #[trigger] slots(memory, base, reader)[k],
        )
}

/// One read or write of a scalar in flight: the chain is walked anew, then the scalar
/// is read or written.
pub struct Access {
    walk: ChainWalk,
    store: Option<u32>,
    outcome: Option<u32>,
    done: bool,
}

impl View for Access {
    type V = AccessView;

    closed spec fn view(&self) -> AccessView {
        AccessView { walk: self.walk@, store: self.store, outcome: self.outcome, done: self.done }
    }
}

impl Access {
    /// What the caller is to do next for this access: read a pointer, read or write the
    /// scalar, or nothing once the access is done.
    pub fn request(&self) -> (request: Request)
        ensures
            request@ == self@.request(),
    {
        if self.done {
            return Request::Done;
        }
        match self.walk.pending() {
            Some(address) => Request::ReadPointer { address },
            None => {
                let address = self.walk.end();
                match self.store {
                    None => Request::ReadValue { address },
                    Some(bits) => Request::WriteValue { address, bytes: encode_value(bits) },
                }
            },
        }
    }

    /// Takes the bytes that the pending read found.
    pub fn supply(&mut self, bytes: &[u8])
        ensures
            final(self)@ == old(self)@.supply(bytes@),
    {
        if self.done {
            return ;
        }
        if self.walk.pending().is_some() {
            self.walk.supply(bytes);
        } else if self.store.is_none() {
            self.outcome = Some(decode_value(bytes));
            self.done = true;
        }
    }

    /// Takes note that the pending write was carried out.
    pub fn written(&mut self)
        ensures
            final(self)@ == old(self)@.written(),
    {
        if !self.done && self.walk.pending().is_none() && self.store.is_some() {
            self.done = true;
        }
    }

    /// Takes the caller's reply to the pending request.
    pub fn answer(&mut self, reply: &Reply)
        ensures
            final(self)@ == old(self)@.answer(reply@),
    {
        match reply {
            Reply::Bytes(bytes) => self.supply(bytes.as_slice()),
            Reply::Written => self.written(),
            Reply::Failed => {
                if !self.done && self.walk.pending().is_none() && self.store.is_some() {
                    self.written();
                } else {
                    let nothing: [u8; 0] = [];
                    self.supply(&nothing);
                }
            },
            _ => {},
        }
    }

    /// Whether the access is done.
    pub fn finished(&self) -> (done: bool)
        ensures
            done == self@.done,
    {
        self.done
    }

    /// The bit pattern that a finished read found.
    pub fn outcome(&self) -> (bits: Option<u32>)
        ensures
            bits == self@.outcome,
    {
        self.outcome
    }
}

impl APIHandle {
    /// Makes the handle from what the system answered when the target was looked for:
    /// the handle of the window that carries the target's title, the handle of the
    /// process that owns the window, opened for reading and writing, and the address of
    /// the first module loaded into it. A handle that the system did not give is zero.
    /// Without a window there is no target; without an open process it cannot be
    /// reached.
    pub fn new(window: usize, process: usize, first_module: usize) -> (handle: Result<
        APIHandle,
        OpenError,
    >)
        ensures
            window == 0 ==> handle == Err::<APIHandle, OpenError>(OpenError::TargetNotFound),
            window != 0 && process == 0 ==> handle == Err::<APIHandle, OpenError>(
                OpenError::AccessDenied,
            ),
            window != 0 && process != 0 ==> handle == Ok::<APIHandle, OpenError>(
                APIHandle { base_address: first_module },
            ),
    {
        if window == 0 {
            Err(OpenError::TargetNotFound)
        } else if process == 0 {
            Err(OpenError::AccessDenied)
        } else {
            Ok(APIHandle { base_address: first_module })
        }
    }

    /// Begins to resolve `offsets` from the module base.
    pub fn get_final_address(&self, offsets: &[usize]) -> (walk: ChainWalk)
        ensures
            walk@ == WalkView::start(self.base_address, offsets@),
    {
        ChainWalk::new(self.base_address, offsets)
    }

    /// Begins to read the scalar at the end of `offsets`.
    pub fn read_memory_f32(&self, offsets: &[usize]) -> (access: Access)
        ensures
            access@ == AccessView::read(self.base_address, offsets@),
    {
        Access { walk: self.get_final_address(offsets), store: None, outcome: None, done: false }
    }

    /// Begins to write the bit pattern `val` to the scalar at the end of `offsets`.
    pub fn write_memory_f32(&self, offsets: &[usize], val: u32) -> (access: Access)
        ensures
            access@ == AccessView::write(self.base_address, offsets@, val),
    {
        Access {
            walk: self.get_final_address(offsets),
            store: Some(val),
            outcome: None,
            done: false,
        }
    }
}

/// An access carried out on `memory` ends done. A read changes nothing and finds the
/// bytes at the address its remaining offsets lead to; a write stores its bytes there.
pub proof fn lemma_run_access(access: AccessView, memory: Memory)
    requires
        !access.done,
        access.walk.offsets.len() == 0 || access.walk.hop < access.walk.offsets.len(),
    ensures
        access.run(memory).0.done,
        access.run(memory).0.request() == RequestView::Done,
        access.store is None ==> access.run(memory).1 == memory && access.run(memory).0.outcome
            == Some(read_value(memory, access.walk.base, access.walk.rest())),
        access.store matches Some(bits) ==> access.run(memory).1 == write_value(
            memory,
            access.walk.base,
            access.walk.rest(),
            bits,
        ),
    decreases access.walk.offsets.len() - access.walk.hop,
{
    let walk = access.walk;
    if walk.walking() {
        let next = access.supply(memory.load(walk.slot(), pointer_width()));
        lemma_run_access(next, memory);
        assert(walk.rest().skip(1) =~= next.walk.rest());
    }
}

/// Reading through a chain: the requests of a read, carried out on `memory`, change
/// nothing and find the scalar at the end of the chain.
pub proof fn lemma_read_access(memory: Memory, base: usize, offsets: Seq<usize>)
    ensures
        AccessView::read(base, offsets).run(memory).1 == memory,
        AccessView::read(base, offsets).run(memory).0.outcome == Some(
            read_value(memory, base, offsets),
        ),
{
    let access = AccessView::read(base, offsets);
    lemma_run_access(access, memory);
    assert(access.walk.rest() =~= offsets);
}

/// Writing through a chain: the requests of a write, carried out on `memory`, store the
/// encoded scalar at the end of the chain.
pub proof fn lemma_write_access(memory: Memory, base: usize, offsets: Seq<usize>, bits: u32)
    ensures
        AccessView::write(base, offsets, bits).run(memory).1 == write_value(
            memory,
            base,
            offsets,
            bits,
        ),
{
    let access = AccessView::write(base, offsets, bits);
    lemma_run_access(access, memory);
    assert(access.walk.rest() =~= offsets);
}

/// A chain leads to the same address, through the same slots, in two address spaces that
/// hold the same pointers in those slots.
pub proof fn lemma_resolve_agrees(memory: Memory, other: Memory, base: usize, offsets: Seq<usize>)
    requires
        forall|i: int|
            0 <= i < slots(memory, base, offsets).len() ==> memory.agrees(
                other,
                #[trigger] slots(memory, base, offsets)[i],
                pointer_width(),
            ),
    ensures
        resolve(other, base, offsets) == resolve(memory, base, offsets),
        slots(other, base, offsets) == slots(memory, base, offsets),
    decreases offsets.len(),
{
    if offsets.len() > 1 {
        let slot = offset_address(base, offsets[0]);
        let next = pointer_at(memory, slot);
        let all = slots(memory, base, offsets);
        let tail = slots(memory, next, offsets.skip(1));
        assert(all[0] == slot);
        lemma_load_agrees(memory, other, slot, pointer_width());
        assert forall|i: int| 0 <= i < tail.len() implies memory.agrees(
            other,
            #[trigger] tail[i],
            pointer_width(),
        ) by {
            assert(all[i + 1] == tail[i]);
        }
        lemma_resolve_agrees(memory, other, next, offsets.skip(1));
    }
}

/// A write that spares a chain leaves the chain leading where it led, through the same
/// slots.
pub proof fn lemma_write_spares(
    memory: Memory,
    base: usize,
    writer: Seq<usize>,
    bits: u32,
    reader: Seq<usize>,
)
    requires
        spares_chain(memory, base, writer, reader),
    ensures
        resolve(write_value(memory, base, writer, bits), base, reader) == resolve(
            memory,
            base,
            reader,
        ),
        slots(write_value(memory, base, writer, bits), base, reader) == slots(
            memory,
            base,
            reader,
        ),
{
    lemma_resolve_agrees(memory, write_value(memory, base, writer, bits), base, reader);
}

/// A value written through a chain reads back through it bit for bit, provided the
/// write spares the chain: the scalar lies clear of the pointer slots that lead to it.
/// (A write that lands on one of those slots redirects the chain, and the read then
/// looks elsewhere.)
pub proof fn lemma_write_then_read(memory: Memory, base: usize, offsets: Seq<usize>, bits: u32)
    requires
        spares_chain(memory, base, offsets, offsets),
    ensures
        read_value(write_value(memory, base, offsets, bits), base, offsets) == bits,
        AccessView::read(base, offsets).run(
            AccessView::write(base, offsets, bits).run(memory).1,
        ).0.outcome == Some(bits),
{
    let after = write_value(memory, base, offsets, bits);
    lemma_write_spares(memory, base, offsets, bits, offsets);
    lemma_value_round_trip(bits);
    lemma_load_stored(memory, resolve(memory, base, offsets), value_bytes(bits));
    lemma_write_access(memory, base, offsets, bits);
    lemma_read_access(after, base, offsets);
}

} // verus!
