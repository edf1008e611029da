//! Why a lock holds: after every tick the target holds, for every locked parameter,
//! the value it is locked at. And why toggling a lock an even number of times
//! restores it.
//!
//! This needs the registry to lie apart in the target: a scalar must not overlap
//! another scalar or a pointer slot on the way to one. Where two parameters share
//! bytes their locks fight, and where a scalar lies on a pointer slot a write to it
//! redirects a chain.

use crate::api::{
    lemma_write_spares, lemma_write_then_read, read_value, spares_chain, write_value,
};
use crate::input_handler::{lemma_position_by_names, EditorView, NumMode, ParameterView};
use crate::keys::{first_new, Key};
use crate::memory::{lemma_load_agrees, Memory};
use crate::resolver::{resolve, slots};
use crate::tick::{acted, displayed, ticked, World};
use vstd::prelude::*;

verus! {

/// Whether the scalars at the ends of two chains share no byte.
pub open spec fn scalars_apart(memory: Memory, base: usize, one: Seq<usize>, other: Seq<usize>)
    -> bool {
    let here = resolve(memory, base, one);
    let there = resolve(memory, base, other);
    here + 4 <= there || there + 4 <= here
}

/// Whether the parameters at `one` and `other` lie apart: a write to the first leaves
/// the chain of the second as it is and, if they are two, its scalar too.
pub open spec fn pair_apart(
    memory: Memory,
    base: usize,
    parameters: Seq<ParameterView>,
    one: int,
    other: int,
) -> bool {
    &&& spares_chain(memory, base, parameters[one].address, parameters[other].address)
    &&& one != other ==> scalars_apart(
        memory,
        base,
        parameters[one].address,
        parameters[other].address,
    )
}

/// Whether the registry lies apart in `memory`.
pub open spec fn apart(memory: Memory, base: usize, parameters: Seq<ParameterView>) -> bool {
    forall|one: int, other: int|
        0 <= one < parameters.len() && 0 <= other < parameters.len() ==> #[trigger] pair_apart(
            memory,
            base,
            parameters,
            one,
            other,
        )
}

/// Whether the target holds, for every locked parameter, the value it is locked at.
pub open spec fn pinned(memory: Memory, base: usize, parameters: Seq<ParameterView>) -> bool {
    forall|at: int|
        0 <= at < parameters.len() ==> ((#[trigger] parameters[at]).locked matches Some(bits)
            ==> read_value(memory, base, parameters[at].address) == bits)
}

/// A write leaves the value of a parameter that lies apart from it as it is.
pub proof fn lemma_write_keeps_value(
    memory: Memory,
    base: usize,
    writer: Seq<usize>,
    bits: u32,
    reader: Seq<usize>,
)
    requires
        spares_chain(memory, base, writer, reader),
        scalars_apart(memory, base, writer, reader),
    ensures
        read_value(write_value(memory, base, writer, bits), base, reader) == read_value(
            memory,
            base,
            reader,
        ),
{
    lemma_write_spares(memory, base, writer, bits, reader);
    lemma_load_agrees(
        memory,
        write_value(memory, base, writer, bits),
        resolve(memory, base, reader),
        4,
    );
}

/// A write to a parameter of a registry that lies apart leaves the registry lying apart,
/// pins the parameter at the value written and leaves every other value as it is.
pub proof fn lemma_write_in_registry(
    memory: Memory,
    base: usize,
    parameters: Seq<ParameterView>,
    at: int,
    bits: u32,
)
    requires
        apart(memory, base, parameters),
        0 <= at < parameters.len(),
    ensures
        ({
            let after = write_value(memory, base, parameters[at].address, bits);
            &&& apart(after, base, parameters)
            &&& read_value(after, base, parameters[at].address) == bits
            &&& forall|other: int|
                0 <= other < parameters.len() && other != at ==> read_value(
                    after,
                    base,
                    (#[trigger] parameters[other]).address,
                ) == read_value(memory, base, parameters[other].address)
        }),
{
    let writer = parameters[at].address;
    let after = write_value(memory, base, writer, bits);
    assert forall|other: int| 0 <= other < parameters.len() implies resolve(
        after,
        base,
        (#[trigger] parameters[other]).address,
    ) == resolve(memory, base, parameters[other].address) && slots(
        after,
        base,
        parameters[other].address,
    ) == slots(memory, base, parameters[other].address) by {
        assert(pair_apart(memory, base, parameters, at, other));
        lemma_write_spares(memory, base, writer, bits, parameters[other].address);
    }
    assert forall|one: int, other: int|
        0 <= one < parameters.len() && 0 <= other < parameters.len() implies #[trigger] pair_apart(
        after,
        base,
        parameters,
        one,
        other,
    ) by {
        assert(pair_apart(memory, base, parameters, one, other));
    }
    assert(pair_apart(memory, base, parameters, at, at));
    lemma_write_then_read(memory, base, writer, bits);
    assert forall|other: int| 0 <= other < parameters.len() && other != at implies read_value(
        after,
        base,
        (#[trigger] parameters[other]).address,
    ) == read_value(memory, base, parameters[other].address) by {
        assert(pair_apart(memory, base, parameters, at, other));
        lemma_write_keeps_value(memory, base, writer, bits, parameters[other].address);
    }
}

/// Whether two registries hold the same chains in the same places.
pub open spec fn same_chains(parameters: Seq<ParameterView>, others: Seq<ParameterView>) -> bool {
    &&& parameters.len() == others.len()
    &&& forall|at: int|
        0 <= at < parameters.len() ==> (#[trigger] parameters[at]).address == others[at].address
}

/// Lying apart is a matter of the chains alone.
pub proof fn lemma_apart_by_chains(
    memory: Memory,
    base: usize,
    parameters: Seq<ParameterView>,
    others: Seq<ParameterView>,
)
    requires
        apart(memory, base, parameters),
        same_chains(parameters, others),
    ensures
        apart(memory, base, others),
{
    assert forall|one: int, other: int|
        0 <= one < others.len() && 0 <= other < others.len() implies #[trigger] pair_apart(
        memory,
        base,
        others,
        one,
        other,
    ) by {
        assert(pair_apart(memory, base, parameters, one, other));
    }
}

/// The display of the parameters from place `at` on leaves the registry lying apart,
/// leaves every lock from `at` on pinned, and leaves every other value as it was.
pub proof fn lemma_display_pins(editor: EditorView, world: World, base: usize, at: int)
    requires
        apart(world.memory, base, editor.parameters),
        0 <= at,
    ensures
        ({
            let memory = displayed(editor, world, base, at).1;
            &&& apart(memory, base, editor.parameters)
            &&& forall|i: int|
                0 <= i < editor.parameters.len() ==> read_value(
                    memory,
                    base,
                    (#[trigger] editor.parameters[i]).address,
                ) == match editor.parameters[i].locked {
                    Some(bits) if at <= i => bits,
                    _ => read_value(world.memory, base, editor.parameters[i].address),
                }
        }),
    decreases editor.parameters.len() - at,
{
    let parameters = editor.parameters;
    if at < parameters.len() {
        let written = match parameters[at].locked {
            Some(bits) => {
                lemma_write_in_registry(world.memory, base, parameters, at, bits);
                write_value(world.memory, base, parameters[at].address, bits)
            },
            None => world.memory,
        };
        lemma_display_pins(editor, world.with_memory(written), base, at + 1);
    }
}

/// The key press of a tick keeps the locks pinned: it changes a lock only to a value
/// that the target holds, and a value only together with its lock.
pub proof fn lemma_acted_pins(editor: EditorView, world: World, base: usize)
    requires
        apart(world.memory, base, editor.parameters),
        pinned(world.memory, base, editor.parameters),
    ensures
        ({
            let (after, memory) = acted(editor, world, base);
            &&& same_chains(editor.parameters, after.parameters)
            &&& apart(memory, base, after.parameters)
            &&& pinned(memory, base, after.parameters)
        }),
{
    let (after, memory) = acted(editor, world, base);
    let parameters = editor.parameters;
    // A number committed is written to the selected parameter.
    match ((world.parse)(editor.pending), editor.position(editor.selected)) {
        (Some(number), Some(index)) => {
            let value = match editor.mode {
                NumMode::Assign => number,
                NumMode::Increase => (world.sum)(
                    number,
                    read_value(world.memory, base, parameters[index].address),
                ),
            };
            lemma_write_in_registry(world.memory, base, parameters, index, value);
        },
        _ => {},
    }
    lemma_apart_by_chains(memory, base, parameters, after.parameters);
}

/// A lock holds. In a registry that lies apart, every tick leaves the target holding,
/// for every parameter that is locked after it, the value it is locked at, whatever the
/// target held before and whichever key went down; and it leaves the registry lying
/// apart. So a locked parameter shows its locked value at the next tick, unless an
/// outsider writes to it in between.
pub proof fn lemma_tick_pins_locks(editor: EditorView, world: World, base: usize)
    requires
        apart(world.memory, base, editor.parameters),
    ensures
        ({
            let (after, text, left) = ticked(editor, world, base);
            &&& same_chains(editor.parameters, after.parameters)
            &&& apart(left.memory, base, after.parameters)
            &&& pinned(left.memory, base, after.parameters)
        }),
{
    lemma_display_pins(editor, world, base, 0);
    let shown = displayed(editor, world, base, 0).1;
    lemma_acted_pins(editor, world.with_memory(shown), base);
}

/// A display that finds the locks pinned leaves every value as it was: writing a lock
/// back where it already stands changes nothing.
pub proof fn lemma_display_of_pinned(editor: EditorView, world: World, base: usize, at: int)
    requires
        apart(world.memory, base, editor.parameters),
        pinned(world.memory, base, editor.parameters),
        0 <= at,
    ensures
        forall|i: int|
            0 <= i < editor.parameters.len() ==> read_value(
                displayed(editor, world, base, at).1,
                base,
                (#[trigger] editor.parameters[i]).address,
            ) == read_value(world.memory, base, editor.parameters[i].address),
{
    lemma_display_pins(editor, world, base, at);
}

/// Whether `after` is `editor` with, at most, another lock on the selected parameter:
/// the registry holds the same names and chains, every other parameter keeps its lock,
/// and the selection, the mode and the pending text are the same.
pub open spec fn differs_in_lock(editor: EditorView, after: EditorView) -> bool {
    &&& after.selected == editor.selected
    &&& after.mode == editor.mode
    &&& after.pending == editor.pending
    &&& after.parameters.len() == editor.parameters.len()
    &&& forall|at: int|
        0 <= at < editor.parameters.len() ==> {
            &&& (#[trigger] after.parameters[at]).name == editor.parameters[at].name
            &&& after.parameters[at].address == editor.parameters[at].address
            &&& editor.position(editor.selected) != Some(at) ==> after.parameters[at].locked
                == editor.parameters[at].locked
        }
}

/// Whether the key press of a tick that finds the keys `held` down is the lock key or
/// none at all.
pub open spec fn lock_or_nothing(world: World, held: Seq<Key>) -> bool {
    first_new(world.held, held) is None || first_new(world.held, held) == Some(Key::L)
}

/// The lock of a parameter after a tick: a press of the lock key releases a lock and
/// pins a free parameter at the value `found` in the target; without a press the lock
/// stays.
pub open spec fn lock_after(locked: Option<u32>, pressed: bool, found: u32) -> Option<u32> {
    if !pressed {
        locked
    } else if locked is Some {
        None
    } else {
        Some(found)
    }
}

/// Whether the selected parameter has the same value in both address spaces. A
/// selection without a parameter asks nothing.
pub open spec fn value_kept(editor: EditorView, before: Memory, after: Memory, base: usize) -> bool {
    editor.position(editor.selected) matches Some(index) ==> read_value(
        after,
        base,
        editor.parameters[index].address,
    ) == read_value(before, base, editor.parameters[index].address)
}

/// One tick in which the lock key is pressed, or no key at all. Nothing in the editor
/// changes but the lock of the selected parameter. The tick leaves that parameter at
/// the value it was locked at or, if it was free, at the value it had; and a lock taken
/// pins that value.
pub proof fn lemma_lock_tick(editor: EditorView, world: World, base: usize)
    requires
        apart(world.memory, base, editor.parameters),
        lock_or_nothing(world, editor.held),
    ensures
        ({
            let (after, text, left) = ticked(editor, world, base);
            &&& differs_in_lock(editor, after)
            &&& after.held == world.held
            &&& editor.position(editor.selected) matches Some(index) ==> {
                let parameter = editor.parameters[index];
                let found = match parameter.locked {
                    Some(bits) => bits,
                    None => read_value(world.memory, base, parameter.address),
                };
                &&& read_value(left.memory, base, parameter.address) == found
                &&& after.parameters[index].locked == lock_after(
                    parameter.locked,
                    first_new(world.held, editor.held) == Some(Key::L),
                    found,
                )
            }
        }),
{
    lemma_display_pins(editor, world, base, 0);
}

/// A change of the selected parameter's lock, followed by another, is one such change,
/// and the selected parameter stays in its place.
pub proof fn lemma_differs_in_lock_twice(editor: EditorView, middle: EditorView, after: EditorView)
    requires
        differs_in_lock(editor, middle),
        differs_in_lock(middle, after),
    ensures
        differs_in_lock(editor, after),
        middle.position(middle.selected) == editor.position(editor.selected),
        same_chains(editor.parameters, middle.parameters),
{
    lemma_position_by_names(editor.parameters, middle.parameters, editor.selected);
}

/// Toggling the lock twice restores it. Take three ticks: the lock key goes down, it is
/// released, it goes down again. If the registry lies apart in the target and nobody
/// else changes the value of the selected parameter between the ticks, the registry is
/// afterwards what it was: the selected parameter is locked at its old value or free
/// again, and no other lock has changed.
pub proof fn lemma_lock_toggled_twice(
    editor: EditorView,
    press: World,
    release: World,
    again: World,
    base: usize,
)
    requires
        first_new(press.held, editor.held) == Some(Key::L),
        first_new(release.held, press.held) is None,
        first_new(again.held, release.held) == Some(Key::L),
        apart(press.memory, base, editor.parameters),
        apart(release.memory, base, editor.parameters),
        apart(again.memory, base, editor.parameters),
        value_kept(editor, ticked(editor, press, base).2.memory, release.memory, base),
        value_kept(
            editor,
            ticked(ticked(editor, press, base).0, release, base).2.memory,
            again.memory,
            base,
        ),
    ensures
        ticked(ticked(ticked(editor, press, base).0, release, base).0, again, base).0.parameters
            == editor.parameters,
{
    let once = ticked(editor, press, base).0;
    let rested = ticked(once, release, base).0;
    let twice = ticked(rested, again, base).0;
    lemma_lock_tick(editor, press, base);
    lemma_apart_by_chains(release.memory, base, editor.parameters, once.parameters);
    lemma_lock_tick(once, release, base);
    lemma_apart_by_chains(again.memory, base, editor.parameters, rested.parameters);
    lemma_lock_tick(rested, again, base);
    lemma_differs_in_lock_twice(editor, rested, twice);
}

/// The editor after the ticks `ticks`, one after another.
pub open spec fn ticked_each(editor: EditorView, ticks: Seq<World>, base: usize) -> EditorView
    decreases ticks.len(),
{
    if ticks.len() == 0 {
        editor
    } else {
        ticked(ticked_each(editor, ticks.drop_last(), base), ticks.last(), base).0
    }
}

/// The address space that the last of the ticks `ticks` leaves.
pub open spec fn left_by(editor: EditorView, ticks: Seq<World>, base: usize) -> Memory {
    ticked(ticked_each(editor, ticks.drop_last(), base), ticks.last(), base).2.memory
}

/// How many of the ticks `ticks` press the lock key.
pub open spec fn lock_presses(editor: EditorView, ticks: Seq<World>, base: usize) -> nat
    decreases ticks.len(),
{
    if ticks.len() == 0 {
        0
    } else {
        let earlier = ticks.drop_last();
        let pressed = first_new(ticks.last().held, ticked_each(editor, earlier, base).held)
            == Some(Key::L);
        lock_presses(editor, earlier, base) + if pressed {
            1nat
        } else {
            0nat
        }
    }
}

/// Whether the ticks `ticks` do nothing but toggle the lock: in each the lock key goes
/// down or no key at all, each finds the registry lying apart in the target, and
/// between two ticks nobody else changes the value of the selected parameter.
pub open spec fn only_lock_toggled(editor: EditorView, ticks: Seq<World>, base: usize) -> bool
    decreases ticks.len(),
{
    ticks.len() == 0 || {
        let earlier = ticks.drop_last();
        &&& only_lock_toggled(editor, earlier, base)
        &&& lock_or_nothing(ticks.last(), ticked_each(editor, earlier, base).held)
        &&& apart(ticks.last().memory, base, editor.parameters)
        &&& earlier.len() > 0 ==> value_kept(
            editor,
            left_by(editor, earlier, base),
            ticks.last().memory,
            base,
        )
    }
}

/// Whether `after` is `editor` after `presses` presses of the lock key: nothing differs
/// but the lock of the selected parameter, which is as it was after an even number of
/// presses and the other way round after an odd number.
pub open spec fn toggled(editor: EditorView, after: EditorView, presses: nat) -> bool {
    &&& differs_in_lock(editor, after)
    &&& editor.position(editor.selected) matches Some(index) ==> {
        let before = editor.parameters[index].locked;
        let now = after.parameters[index].locked;
        &&& presses % 2 == 0 ==> now == before
        &&& presses % 2 == 1 ==> (now is Some) != (before is Some)
    }
}

/// Whether the target holds, where the selected parameter lies, the value that the
/// parameter is locked at in `editor`. A free parameter asks nothing.
pub open spec fn value_kept_at_lock(editor: EditorView, memory: Memory, base: usize) -> bool {
    editor.position(editor.selected) matches Some(index) ==> (
    editor.parameters[index].locked matches Some(bits) ==> read_value(
        memory,
        base,
        editor.parameters[index].address,
    ) == bits)
}

/// Ticks that do nothing but toggle the lock leave the editor toggled as often as the
/// key was pressed, and they leave a parameter that was locked at the start at the value
/// it was locked at.
proof fn lemma_lock_ticks(editor: EditorView, ticks: Seq<World>, base: usize)
    requires
        only_lock_toggled(editor, ticks, base),
    ensures
        toggled(editor, ticked_each(editor, ticks, base), lock_presses(editor, ticks, base)),
        ticks.len() > 0 ==> value_kept_at_lock(editor, left_by(editor, ticks, base), base),
    decreases ticks.len(),
{
    if ticks.len() > 0 {
        let earlier = ticks.drop_last();
        let middle = ticked_each(editor, earlier, base);
        lemma_lock_ticks(editor, earlier, base);
        lemma_apart_by_chains(ticks.last().memory, base, editor.parameters, middle.parameters);
        lemma_lock_tick(middle, ticks.last(), base);
        lemma_differs_in_lock_twice(editor, middle, ticked_each(editor, ticks, base));
    }
}

/// Toggling the lock an even number of times restores it. Take any number of ticks in
/// which the lock key goes down or no key at all. If the registry lies apart in the
/// target and nobody else changes the value of the selected parameter between the
/// ticks, then no lock but that of the selected parameter ever changes; after an even
/// number of presses the registry is what it was at the start, locks and locked values
/// alike; and after an odd number the selected parameter is locked if it was free and
/// free if it was locked.
pub proof fn lemma_lock_toggled_evenly(editor: EditorView, ticks: Seq<World>, base: usize)
    requires
        only_lock_toggled(editor, ticks, base),
    ensures
        differs_in_lock(editor, ticked_each(editor, ticks, base)),
        lock_presses(editor, ticks, base) % 2 == 0 ==> ticked_each(editor, ticks, base).parameters
            == editor.parameters,
        lock_presses(editor, ticks, base) % 2 == 1 ==> (editor.position(editor.selected) matches Some(
            index,
        ) ==> (ticked_each(editor, ticks, base).parameters[index].locked is Some) != (
        editor.parameters[index].locked is Some)),
{
    lemma_lock_ticks(editor, ticks, base);
}

} // verus!
