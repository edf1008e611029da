//! What a whole tick amounts to.
//!
//! The editor advances one reply at a time. Here the caller's side is pictured as
//! mathematics, a [`World`], the conversation is run to its end against it, and the
//! result is compared with a plain account of a tick: sample and show every
//! parameter, write every lock back, then act on the key that went down.

use crate::api::{lemma_run_access, read_value, write_value, AccessView};
use crate::codec::pointer_width;
use crate::input_handler::{
    lemma_position_by_names, EditorView, NumMode, Purpose, StageView,
};
use crate::keys::{first_new, Key};
use crate::memory::Memory;
use crate::protocol::{ReplyView, RequestView};
use vstd::prelude::*;

verus! {

/// Everything outside the library during one tick: the target's address space, the keys
/// held down when the editor asks, and the caller's arithmetic on numbers.
pub struct World {
    pub memory: Memory,
    pub held: Seq<Key>,
    /// The rendering of a number to four decimal places.
    pub render: spec_fn(u32) -> Seq<char>,
    /// The number that a text stands for, if it stands for one.
    pub parse: spec_fn(Seq<char>) -> Option<u32>,
    /// The sum of two numbers.
    pub sum: spec_fn(u32, u32) -> u32,
}

impl World {
    /// The world with another address space.
    pub open spec fn with_memory(self, memory: Memory) -> World {
        World { memory, ..self }
    }

    /// The reply that a faithful caller gives to `request`, and the world after the
    /// request was carried out. Nothing fails in this world, and to `Done` there is no
    /// reply: the one given here is never used.
    pub open spec fn answer(self, request: RequestView) -> (ReplyView, World) {
        match request {
            RequestView::ReadPointer { address } => (
                ReplyView::Bytes(self.memory.load(address, pointer_width())),
                self,
            ),
            RequestView::ReadValue { address } => (
                ReplyView::Bytes(self.memory.load(address, 4)),
                self,
            ),
            RequestView::WriteValue { address, bytes } => (
                ReplyView::Written,
                self.with_memory(self.memory.store(address, bytes)),
            ),
            RequestView::Format { value } => (ReplyView::Text((self.render)(value)), self),
            RequestView::Keys => (ReplyView::Keys(self.held), self),
            RequestView::Parse { text } => (ReplyView::Parsed((self.parse)(text)), self),
            RequestView::Add { left, right } => (ReplyView::Sum((self.sum)(left, right)), self),
            RequestView::Done => (ReplyView::Begin, self),
        }
    }
}

/// The conversation carried on from `editor` for `fuel` requests, or until the editor
/// asks for nothing more: the editor, the text and the world it ends with.
pub open spec fn drive(editor: EditorView, text: Seq<char>, world: World, base: usize, fuel: nat)
    -> (EditorView, Seq<char>, World)
    decreases fuel,
{
    if fuel == 0 || editor.request() == RequestView::Done {
        (editor, text, world)
    } else {
        let (reply, world) = world.answer(editor.request());
        let (editor, text) = editor.step(text, reply, base);
        drive(editor, text, world, base, (fuel - 1) as nat)
    }
}

/// A conversation of `first + then` requests is one of `first` requests carried on for
/// `then` more.
pub proof fn lemma_drive_on(
    editor: EditorView,
    text: Seq<char>,
    world: World,
    base: usize,
    first: nat,
    then: nat,
)
    ensures
        drive(editor, text, world, base, first + then) == ({
            let (editor, text, world) = drive(editor, text, world, base, first);
            drive(editor, text, world, base, then)
        }),
    decreases first,
{
    if first > 0 && editor.request() != RequestView::Done {
        let (reply, next_world) = world.answer(editor.request());
        let (next, next_text) = editor.step(text, reply, base);
        lemma_drive_on(next, next_text, next_world, base, (first - 1) as nat, then);
    }
}

/// An access in flight runs to its end: after the returned number of requests the
/// editor stands where the finished access leaves it, and the address space is the one
/// the access leaves.
pub proof fn lemma_drive_access(
    editor: EditorView,
    text: Seq<char>,
    world: World,
    base: usize,
    purpose: Purpose,
    index: int,
    access: AccessView,
) -> (fuel: nat)
    requires
        editor.stage == (StageView::Access { purpose, index, access }),
        !access.done,
        access.walk.offsets.len() == 0 || access.walk.hop < access.walk.offsets.len(),
    ensures
        drive(editor, text, world, base, fuel) == ({
            let (after, memory) = access.run(world.memory);
            let (editor, text) = editor.complete(text, purpose, index, after.outcome, base);
            (editor, text, world.with_memory(memory))
        }),
    decreases access.walk.offsets.len() - access.walk.hop,
{
    let (reply, next_world) = world.answer(editor.request());
    let (next, next_text) = editor.step(text, reply, base);
    if access.walk.walking() {
        let supplied = access.answer(reply);
        let rest = lemma_drive_access(next, next_text, next_world, base, purpose, index, supplied);
        rest + 1
    } else {
        assert(drive(next, next_text, next_world, base, 0) == (next, next_text, next_world));
        1
    }
}

/// The display of the parameters from place `at` on: for each in turn its line, showing
/// the value found in the target, and then its lock written back. Returns the lines and
/// the address space that the locks leave.
pub open spec fn displayed(editor: EditorView, world: World, base: usize, at: int) -> (
    Seq<char>,
    Memory,
)
    decreases editor.parameters.len() - at,
{
    if 0 <= at < editor.parameters.len() {
        let parameter = editor.parameters[at];
        let value = read_value(world.memory, base, parameter.address);
        let line = editor.line(at, (world.render)(value));
        let memory = match parameter.locked {
            Some(bits) => write_value(world.memory, base, parameter.address, bits),
            None => world.memory,
        };
        let (lines, memory) = displayed(editor, world.with_memory(memory), base, at + 1);
        (line + lines, memory)
    } else {
        (Seq::empty(), world.memory)
    }
}

/// What the key press of the tick does, if there is one: the editor and the address
/// space after it. A lock taken pins the value found in the target; a number committed
/// is written to the target, alone or added to the value found there, and moves the lock
/// of a locked parameter with it. Every other key changes the editor alone.
pub open spec fn acted(editor: EditorView, world: World, base: usize) -> (EditorView, Memory) {
    let key = first_new(world.held, editor.held);
    let heard = EditorView { held: world.held, ..editor };
    let memory = world.memory;
    match (key, editor.position(editor.selected)) {
        (Some(Key::L), Some(index)) => {
            let parameter = editor.parameters[index];
            match parameter.locked {
                Some(_) => (heard.relocked(index, None).idle(), memory),
                None => (
                    heard.relocked(
                        index,
                        Some(read_value(memory, base, parameter.address)),
                    ).idle(),
                    memory,
                ),
            }
        },
        (Some(Key::Enter), Some(index)) | (Some(Key::Q), Some(index)) => {
            let parameter = editor.parameters[index];
            match (world.parse)(editor.pending) {
                Some(number) => {
                    let value = match editor.mode {
                        NumMode::Assign => number,
                        NumMode::Increase => (world.sum)(
                            number,
                            read_value(memory, base, parameter.address),
                        ),
                    };
                    let after = match parameter.locked {
                        Some(_) => heard.relocked(index, Some(value)),
                        None => heard,
                    };
                    (after.idle(), write_value(memory, base, parameter.address, value))
                },
                None => (heard.idle(), memory),
            }
        },
        (Some(Key::Enter), None) | (Some(Key::Q), None) => (heard.idle(), memory),
        _ => (heard.press(key, base), memory),
    }
}

/// A whole tick: the editor, the text and the world after it.
pub open spec fn ticked(editor: EditorView, world: World, base: usize) -> (
    EditorView,
    Seq<char>,
    World,
) {
    let (lines, memory) = displayed(editor, world, base, 0);
    let (after, memory) = acted(editor, world.with_memory(memory), base);
    (after, lines + editor.prompt(), world.with_memory(memory))
}

/// The display runs to its end: from the moment the editor turns to the parameter at
/// `at`, the returned number of requests brings it to the keyboard, with the lines of
/// the remaining parameters and the prompt added to the text and every lock on the way
/// written back.
pub proof fn lemma_drive_display(
    editor: EditorView,
    text: Seq<char>,
    world: World,
    base: usize,
    at: int,
) -> (fuel: nat)
    requires
        0 <= at,
    ensures
        ({
            let (start, begun) = editor.sample(text, at, base);
            let (lines, memory) = displayed(editor, world, base, at);
            drive(start, begun, world, base, fuel) == (
                editor.staged(StageView::Polling),
                text + lines + editor.prompt(),
                world.with_memory(memory),
            )
        }),
    decreases editor.parameters.len() - at,
{
    let (start, begun) = editor.sample(text, at, base);
    if at < editor.parameters.len() {
        let parameter = editor.parameters[at];
        // The parameter is sampled.
        let read = AccessView::read(base, parameter.address);
        let sampling = lemma_drive_access(start, begun, world, base, Purpose::Sample, at, read);
        lemma_run_access(read, world.memory);
        assert(read.walk.rest() =~= parameter.address);
        let value = read_value(world.memory, base, parameter.address);
        let (sampled, sampled_text, sampled_world) = drive(start, begun, world, base, sampling);
        // Its value is rendered and its line added.
        let line = editor.line(at, (world.render)(value));
        let (shown, shown_text) = sampled.step(
            sampled_text,
            ReplyView::Text((world.render)(value)),
            base,
        );
        assert(drive(sampled, sampled_text, world, base, 1) == (shown, shown_text, world)) by {
            assert(drive(shown, shown_text, world, base, 0) == (shown, shown_text, world));
        }
        lemma_drive_on(start, begun, world, base, sampling, 1);
        // Its lock is written back.
        let (reasserting, locked_world) = match parameter.locked {
            Some(bits) => {
                let write = AccessView::write(base, parameter.address, bits);
                let reasserting = lemma_drive_access(
                    shown,
                    shown_text,
                    world,
                    base,
                    Purpose::Reassert,
                    at,
                    write,
                );
                lemma_run_access(write, world.memory);
                (
                    reasserting,
                    world.with_memory(write_value(world.memory, base, parameter.address, bits)),
                )
            },
            None => (0nat, world),
        };
        lemma_drive_on(start, begun, world, base, sampling + 1, reasserting);
        // The remaining parameters follow.
        let rest = lemma_drive_display(editor, text + line, locked_world, base, at + 1);
        lemma_drive_on(start, begun, world, base, sampling + 1 + reasserting, rest);
        sampling + 1 + reasserting + rest
    } else {
        0
    }
}

/// A value is written to the parameter at `index` and the commit ends: the returned
/// number of requests stores it in the target and moves the lock of a locked parameter.
proof fn lemma_drive_store(
    editor: EditorView,
    text: Seq<char>,
    world: World,
    base: usize,
    index: int,
    value: u32,
) -> (fuel: nat)
    requires
        0 <= index < editor.parameters.len(),
    ensures
        ({
            let parameter = editor.parameters[index];
            let after = match parameter.locked {
                Some(_) => editor.relocked(index, Some(value)),
                None => editor,
            };
            drive(editor.store(index, value, base), text, world, base, fuel) == (
                after.idle(),
                text,
                world.with_memory(write_value(world.memory, base, parameter.address, value)),
            )
        }),
{
    let parameter = editor.parameters[index];
    let write = AccessView::write(base, parameter.address, value);
    let fuel = lemma_drive_access(
        editor.store(index, value, base),
        text,
        world,
        base,
        Purpose::Store { value },
        index,
        write,
    );
    lemma_run_access(write, world.memory);
    assert(write.walk.rest() =~= parameter.address);
    fuel
}

/// The key press runs to its end: from the moment the editor turns to the keyboard,
/// the returned number of requests carries out what the key asks for.
pub proof fn lemma_drive_keys(editor: EditorView, text: Seq<char>, world: World, base: usize) -> (fuel:
    nat)
    requires
        editor.stage is Polling,
    ensures
        drive(editor, text, world, base, fuel) == (
            acted(editor, world, base).0,
            text,
            world.with_memory(acted(editor, world, base).1),
        ),
{
    let key = first_new(world.held, editor.held);
    let heard = EditorView { held: world.held, ..editor };
    let (pressed, pressed_text) = editor.step(text, ReplyView::Keys(world.held), base);
    let place = editor.position(editor.selected);
    let then: nat = match (key, place) {
        (Some(Key::L), Some(index)) => {
            let parameter = editor.parameters[index];
            match parameter.locked {
                Some(_) => 0,
                None => {
                    let read = AccessView::read(base, parameter.address);
                    let capturing = lemma_drive_access(
                        pressed,
                        text,
                        world,
                        base,
                        Purpose::Capture,
                        index,
                        read,
                    );
                    lemma_run_access(read, world.memory);
                    assert(read.walk.rest() =~= parameter.address);
                    capturing
                },
            }
        },
        (Some(Key::Enter), _) | (Some(Key::Q), _) => {
            let parsed = (world.parse)(editor.pending);
            let (committed, committed_text) = pressed.step(text, ReplyView::Parsed(parsed), base);
            assert(drive(pressed, text, world, base, 1) == (committed, text, world)) by {
                assert(drive(committed, text, world, base, 0) == (committed, text, world));
            }
            let rest: nat = match (parsed, place) {
                (Some(number), Some(index)) => {
                    let parameter = editor.parameters[index];
                    match editor.mode {
                        NumMode::Assign => lemma_drive_store(
                            heard,
                            text,
                            world,
                            base,
                            index,
                            number,
                        ),
                        NumMode::Increase => {
                            let read = AccessView::read(base, parameter.address);
                            let fetching = lemma_drive_access(
                                committed,
                                text,
                                world,
                                base,
                                Purpose::Fetch { addend: number },
                                index,
                                read,
                            );
                            lemma_run_access(read, world.memory);
                            assert(read.walk.rest() =~= parameter.address);
                            let current = read_value(world.memory, base, parameter.address);
                            let fetched = heard.staged(
                                StageView::Summing { index, addend: number, current },
                            );
                            let total = (world.sum)(number, current);
                            let (summed, summed_text) = fetched.step(
                                text,
                                ReplyView::Sum(total),
                                base,
                            );
                            assert(drive(fetched, text, world, base, 1) == (summed, text, world))
                                by {
                                assert(drive(summed, text, world, base, 0) == (
                                    summed,
                                    text,
                                    world,
                                ));
                            }
                            let storing = lemma_drive_store(heard, text, world, base, index, total);
                            lemma_drive_on(committed, text, world, base, fetching, 1);
                            lemma_drive_on(committed, text, world, base, fetching + 1, storing);
                            fetching + 1 + storing
                        },
                    }
                },
                _ => 0,
            };
            1 + rest
        },
        _ => 0,
    };
    assert(drive(editor, text, world, base, 1) == (pressed, text, world)) by {
        assert(drive(pressed, text, world, base, 0) == (pressed, text, world));
    }
    lemma_drive_on(editor, text, world, base, 1, then);
    1 + then
}

/// A tick, run to its end: after `Begin` the returned number of requests, each answered
/// by the world, leaves the editor between ticks, with the text and the world of
/// [`ticked`].
pub proof fn lemma_tick(editor: EditorView, text: Seq<char>, world: World, base: usize) -> (fuel:
    nat)
    requires
        editor.stage is Idle,
    ensures
        ({
            let (begun, begun_text) = editor.step(text, ReplyView::Begin, base);
            drive(begun, begun_text, world, base, fuel) == ticked(editor, world, base)
        }),
        ticked(editor, world, base).0.request() == RequestView::Done,
{
    let (begun, begun_text) = editor.step(text, ReplyView::Begin, base);
    let (lines, memory) = displayed(editor, world, base, 0);
    let showing = lemma_drive_display(editor, Seq::empty(), world, base, 0);
    let polling = editor.staged(StageView::Polling);
    let shown_text = Seq::<char>::empty() + lines + editor.prompt();
    let shown_world = world.with_memory(memory);
    let acting = lemma_drive_keys(polling, shown_text, shown_world, base);
    lemma_drive_on(begun, begun_text, world, base, showing, acting);
    showing + acting
}

/// Text that is no number commits nothing: the key press is dropped, the pending text
/// and the registry stay as they are, and the target is not touched.
pub proof fn lemma_failed_parse(editor: EditorView, world: World, base: usize)
    requires
        first_new(world.held, editor.held) == Some(Key::Enter) || first_new(
            world.held,
            editor.held,
        ) == Some(Key::Q),
        (world.parse)(editor.pending) is None,
    ensures
        acted(editor, world, base) == (
            EditorView { held: world.held, ..editor }.idle(),
            world.memory,
        ),
        ticked(editor, world, base).0.pending == editor.pending,
        ticked(editor, world, base).0.parameters == editor.parameters,
        ticked(editor, world, base).2.memory == displayed(editor, world, base, 0).1,
{
}

/// A tick keeps the selection in the registry.
pub proof fn lemma_tick_keeps_selection(editor: EditorView, world: World, base: usize)
    requires
        editor.selection_registered(),
    ensures
        ticked(editor, world, base).0.selection_registered(),
{
    let after = ticked(editor, world, base).0;
    lemma_position_by_names(editor.parameters, after.parameters, after.selected);
}

} // verus!
