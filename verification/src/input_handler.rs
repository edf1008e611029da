//! The parameter registry and the editor that a stream of key presses drives.
//!
//! A tick of the editor is a conversation. The caller opens it with
//! [`Reply::Begin`]; the editor answers with a request, the caller carries it out
//! and hands back the reply, and so on until the editor answers [`Request::Done`].
//! In that order a tick samples every parameter for display, writes every lock
//! back, closes the text with the prompt, asks for the keyboard and acts on the
//! one key that went down.

use crate::api::{APIHandle, Access, AccessView};
use crate::keys::{first_new, pressed, Key};
use crate::protocol::{Reply, ReplyView, Request, RequestView};
use crate::text::{
    ends_with, has_suffix, replace_all, replaced, same_text, shortened, without_last,
};
use vstd::prelude::*;
use vstd::slice::slice_to_vec;

verus! {

/// How a committed number is applied to the selected parameter.
#[derive(Clone, Copy, Debug, PartialEq, Eq, Structural)]
pub enum NumMode {
    /// The number is added to the live value.
    Increase,
    /// The number replaces the live value.
    Assign,
}

/// A named scalar of the target, reached through a pointer chain.
pub struct Parameter {
    name: String,
    address: Vec<usize>,
    /// The bit pattern that the editor writes back every tick, if the parameter is locked.
    pub locked: Option<u32>,
}

/// A parameter over mathematical values.
pub struct ParameterView {
    pub name: Seq<char>,
    pub address: Seq<usize>,
    pub locked: Option<u32>,
}

impl View for Parameter {
    type V = ParameterView;

    closed spec fn view(&self) -> ParameterView {
        ParameterView { name: self.name@, address: self.address@, locked: self.locked }
    }
}

/// Why the editor is reading or writing a scalar.
#[derive(Clone, Copy)]
pub enum Purpose {
    /// Reading a parameter for display.
    Sample,
    /// Writing a lock back.
    Reassert,
    /// Reading the live value that a new lock pins.
    Capture,
    /// Reading the live value to which a committed number is added.
    Fetch { addend: u32 },
    /// Writing a committed value.
    Store { value: u32 },
}

/// Where the editor stands within a tick.
enum Stage {
    /// Between ticks.
    Idle,
    /// An access to parameter `index` is in flight.
    Access { purpose: Purpose, index: usize, access: Access },
    /// The value sampled for parameter `index` is being rendered.
    Rendering { index: usize, value: u32 },
    /// The keyboard is being asked.
    Polling,
    /// The pending text is being parsed.
    Parsing,
    /// The sum of a committed number and the live value of parameter `index` is being
    /// computed.
    Summing { index: usize, addend: u32, current: u32 },
}

/// A stage over mathematical values.
pub enum StageView {
    Idle,
    Access { purpose: Purpose, index: int, access: AccessView },
    Rendering { index: int, value: u32 },
    Polling,
    Parsing,
    Summing { index: int, addend: u32, current: u32 },
}

impl View for Stage {
    type V = StageView;

    closed spec fn view(&self) -> StageView {
        match *self {
            Stage::Idle => StageView::Idle,
            Stage::Access { purpose, index, access } => StageView::Access {
                purpose,
                index: index as int,
                access: access@,
            },
            Stage::Rendering { index, value } => StageView::Rendering {
                index: index as int,
                value,
            },
            Stage::Polling => StageView::Polling,
            Stage::Parsing => StageView::Parsing,
            Stage::Summing { index, addend, current } => StageView::Summing {
                index: index as int,
                addend,
                current,
            },
        }
    }
}

/// The registry and the editor's state.
pub struct InputHandler {
    prev_keys: Vec<Key>,
    num_mode: NumMode,
    parameters: Vec<Parameter>,
    current_param: String,
    input_text: String,
    stage: Stage,
}

/// The editor over mathematical values.
pub struct EditorView {
    /// The registry, in display order.
    pub parameters: Seq<ParameterView>,
    /// The name of the selected parameter.
    pub selected: Seq<char>,
    pub mode: NumMode,
    /// The text typed so far.
    pub pending: Seq<char>,
    /// The keys that were held at the last look at the keyboard.
    pub held: Seq<Key>,
    pub stage: StageView,
}

/// The word that ends the name of a position.
pub open spec fn position_word() -> Seq<char> {
    seq!['p', 'o', 's']
}

/// The word that ends the name of a velocity.
pub open spec fn velocity_word() -> Seq<char> {
    seq!['v', 'e', 'l']
}

/// The name that the key of `axis` asks for: the velocity along the axis while a velocity
/// is selected, the position along it otherwise.
pub open spec fn axis_name(axis: char, selected: Seq<char>) -> Seq<char> {
    if ends_with(selected, position_word()) {
        seq![axis, '_', 'p', 'o', 's']
    } else if ends_with(selected, velocity_word()) {
        seq![axis, '_', 'v', 'e', 'l']
    } else {
        seq![axis, '_', 'p', 'o', 's']
    }
}

/// The name that the key `P` asks for: a position becomes the velocity of the same name
/// and a velocity the position; any other name stays.
pub open spec fn swapped_name(selected: Seq<char>) -> Seq<char> {
    if ends_with(selected, position_word()) {
        replace_all(selected, position_word(), velocity_word())
    } else if ends_with(selected, velocity_word()) {
        replace_all(selected, velocity_word(), position_word())
    } else {
        selected
    }
}

/// The name that the key `B` asks for.
pub open spec fn breath_name() -> Seq<char> {
    seq!['b', 'r', 'e', 'a', 't', 'h']
}

/// How the prompt shows a mode.
pub open spec fn mode_name(mode: NumMode) -> Seq<char> {
    match mode {
        NumMode::Increase => seq!['I', 'N', 'C'],
        NumMode::Assign => seq!['S', 'E', 'T'],
    }
}

/// The other mode.
pub open spec fn flipped(mode: NumMode) -> NumMode {
    match mode {
        NumMode::Increase => NumMode::Assign,
        NumMode::Assign => NumMode::Increase,
    }
}

/// The bit pattern that a finished read found; zero stands in where there is none.
pub open spec fn found(outcome: Option<u32>) -> u32 {
    match outcome {
        Some(bits) => bits,
        None => 0,
    }
}

/// The registry that the editor starts with: each parameter's name and pointer chain.
pub open spec fn default_registry() -> Seq<ParameterView> {
    seq![
        ParameterView {
            name: seq!['x', '_', 'p', 'o', 's'],
            address: seq![0xF92610, 0x4C0, 0x10, 0x98, 0x670, 0x0, 0x58, 0x70, 0x10],
            locked: None,
        },
        ParameterView {
            name: seq!['y', '_', 'p', 'o', 's'],
            address: seq![0xF92610, 0x4C0, 0x10, 0x98, 0x670, 0x0, 0x58, 0x70, 0x14],
            locked: None,
        },
        ParameterView {
            name: seq!['z', '_', 'p', 'o', 's'],
            address: seq![0x1001FA0, 0x260, 0x2E8, 0x318, 0x10, 0x28, 0x40, 0x18],
            locked: None,
        },
        ParameterView {
            name: seq!['x', '_', 'v', 'e', 'l'],
            address: seq![0xF92610, 0x4C0, 0x10, 0x98, 0x670, 0x0, 0x58, 0x70, 0x1C],
            locked: None,
        },
        ParameterView {
            name: seq!['y', '_', 'v', 'e', 'l'],
            address: seq![0xF92610, 0x4C0, 0x10, 0x98, 0x670, 0x0, 0x58, 0x70, 0x20],
            locked: None,
        },
        ParameterView {
            name: breath_name(),
            address: seq![0xF92610, 0x18, 0xE0, 0x98, 0x508, 0x20, 0x28, 0x104],
            locked: None,
        },
    ]
}

/// Whether `at` is the place of the first parameter named `name`.
pub open spec fn named_at(parameters: Seq<ParameterView>, name: Seq<char>, at: int) -> bool {
    &&& 0 <= at < parameters.len()
    &&& parameters[at].name == name
    &&& forall|before: int| 0 <= before < at ==> parameters[before].name != name
}

/// The place of the first parameter named `name`, if one is registered.
pub open spec fn position(parameters: Seq<ParameterView>, name: Seq<char>) -> Option<int> {
    if exists|at: int| named_at(parameters, name, at) {
        Some(choose|at: int| named_at(parameters, name, at))
    } else {
        None
    }
}

impl EditorView {
    /// The place of the first parameter named `name`, if one is registered.
    pub open spec fn position(self, name: Seq<char>) -> Option<int> {
        position(self.parameters, name)
    }

    /// Whether the selected name is registered.
    pub open spec fn selection_registered(self) -> bool {
        self.position(self.selected) is Some
    }

    /// The editor at another stage.
    pub open spec fn staged(self, stage: StageView) -> EditorView {
        EditorView { stage, ..self }
    }

    /// The editor between ticks.
    pub open spec fn idle(self) -> EditorView {
        self.staged(StageView::Idle)
    }

    /// The editor with the lock of the parameter at `index` set to `locked`.
    pub open spec fn relocked(self, index: int, locked: Option<u32>) -> EditorView {
        EditorView {
            parameters: self.parameters.update(
                index,
                ParameterView { locked, ..self.parameters[index] },
            ),
            ..self
        }
    }

    /// The editor after the parameter named `name` was asked for, between ticks: the
    /// parameter is selected if it is registered, and the selection stays where no
    /// parameter has that name.
    pub open spec fn selecting(self, name: Seq<char>) -> EditorView {
        if self.position(name) is Some {
            EditorView { selected: name, ..self }.idle()
        } else {
            self.idle()
        }
    }

    /// The editor with other pending text, between ticks.
    pub open spec fn typing(self, pending: Seq<char>) -> EditorView {
        EditorView { pending, ..self }.idle()
    }

    /// The line that shows the parameter at `index`: its name, a colon, the rendered
    /// value.
    pub open spec fn line(self, index: int, rendered: Seq<char>) -> Seq<char> {
        self.parameters[index].name + seq![':', ' '] + rendered + seq!['\n']
    }

    /// The prompt: the selected name, the mode in brackets, the pending text.
    pub open spec fn prompt(self) -> Seq<char> {
        self.selected + seq![' ', '('] + mode_name(self.mode) + seq![')', ' ', '>', ' ']
            + self.pending
    }

    /// What the editor waits for.
    pub open spec fn request(self) -> RequestView {
        match self.stage {
            StageView::Idle => RequestView::Done,
            StageView::Access { access, .. } => access.request(),
            StageView::Rendering { value, .. } => RequestView::Format { value },
            StageView::Polling => RequestView::Keys,
            StageView::Parsing => RequestView::Parse { text: self.pending },
            StageView::Summing { addend, current, .. } => RequestView::Add {
                left: addend,
                right: current,
            },
        }
    }

    /// Goes on to display the parameter at `at`: begins to sample it or, past the last
    /// parameter, closes the text with the prompt and turns to the keyboard.
    pub open spec fn sample(self, text: Seq<char>, at: int, base: usize) -> (
        EditorView,
        Seq<char>,
    ) {
        if 0 <= at < self.parameters.len() {
            (
                self.staged(
                    StageView::Access {
                        purpose: Purpose::Sample,
                        index: at,
                        access: AccessView::read(base, self.parameters[at].address),
                    },
                ),
                text,
            )
        } else {
            (self.staged(StageView::Polling), text + self.prompt())
        }
    }

    /// Takes the rendering of the value sampled for the parameter at `index`: adds its
    /// line to the text, then writes its lock back if it has one, and goes on to the
    /// next parameter.
    pub open spec fn rendered(self, text: Seq<char>, index: int, rendered: Seq<char>, base: usize)
        -> (EditorView, Seq<char>) {
        if 0 <= index < self.parameters.len() {
            let text = text + self.line(index, rendered);
            match self.parameters[index].locked {
                Some(bits) => (
                    self.staged(
                        StageView::Access {
                            purpose: Purpose::Reassert,
                            index,
                            access: AccessView::write(base, self.parameters[index].address, bits),
                        },
                    ),
                    text,
                ),
                None => self.sample(text, index + 1, base),
            }
        } else {
            self.sample(text, index + 1, base)
        }
    }

    /// Begins to write `value` to the parameter at `index`.
    pub open spec fn store(self, index: int, value: u32, base: usize) -> EditorView {
        if 0 <= index < self.parameters.len() {
            self.staged(
                StageView::Access {
                    purpose: Purpose::Store { value },
                    index,
                    access: AccessView::write(base, self.parameters[index].address, value),
                },
            )
        } else {
            self.idle()
        }
    }

    /// Toggles the lock of the selected parameter: a locked parameter is released at
    /// once; for a free one the editor begins to read the live value that the lock will
    /// pin. Where the registry no longer holds the selected name there is no lock to
    /// toggle.
    pub open spec fn toggle_lock(self, base: usize) -> EditorView {
        match self.position(self.selected) {
            Some(index) => match self.parameters[index].locked {
                Some(_) => self.relocked(index, None).idle(),
                None => self.staged(
                    StageView::Access {
                        purpose: Purpose::Capture,
                        index,
                        access: AccessView::read(base, self.parameters[index].address),
                    },
                ),
            },
            None => self.idle(),
        }
    }

    /// Acts on the one key that went down in this tick.
    pub open spec fn press(self, key: Option<Key>, base: usize) -> EditorView {
        match key {
            None => self.idle(),
            Some(key) => match key {
                Key::X => self.selecting(axis_name('x', self.selected)),
                Key::Y => self.selecting(axis_name('y', self.selected)),
                Key::Z => self.selecting(axis_name('z', self.selected)),
                Key::B => self.selecting(breath_name()),
                Key::P => self.selecting(swapped_name(self.selected)),
                Key::N => EditorView { mode: flipped(self.mode), ..self }.idle(),
                Key::Backspace => self.typing(without_last(self.pending)),
                Key::C => self.typing(Seq::empty()),
                Key::L => self.toggle_lock(base),
                Key::Enter | Key::Q => self.staged(StageView::Parsing),
                _ => match key.typed() {
                    Some(c) => self.typing(self.pending.push(c)),
                    None => self.idle(),
                },
            },
        }
    }

    /// Applies the number that the pending text parsed to: in `Assign` mode the editor
    /// begins to write it to the selected parameter, in `Increase` mode to read the
    /// live value it is added to. Where the registry no longer holds the selected name
    /// the number is dropped.
    pub open spec fn commit(self, number: u32, base: usize) -> EditorView {
        match self.position(self.selected) {
            Some(index) => match self.mode {
                NumMode::Assign => self.store(index, number, base),
                NumMode::Increase => self.staged(
                    StageView::Access {
                        purpose: Purpose::Fetch { addend: number },
                        index,
                        access: AccessView::read(base, self.parameters[index].address),
                    },
                ),
            },
            None => self.idle(),
        }
    }

    /// What follows an access to the parameter at `index` that is done, by its purpose.
    /// `outcome` is what a read found.
    pub open spec fn complete(
        self,
        text: Seq<char>,
        purpose: Purpose,
        index: int,
        outcome: Option<u32>,
        base: usize,
    ) -> (EditorView, Seq<char>) {
        match purpose {
            Purpose::Sample => (
                self.staged(StageView::Rendering { index, value: found(outcome) }),
                text,
            ),
            Purpose::Reassert => self.sample(text, index + 1, base),
            Purpose::Capture => if 0 <= index < self.parameters.len() {
                (self.relocked(index, Some(found(outcome))).idle(), text)
            } else {
                (self.idle(), text)
            },
            Purpose::Fetch { addend } => (
                self.staged(StageView::Summing { index, addend, current: found(outcome) }),
                text,
            ),
            Purpose::Store { value } => if 0 <= index < self.parameters.len()
                && self.parameters[index].locked is Some {
                (self.relocked(index, Some(value)).idle(), text)
            } else {
                (self.idle(), text)
            },
        }
    }

    /// The editor and the text after `reply`. A reply that does not answer what the
    /// editor waits for changes nothing.
    pub open spec fn step(self, text: Seq<char>, reply: ReplyView, base: usize) -> (
        EditorView,
        Seq<char>,
    ) {
        match self.stage {
            StageView::Idle => match reply {
                ReplyView::Begin => self.sample(Seq::empty(), 0, base),
                _ => (self, text),
            },
            StageView::Access { purpose, index, access } => {
                let access = access.answer(reply);
                if access.done {
                    self.complete(text, purpose, index, access.outcome, base)
                } else {
                    (self.staged(StageView::Access { purpose, index, access }), text)
                }
            },
            StageView::Rendering { index, value } => match reply {
                ReplyView::Text(rendered) => self.rendered(text, index, rendered, base),
                _ => (self, text),
            },
            StageView::Polling => match reply {
                ReplyView::Keys(held) => (
                    EditorView { held, ..self.press(first_new(held, self.held), base) },
                    text,
                ),
                _ => (self, text),
            },
            StageView::Parsing => match reply {
                ReplyView::Parsed(Some(number)) => (self.commit(number, base), text),
                ReplyView::Parsed(None) => (self.idle(), text),
                _ => (self, text),
            },
            StageView::Summing { index, addend, current } => match reply {
                ReplyView::Sum(total) => (self.store(index, total, base), text),
                _ => (self, text),
            },
        }
    }
}

/// Registries with the same names in the same places find every name in the same place.
pub proof fn lemma_position_by_names(
    parameters: Seq<ParameterView>,
    others: Seq<ParameterView>,
    name: Seq<char>,
)
    requires
        parameters.len() == others.len(),
        forall|at: int| 0 <= at < parameters.len() ==> parameters[at].name == others[at].name,
    ensures
        position(parameters, name) == position(others, name),
{
    assert forall|at: int| named_at(parameters, name, at) == named_at(others, name, at) by {}
}

/// The selection stays in the registry: no reply takes the editor from a selected name
/// that is registered to one that is not. A key that asks for a name without a
/// parameter leaves the selection where it is.
pub proof fn lemma_selection_stays_registered(
    editor: EditorView,
    text: Seq<char>,
    reply: ReplyView,
    base: usize,
)
    requires
        editor.selection_registered(),
    ensures
        editor.step(text, reply, base).0.selection_registered(),
{
    let after = editor.step(text, reply, base).0;
    lemma_position_by_names(editor.parameters, after.parameters, after.selected);
}

/// A key that selects does nothing else: whichever parameter it asks for, it leaves the
/// registry with its locks, the mode and the pending text as they are, and it ends the
/// tick without a request, so nothing is read or written.
pub proof fn lemma_selection_key(editor: EditorView, key: Key, base: usize)
    requires
        key == Key::X || key == Key::Y || key == Key::Z || key == Key::B || key == Key::P,
    ensures
        editor.press(Some(key), base).parameters == editor.parameters,
        editor.press(Some(key), base).mode == editor.mode,
        editor.press(Some(key), base).pending == editor.pending,
        editor.press(Some(key), base).request() == RequestView::Done,
        editor.selection_registered() ==> editor.press(Some(key), base).selection_registered(),
{
}

impl View for InputHandler {
    type V = EditorView;

    closed spec fn view(&self) -> EditorView {
        EditorView {
            parameters: self.parameters@.map_values(|parameter: Parameter| parameter@),
            selected: self.current_param@,
            mode: self.num_mode,
            pending: self.input_text@,
            held: self.prev_keys@,
            stage: self.stage@,
        }
    }
}

impl Parameter {
    /// A free parameter named `name` at the end of the chain `address`. A chain must
    /// hold at least one offset: the empty chain is refused.
    pub fn new(name: &str, address: &[usize]) -> (parameter: Option<Parameter>)
        ensures
            match parameter {
                Some(parameter) => address@.len() > 0 && parameter@ == (ParameterView {
                    name: name@,
                    address: address@,
                    locked: None,
                }),
                None => address@.len() == 0,
            },
    {
        if address.len() == 0 {
            None
        } else {
            Some(
                Parameter {
                    name: String::from_str(name),
                    address: slice_to_vec(address),
                    locked: None,
                },
            )
        }
    }

    /// The parameter's name.
    pub fn name(&self) -> (name: &str)
        ensures
            name@ == self@.name,
    {
        self.name.as_str()
    }

    /// The parameter's pointer chain.
    pub fn address(&self) -> (address: &[usize])
        ensures
            address@ == self@.address,
    {
        self.address.as_slice()
    }

    /// The bit pattern that the parameter is locked at, if it is locked.
    pub fn lock(&self) -> (locked: Option<u32>)
        ensures
            locked == self@.locked,
    {
        self.locked
    }

    /// Locks the parameter at the bit pattern `locked`, or frees it.
    pub fn set_lock(&mut self, locked: Option<u32>)
        ensures
            final(self)@ == (ParameterView { locked, ..old(self)@ }),
    {
        self.locked = locked;
    }
}

/// The text that a key types into the pending text, for the keys that type a character.
fn typed_text(key: Key) -> (text: Option<&'static str>)
    ensures
        match text {
            Some(text) => key.typed() matches Some(c) && text@ == seq![c],
            None => key.typed() is None,
        },
{
    proof {
        reveal_strlit("0");
        reveal_strlit("1");
        reveal_strlit("2");
        reveal_strlit("3");
        reveal_strlit("4");
        reveal_strlit("5");
        reveal_strlit("6");
        reveal_strlit("7");
        reveal_strlit("8");
        reveal_strlit("9");
        reveal_strlit("-");
        reveal_strlit(".");
    }
    match key {
        Key::Key0 | Key::Numpad0 => Some("0"),
        Key::Key1 | Key::Numpad1 => Some("1"),
        Key::Key2 | Key::Numpad2 => Some("2"),
        Key::Key3 | Key::Numpad3 => Some("3"),
        Key::Key4 | Key::Numpad4 => Some("4"),
        Key::Key5 | Key::Numpad5 => Some("5"),
        Key::Key6 | Key::Numpad6 => Some("6"),
        Key::Key7 | Key::Numpad7 => Some("7"),
        Key::Key8 | Key::Numpad8 => Some("8"),
        Key::Key9 | Key::Numpad9 => Some("9"),
        Key::Minus | Key::NumpadSubtract => Some("-"),
        Key::Dot => Some("."),
        _ => None,
    }
}

/// The words that end the names of positions and velocities, as texts.
fn kind_words() -> (words: (&'static str, &'static str))
    ensures
        words.0@ == position_word(),
        words.1@ == velocity_word(),
{
    proof {
        reveal_strlit("pos");
        reveal_strlit("vel");
    }
    ("pos", "vel")
}

impl InputHandler {
    /// The editor as it starts: the built-in registry with every parameter free, the
    /// first parameter selected, `Assign` mode, nothing typed and no key held.
    pub fn new() -> (handler: InputHandler)
        ensures
            handler@ == (EditorView {
                parameters: default_registry(),
                selected: default_registry()[0].name,
                mode: NumMode::Assign,
                pending: Seq::empty(),
                held: Seq::empty(),
                stage: StageView::Idle,
            }),
            handler@.selection_registered(),
    {
        proof {
            reveal_strlit("x_pos");
            reveal_strlit("y_pos");
            reveal_strlit("z_pos");
            reveal_strlit("x_vel");
            reveal_strlit("y_vel");
            reveal_strlit("breath");
        }
        let mut parameters: Vec<Parameter> = Vec::new();
        parameters.push(
            Parameter {
                name: String::from_str("x_pos"),
                address: vec![0xF92610, 0x4C0, 0x10, 0x98, 0x670, 0x0, 0x58, 0x70, 0x10],
                locked: None,
            },
        );
        parameters.push(
            Parameter {
                name: String::from_str("y_pos"),
                address: vec![0xF92610, 0x4C0, 0x10, 0x98, 0x670, 0x0, 0x58, 0x70, 0x14],
                locked: None,
            },
        );
        parameters.push(
            Parameter {
                name: String::from_str("z_pos"),
                address: vec![0x1001FA0, 0x260, 0x2E8, 0x318, 0x10, 0x28, 0x40, 0x18],
                locked: None,
            },
        );
        parameters.push(
            Parameter {
                name: String::from_str("x_vel"),
                address: vec![0xF92610, 0x4C0, 0x10, 0x98, 0x670, 0x0, 0x58, 0x70, 0x1C],
                locked: None,
            },
        );
        parameters.push(
            Parameter {
                name: String::from_str("y_vel"),
                address: vec![0xF92610, 0x4C0, 0x10, 0x98, 0x670, 0x0, 0x58, 0x70, 0x20],
                locked: None,
            },
        );
        parameters.push(
            Parameter {
                name: String::from_str("breath"),
                address: vec![0xF92610, 0x18, 0xE0, 0x98, 0x508, 0x20, 0x28, 0x104],
                locked: None,
            },
        );
        let current_param = parameters[0].name.clone();
        let handler = InputHandler {
            prev_keys: Vec::new(),
            num_mode: NumMode::Assign,
            parameters,
            current_param,
            input_text: String::new(),
            stage: Stage::Idle,
        };
        proof {
            let registry = default_registry();
            let views = handler@.parameters;
            assert forall|i: int| 0 <= i < 6 implies views[i] == registry[i] by {
                assert(views[i].name =~= registry[i].name);
            }
            assert(views =~= registry);
            assert(named_at(registry, registry[0].name, 0));
        }
        handler
    }

    /// The editor over a registry of the caller's choice, with its first parameter
    /// selected. A registry must hold at least one parameter: the empty one is refused.
    pub fn with_parameters(parameters: Vec<Parameter>) -> (handler: Option<InputHandler>)
        ensures
            match handler {
                Some(handler) => parameters@.len() > 0 && handler@ == (EditorView {
                    parameters: parameters@.map_values(|parameter: Parameter| parameter@),
                    selected: parameters@[0]@.name,
                    mode: NumMode::Assign,
                    pending: Seq::empty(),
                    held: Seq::empty(),
                    stage: StageView::Idle,
                }) && handler@.selection_registered(),
                None => parameters@.len() == 0,
            },
    {
        if parameters.len() == 0 {
            return None;
        }
        let current_param = parameters[0].name.clone();
        let handler = InputHandler {
            prev_keys: Vec::new(),
            num_mode: NumMode::Assign,
            parameters,
            current_param,
            input_text: String::new(),
            stage: Stage::Idle,
        };
        assert(named_at(handler@.parameters, handler@.selected, 0));
        Some(handler)
    }

    /// The registry, in display order.
    pub fn parameters(&self) -> (parameters: &[Parameter])
        ensures
            parameters@.map_values(|parameter: Parameter| parameter@) == self@.parameters,
    {
        self.parameters.as_slice()
    }

    /// The name of the selected parameter.
    pub fn current_param(&self) -> (name: &str)
        ensures
            name@ == self@.selected,
    {
        self.current_param.as_str()
    }

    /// The text typed so far.
    pub fn input_text(&self) -> (text: &str)
        ensures
            text@ == self@.pending,
    {
        self.input_text.as_str()
    }

    /// The mode in which a committed number is applied.
    pub fn num_mode(&self) -> (mode: NumMode)
        ensures
            mode == self@.mode,
    {
        self.num_mode
    }

    /// The place of the first parameter named `name`.
    fn find(&self, name: &str) -> (place: Option<usize>)
        ensures
            match place {
                Some(at) => self@.position(name@) == Some(at as int) && at < self.parameters.len(),
                None => self@.position(name@) is None,
            },
    {
        let mut at: usize = 0;
        while at < self.parameters.len()
            invariant
                at <= self.parameters.len(),
                forall|before: int| 0 <= before < at ==> self@.parameters[before].name != name@,
            decreases self.parameters.len() - at,
        {
            if same_text(self.parameters[at].name.as_str(), name) {
                assert(named_at(self@.parameters, name@, at as int));
                return Some(at);
            }
            at = at + 1;
        }
        None
    }

    /// The first parameter named `name`, if one is registered.
    pub fn get_param(&self, name: &str) -> (parameter: Option<&Parameter>)
        ensures
            match parameter {
                Some(parameter) => self@.position(name@) matches Some(at) && parameter@
                    == self@.parameters[at],
                None => self@.position(name@) is None,
            },
    {
        match self.find(name) {
            Some(at) => Some(&self.parameters[at]),
            None => None,
        }
    }

    /// The first parameter named `name`, if one is registered, for the caller to change.
    /// The registry afterwards holds whatever the caller leaves in it, in the same place.
    pub fn get_param_mut<'a>(&'a mut self, name: &str) -> (parameter: Option<&'a mut Parameter>)
        ensures
            match parameter {
                Some(parameter) => old(self)@.position(name@) matches Some(at) && parameter@
                    == old(self)@.parameters[at] && final(self)@ == (EditorView {
                    parameters: old(self)@.parameters.update(at, final(parameter)@),
                    ..old(self)@
                }),
                None => old(self)@.position(name@) is None && final(self)@ == old(self)@,
            },
    {
        match self.find(name) {
            Some(at) => {
                let ghost before = self.parameters@;
                let parameter = &mut self.parameters[at];
                proof {
                    assert(before.update(at as int, *final(parameter)).map_values(
                        |parameter: Parameter| parameter@,
                    ) =~= before.map_values(|parameter: Parameter| parameter@).update(
                        at as int,
                        final(parameter)@,
                    ));
                }
                Some(parameter)
            },
            None => None,
        }
    }

    /// Begins to read the parameter named `name`, if one is registered: the access
    /// walks the parameter's chain from the base of `api_handle` and reads the scalar
    /// at its end.
    pub fn read_value(&self, name: &str, api_handle: &APIHandle) -> (access: Option<Access>)
        ensures
            match access {
                Some(access) => self@.position(name@) matches Some(at) && access@
                    == AccessView::read(api_handle.base_address, self@.parameters[at].address),
                None => self@.position(name@) is None,
            },
    {
        match self.find(name) {
            Some(at) => Some(api_handle.read_memory_f32(self.parameters[at].address.as_slice())),
            None => None,
        }
    }

    /// Begins to write the bit pattern `value` to the parameter named `name`, if one is
    /// registered: the access walks the parameter's chain from the base of `api_handle`
    /// and writes the scalar at its end.
    pub fn write_value(&self, name: &str, api_handle: &APIHandle, value: u32) -> (access: Option<
        Access,
    >)
        ensures
            match access {
                Some(access) => self@.position(name@) matches Some(at) && access@
                    == AccessView::write(
                    api_handle.base_address,
                    self@.parameters[at].address,
                    value,
                ),
                None => self@.position(name@) is None,
            },
    {
        match self.find(name) {
            Some(at) => Some(
                api_handle.write_memory_f32(self.parameters[at].address.as_slice(), value),
            ),
            None => None,
        }
    }

    /// Takes a snapshot of the keyboard and reports the key press of this tick, if
    /// there is one: the first key of `held` that the snapshot before did not hold.
    /// A key that stays down is reported once.
    pub fn get_next_key(&mut self, held: &[Key]) -> (key: Option<Key>)
        ensures
            key == first_new(held@, old(self)@.held),
            final(self)@ == (EditorView { held: held@, ..old(self)@ }),
    {
        let key = pressed(held, self.prev_keys.as_slice());
        self.prev_keys = slice_to_vec(held);
        key
    }
}

impl InputHandler {
    /// What the editor waits for: the request that the last call of `update` returned.
    pub fn request(&self) -> (request: Request)
        ensures
            request@ == self@.request(),
    {
        match &self.stage {
            Stage::Idle => Request::Done,
            Stage::Access { access, .. } => access.request(),
            Stage::Rendering { value, .. } => Request::Format { value: *value },
            Stage::Polling => Request::Keys,
            Stage::Parsing => Request::Parse { text: self.input_text.clone() },
            Stage::Summing { addend, current, .. } => Request::Add {
                left: *addend,
                right: *current,
            },
        }
    }

    /// Adds the line of the parameter at `index` to the text.
    fn write_line(&self, text: &mut String, index: usize, rendered: &str)
        requires
            index < self@.parameters.len(),
        ensures
            final(text)@ == old(text)@ + self@.line(index as int, rendered@),
    {
        proof {
            reveal_strlit(": ");
            reveal_strlit("\n");
        }
        text.append(self.parameters[index].name.as_str());
        text.append(": ");
        text.append(rendered);
        text.append("\n");
    }

    /// Adds the prompt to the text.
    fn write_prompt(&self, text: &mut String)
        ensures
            final(text)@ == old(text)@ + self@.prompt(),
    {
        proof {
            reveal_strlit(" (");
            reveal_strlit(") > ");
            reveal_strlit("INC");
            reveal_strlit("SET");
        }
        let mode = match self.num_mode {
            NumMode::Increase => "INC",
            NumMode::Assign => "SET",
        };
        text.append(self.current_param.as_str());
        text.append(" (");
        text.append(mode);
        text.append(") > ");
        text.append(self.input_text.as_str());
    }

    /// Goes on to display the parameter at `at`.
    fn sample(&mut self, text: &mut String, at: usize, api_handle: &APIHandle)
        ensures
            (final(self)@, final(text)@) == old(self)@.sample(
                old(text)@,
                at as int,
                api_handle.base_address,
            ),
    {
        if at < self.parameters.len() {
            let access = api_handle.read_memory_f32(self.parameters[at].address.as_slice());
            self.stage = Stage::Access { purpose: Purpose::Sample, index: at, access };
        } else {
            self.write_prompt(text);
            self.stage = Stage::Polling;
        }
    }

    /// Goes on to display the parameter after the one at `index`.
    fn sample_after(&mut self, text: &mut String, index: usize, api_handle: &APIHandle)
        ensures
            (final(self)@, final(text)@) == old(self)@.sample(
                old(text)@,
                index + 1,
                api_handle.base_address,
            ),
    {
        if index < self.parameters.len() {
            self.sample(text, index + 1, api_handle);
        } else {
            self.write_prompt(text);
            self.stage = Stage::Polling;
        }
    }

    /// Takes the rendering of the value sampled for the parameter at `index`.
    fn rendered(&mut self, text: &mut String, index: usize, rendered: &str, api_handle: &APIHandle)
        ensures
            (final(self)@, final(text)@) == old(self)@.rendered(
                old(text)@,
                index as int,
                rendered@,
                api_handle.base_address,
            ),
    {
        if index < self.parameters.len() {
            self.write_line(text, index, rendered);
            match self.parameters[index].locked {
                Some(bits) => {
                    let access = api_handle.write_memory_f32(
                        self.parameters[index].address.as_slice(),
                        bits,
                    );
                    self.stage = Stage::Access { purpose: Purpose::Reassert, index, access };
                },
                None => {
                    self.sample(text, index + 1, api_handle);
                },
            }
        } else {
            self.sample_after(text, index, api_handle);
        }
    }

    /// Sets the lock of the parameter at `index`.
    fn relock(&mut self, index: usize, locked: Option<u32>)
        requires
            index < old(self)@.parameters.len(),
        ensures
            final(self)@ == old(self)@.relocked(index as int, locked),
    {
        self.parameters[index].locked = locked;
        proof {
            assert(self@.parameters =~= old(self)@.relocked(index as int, locked).parameters);
        }
    }

    /// Begins to write `value` to the parameter at `index`.
    fn store(&mut self, index: usize, value: u32, api_handle: &APIHandle)
        ensures
            final(self)@ == old(self)@.store(index as int, value, api_handle.base_address),
    {
        if index < self.parameters.len() {
            let access = api_handle.write_memory_f32(
                self.parameters[index].address.as_slice(),
                value,
            );
            self.stage = Stage::Access { purpose: Purpose::Store { value }, index, access };
        } else {
            self.stage = Stage::Idle;
        }
    }

    /// What follows an access that is done.
    fn complete(
        &mut self,
        text: &mut String,
        purpose: Purpose,
        index: usize,
        outcome: Option<u32>,
        api_handle: &APIHandle,
    )
        ensures
            (final(self)@, final(text)@) == old(self)@.complete(
                old(text)@,
                purpose,
                index as int,
                outcome,
                api_handle.base_address,
            ),
    {
        let bits = match outcome {
            Some(bits) => bits,
            None => 0,
        };
        match purpose {
            Purpose::Sample => {
                self.stage = Stage::Rendering { index, value: bits };
            },
            Purpose::Reassert => {
                self.sample_after(text, index, api_handle);
            },
            Purpose::Capture => {
                if index < self.parameters.len() {
                    self.relock(index, Some(bits));
                }
                self.stage = Stage::Idle;
            },
            Purpose::Fetch { addend } => {
                self.stage = Stage::Summing { index, addend, current: bits };
            },
            Purpose::Store { value } => {
                if index < self.parameters.len() && self.parameters[index].locked.is_some() {
                    self.relock(index, Some(value));
                }
                self.stage = Stage::Idle;
            },
        }
    }

    /// Selects the parameter named `name` if one is registered, and ends the tick.
    fn select(&mut self, name: &str)
        ensures
            final(self)@ == old(self)@.selecting(name@),
    {
        if self.find(name).is_some() {
            self.current_param = String::from_str(name);
        }
        self.stage = Stage::Idle;
    }

    /// Selects the parameter that the key of an axis stands for, given the names of the
    /// position and of the velocity along that axis.
    fn select_axis(&mut self, Ghost(axis): Ghost<char>, position: &str, velocity: &str)
        requires
            position@ == seq![axis, '_', 'p', 'o', 's'],
            velocity@ == seq![axis, '_', 'v', 'e', 'l'],
        ensures
            final(self)@ == old(self)@.selecting(axis_name(axis, old(self)@.selected)),
    {
        let (position_word, velocity_word) = kind_words();
        let current = self.current_param.as_str();
        let name = if !has_suffix(current, position_word) && has_suffix(current, velocity_word) {
            velocity
        } else {
            position
        };
        self.select(name);
    }

    /// Toggles the lock of the selected parameter.
    fn toggle_lock(&mut self, api_handle: &APIHandle)
        ensures
            final(self)@ == old(self)@.toggle_lock(api_handle.base_address),
    {
        match self.find(self.current_param.as_str()) {
            Some(index) => match self.parameters[index].locked {
                Some(_) => {
                    self.relock(index, None);
                    self.stage = Stage::Idle;
                },
                None => {
                    let access = api_handle.read_memory_f32(
                        self.parameters[index].address.as_slice(),
                    );
                    self.stage = Stage::Access { purpose: Purpose::Capture, index, access };
                },
            },
            None => {
                self.stage = Stage::Idle;
            },
        }
    }

    /// Acts on the one key that went down in this tick.
    fn press(&mut self, key: Option<Key>, api_handle: &APIHandle)
        ensures
            final(self)@ == old(self)@.press(key, api_handle.base_address),
    {
        proof {
            reveal_strlit("x_pos");
            reveal_strlit("y_pos");
            reveal_strlit("z_pos");
            reveal_strlit("x_vel");
            reveal_strlit("y_vel");
            reveal_strlit("z_vel");
            reveal_strlit("breath");
            assert("x_pos"@ =~= seq!['x', '_', 'p', 'o', 's']);
            assert("y_pos"@ =~= seq!['y', '_', 'p', 'o', 's']);
            assert("z_pos"@ =~= seq!['z', '_', 'p', 'o', 's']);
            assert("x_vel"@ =~= seq!['x', '_', 'v', 'e', 'l']);
            assert("y_vel"@ =~= seq!['y', '_', 'v', 'e', 'l']);
            assert("z_vel"@ =~= seq!['z', '_', 'v', 'e', 'l']);
            assert("breath"@ =~= breath_name());
        }
        let key = match key {
            Some(key) => key,
            None => {
                self.stage = Stage::Idle;
                return ;
            },
        };
        match key {
            Key::X => self.select_axis(Ghost('x'), "x_pos", "x_vel"),
            Key::Y => self.select_axis(Ghost('y'), "y_pos", "y_vel"),
            Key::Z => self.select_axis(Ghost('z'), "z_pos", "z_vel"),
            Key::B => self.select("breath"),
            Key::P => {
                let (position_word, velocity_word) = kind_words();
                if has_suffix(self.current_param.as_str(), position_word) {
                    let name = replaced(
                        self.current_param.as_str(),
                        position_word,
                        velocity_word,
                    );
                    self.select(name.as_str());
                } else if has_suffix(self.current_param.as_str(), velocity_word) {
                    let name = replaced(
                        self.current_param.as_str(),
                        velocity_word,
                        position_word,
                    );
                    self.select(name.as_str());
                } else {
                    self.stage = Stage::Idle;
                }
            },
            Key::N => {
                self.num_mode = match self.num_mode {
                    NumMode::Increase => NumMode::Assign,
                    NumMode::Assign => NumMode::Increase,
                };
                self.stage = Stage::Idle;
            },
            Key::Backspace => {
                self.input_text = shortened(self.input_text.as_str());
                self.stage = Stage::Idle;
            },
            Key::C => {
                self.input_text = String::new();
                self.stage = Stage::Idle;
            },
            Key::L => self.toggle_lock(api_handle),
            Key::Enter | Key::Q => {
                self.stage = Stage::Parsing;
            },
            _ => {
                match typed_text(key) {
                    Some(typed) => {
                        self.input_text.append(typed);
                        proof {
                            assert(self.input_text@ =~= old(self)@.pending.push(key.typed()->0));
                        }
                    },
                    None => {},
                }
                self.stage = Stage::Idle;
            },
        }
    }

    /// Applies the number that the pending text parsed to.
    fn commit(&mut self, number: u32, api_handle: &APIHandle)
        ensures
            final(self)@ == old(self)@.commit(number, api_handle.base_address),
    {
        match self.find(self.current_param.as_str()) {
            Some(index) => match self.num_mode {
                NumMode::Assign => self.store(index, number, api_handle),
                NumMode::Increase => {
                    let access = api_handle.read_memory_f32(
                        self.parameters[index].address.as_slice(),
                    );
                    self.stage = Stage::Access {
                        purpose: Purpose::Fetch { addend: number },
                        index,
                        access,
                    };
                },
            },
            None => {
                self.stage = Stage::Idle;
            },
        }
    }

    /// Carries the tick one step on: takes the caller's reply to the last request and
    /// returns the next one. `Reply::Begin` opens a tick and empties `text`; the tick is
    /// over when the request is `Request::Done`, and `text` then holds one line for each
    /// parameter and the prompt. A reply that does not answer the last request changes
    /// nothing, and the request is made again. What the steps of a tick add up to is
    /// stated in [`crate::tick::ticked`].
    pub fn update(&mut self, text: &mut String, api_handle: &APIHandle, reply: Reply) -> (request:
        Request)
        ensures
            (final(self)@, final(text)@) == old(self)@.step(
                old(text)@,
                reply@,
                api_handle.base_address,
            ),
            request@ == final(self)@.request(),
            old(self)@.selection_registered() ==> final(self)@.selection_registered(),
    {
        proof {
            if self@.selection_registered() {
                lemma_selection_stays_registered(self@, text@, reply@, api_handle.base_address);
            }
        }
        let mut stage = Stage::Idle;
        core::mem::swap(&mut self.stage, &mut stage);
        match stage {
            Stage::Idle => match reply {
                Reply::Begin => {
                    *text = String::new();
                    self.sample(text, 0, api_handle);
                },
                _ => {},
            },
            Stage::Access { purpose, index, mut access } => {
                access.answer(&reply);
                if access.finished() {
                    let outcome = access.outcome();
                    self.complete(text, purpose, index, outcome, api_handle);
                } else {
                    self.stage = Stage::Access { purpose, index, access };
                }
            },
            Stage::Rendering { index, value } => match reply {
                Reply::Text(rendered) => {
                    self.rendered(text, index, rendered.as_str(), api_handle);
                },
                _ => {
                    self.stage = Stage::Rendering { index, value };
                },
            },
            Stage::Polling => match reply {
                Reply::Keys(held) => {
                    let key = self.get_next_key(held.as_slice());
                    self.press(key, api_handle);
                },
                _ => {
                    self.stage = Stage::Polling;
                },
            },
            Stage::Parsing => match reply {
                Reply::Parsed(Some(number)) => {
                    self.commit(number, api_handle);
                },
                Reply::Parsed(None) => {},
                _ => {
                    self.stage = Stage::Parsing;
                },
            },
            Stage::Summing { index, addend, current } => match reply {
                Reply::Sum(total) => {
                    self.store(index, total, api_handle);
                },
                _ => {
                    self.stage = Stage::Summing { index, addend, current };
                },
            },
        }
        self.request()
    }
}

} // verus!
