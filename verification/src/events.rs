//! What comes into the desktop and what it asks of its host: keys, the
//! reports of program steps, and requests to the storage.

use vstd::prelude::*;
use pc_keyboard::DecodedKey;
use pc_keyboard::KeyCode;

verus! {

/// The control keys the desktop knows.
#[derive(Clone, Copy, PartialEq, Eq, Structural, Debug)]
pub enum ControlKey {
    /// Selects pane 1.
    F1,
    /// Selects pane 2.
    F2,
    /// Selects pane 3.
    F3,
    /// Selects pane 4.
    F4,
    /// Selects no pane and opens the file name entry.
    F5,
    /// Cancels: leaves the editor or stops the program of the selected pane.
    F6,
    ArrowLeft,
    ArrowRight,
    ArrowUp,
    ArrowDown,
    /// Any other control key; it is ignored.
    Other,
}

/// A decoded key: a control key or a character.
#[derive(Clone, Copy, PartialEq, Eq, Structural, Debug)]
pub enum KeyEvent {
    Control(ControlKey),
    Character(char),
}

/// A key as the keyboard driver decodes it: `pc_keyboard::DecodedKey`, with
/// its two variants as the driver defines them.
#[verifier::external_type_specification]
pub struct ExDecodedKey(DecodedKey);

/// A key code of the keyboard driver: `pc_keyboard::KeyCode`, with its
/// variants as the driver defines them.
#[verifier::external_type_specification]
pub struct ExKeyCode(KeyCode);

/// The control key that a key code of the keyboard driver stands for.
pub open spec fn control_of(code: KeyCode) -> ControlKey {
    match code {
        KeyCode::F1 => ControlKey::F1,
        KeyCode::F2 => ControlKey::F2,
        KeyCode::F3 => ControlKey::F3,
        KeyCode::F4 => ControlKey::F4,
        KeyCode::F5 => ControlKey::F5,
        KeyCode::F6 => ControlKey::F6,
        KeyCode::ArrowLeft => ControlKey::ArrowLeft,
        KeyCode::ArrowRight => ControlKey::ArrowRight,
        KeyCode::ArrowUp => ControlKey::ArrowUp,
        KeyCode::ArrowDown => ControlKey::ArrowDown,
        _ => ControlKey::Other,
    }
}

/// The key event that a key of the keyboard driver stands for.
pub open spec fn event_of(key: DecodedKey) -> KeyEvent {
    match key {
        DecodedKey::RawKey(code) => KeyEvent::Control(control_of(code)),
        DecodedKey::Unicode(c) => KeyEvent::Character(c),
    }
}

/// Decodes a key of the keyboard driver: a character stays the character it
/// is, a function or arrow key becomes the control key of its name, and every
/// other key code becomes `ControlKey::Other`.
pub fn decode(key: DecodedKey) -> (event: KeyEvent)
    ensures
        event == event_of(key),
{
    match key {
        DecodedKey::RawKey(code) => KeyEvent::Control(
            match code {
                KeyCode::F1 => ControlKey::F1,
                KeyCode::F2 => ControlKey::F2,
                KeyCode::F3 => ControlKey::F3,
                KeyCode::F4 => ControlKey::F4,
                KeyCode::F5 => ControlKey::F5,
                KeyCode::F6 => ControlKey::F6,
                KeyCode::ArrowLeft => ControlKey::ArrowLeft,
                KeyCode::ArrowRight => ControlKey::ArrowRight,
                KeyCode::ArrowUp => ControlKey::ArrowUp,
                KeyCode::ArrowDown => ControlKey::ArrowDown,
                _ => ControlKey::Other,
            },
        ),
        DecodedKey::Unicode(c) => KeyEvent::Character(c),
    }
}

/// How one step of a program ended.
#[derive(Clone, Copy, PartialEq, Eq, Structural, Debug)]
pub enum TickOutcome {
    /// The program goes on.
    Continue,
    /// The program is done.
    Finished,
    /// The program waits for a line of input.
    AwaitInput,
    /// The program failed.
    Error,
}

/// What the host reports of one step of a program: the batches of output it
/// printed, in order, and how the step ended.
pub struct StepReport {
    pub printed: Vec<Vec<u8>>,
    pub outcome: TickOutcome,
}

/// A step report as plain sequences.
pub struct StepModel {
    pub printed: Seq<Seq<u8>>,
    pub outcome: TickOutcome,
}

impl StepReport {
    /// The report as its model.
    pub open spec fn view(&self) -> StepModel {
        StepModel {
            printed: Seq::new(self.printed@.len(), |i: int| self.printed@[i]@),
            outcome: self.outcome,
        }
    }
}

/// The model of what the host reports at one turn: a step, or none.
pub open spec fn reported(step: Option<StepReport>) -> Option<StepModel> {
    match step {
        Some(s) => Some(s@),
        None => None,
    }
}

/// What the scheduler asks of the host at one turn.
#[derive(Debug)]
pub enum Turn {
    /// Nothing: the slot of this turn is idle or blocked.
    Idle,
    /// Hand `line` to the program of `slot` as the input it waits for.
    Deliver { slot: usize, line: Vec<char> },
    /// Run one step of the program of `slot` and report it.
    Step { slot: usize },
}

/// A turn as plain values.
pub enum TurnModel {
    Idle,
    Deliver { slot: int, line: Seq<char> },
    Step { slot: int },
}

impl Turn {
    /// The turn as its model.
    pub open spec fn view(&self) -> TurnModel {
        match *self {
            Turn::Idle => TurnModel::Idle,
            Turn::Deliver { slot, line } => TurnModel::Deliver { slot: slot as int, line: line@ },
            Turn::Step { slot } => TurnModel::Step { slot: slot as int },
        }
    }
}

/// What the desktop asks of the storage after a key.
#[derive(Debug)]
pub enum Request {
    /// Nothing.
    Nothing,
    /// Read the directory and show it in the selected pane.
    Relist,
    /// Write `bytes` to the file `name`, then read the directory and show it
    /// in the selected pane.
    Save { name: [u8; 10], bytes: Vec<u8> },
    /// Create the file `name`, then read the directory and show it in every
    /// pane that shows a listing.
    Create { name: [u8; 10] },
    /// Read directory entry `entry` and open it in the editor of pane `pane`.
    Open { pane: usize, entry: usize },
    /// Read directory entry `entry` and start it as the program of pane `pane`.
    Run { pane: usize, entry: usize },
}

/// A request as plain values.
pub enum RequestModel {
    Nothing,
    Relist,
    Save { name: Seq<u8>, bytes: Seq<u8> },
    Create { name: Seq<u8> },
    Open { pane: int, entry: int },
    Run { pane: int, entry: int },
}

impl Request {
    /// The request as its model.
    pub open spec fn view(&self) -> RequestModel {
        match *self {
            Request::Nothing => RequestModel::Nothing,
            Request::Relist => RequestModel::Relist,
            Request::Save { name, bytes } => RequestModel::Save { name: name@, bytes: bytes@ },
            Request::Create { name } => RequestModel::Create { name: name@ },
            Request::Open { pane, entry } => RequestModel::Open {
                pane: pane as int,
                entry: entry as int,
            },
            Request::Run { pane, entry } => RequestModel::Run {
                pane: pane as int,
                entry: entry as int,
            },
        }
    }
}

} // verus!
