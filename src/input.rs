//! Decisions on window input: which pointer phases reach the engine, and
//! which editing command a key press stands for.
use vstd::prelude::*;
use crate::ffi::FlutterPointerPhase;

verus! {

/// Whether the pointer has been announced to the engine.
#[derive(Debug)]
pub struct PointerState {
    added: bool,
}

impl PointerState {
    pub closed spec fn is_added(&self) -> bool {
        self.added
    }

    /// No pointer announced yet.
    pub fn new() -> (r: PointerState)
        ensures
            !r.is_added(),
    {
        PointerState { added: false }
    }

    /// The phases to send for a pointer event in `phase`: a pointer that was
    /// not announced is announced first, and a second announcement is dropped.
    pub fn phases_to_send(&mut self, phase: FlutterPointerPhase) -> (r: Vec<FlutterPointerPhase>)
        ensures
            phase == FlutterPointerPhase::Add ==> {
                &&& r@ == if old(self).is_added() {
                    Seq::<FlutterPointerPhase>::empty()
                } else {
                    seq![FlutterPointerPhase::Add]
                }
                &&& final(self).is_added()
            },
            phase != FlutterPointerPhase::Add ==> {
                &&& r@ == if old(self).is_added() {
                    seq![phase]
                } else {
                    seq![FlutterPointerPhase::Add, phase]
                }
                &&& final(self).is_added() == (phase != FlutterPointerPhase::Remove)
            },
    {
        let mut out: Vec<FlutterPointerPhase> = Vec::new();
        match phase {
            FlutterPointerPhase::Add => {
                if !self.added {
                    out.push(FlutterPointerPhase::Add);
                }
                self.added = true;
            },
            _ => {
                if !self.added {
                    out.push(FlutterPointerPhase::Add);
                }
                out.push(phase);
                self.added = match phase {
                    FlutterPointerPhase::Remove => false,
                    _ => true,
                };
            },
        }
        assert(out@ =~= if old(self).added {
            if phase == FlutterPointerPhase::Add {
                Seq::<FlutterPointerPhase>::empty()
            } else {
                seq![phase]
            }
        } else {
            if phase == FlutterPointerPhase::Add {
                seq![FlutterPointerPhase::Add]
            } else {
                seq![FlutterPointerPhase::Add, phase]
            }
        });
        out
    }
}

/// The keys that the text field reacts to.
#[derive(Debug, Clone, Copy, PartialEq, Eq, Structural)]
pub enum Key {
    Enter,
    Backspace,
    Delete,
    Left,
    Right,
    Home,
    End,
    A,
    X,
    C,
    V,
    Other,
}

/// The modifiers held with a key: `select` extends the selection, `command`
/// is the platform's shortcut key.
#[derive(Debug, Clone, Copy, PartialEq, Eq, Structural)]
pub struct KeyModifiers {
    pub select: bool,
    pub command: bool,
}

/// What a key press asks of the text field.
#[derive(Debug, Clone, Copy, PartialEq, Eq, Structural)]
pub enum EditCommand {
    Newline,
    Backspace,
    Delete,
    MoveLeft { extend: bool },
    MoveRight { extend: bool },
    MoveHome { extend: bool },
    MoveEnd { extend: bool },
    SelectAll,
    Cut,
    Copy,
    Paste,
}

/// The command of a key pressed (or repeated) with `mods`: editing and
/// movement keys always, letters only as shortcuts.
pub open spec fn command_for(key: Key, mods: KeyModifiers) -> Option<EditCommand> {
    match key {
        Key::Enter => Some(EditCommand::Newline),
        Key::Backspace => Some(EditCommand::Backspace),
        Key::Delete => Some(EditCommand::Delete),
        Key::Left => Some(EditCommand::MoveLeft { extend: mods.select }),
        Key::Right => Some(EditCommand::MoveRight { extend: mods.select }),
        Key::Home => Some(EditCommand::MoveHome { extend: mods.select }),
        Key::End => Some(EditCommand::MoveEnd { extend: mods.select }),
        Key::A => if mods.command {
            Some(EditCommand::SelectAll)
        } else {
            None
        },
        Key::X => if mods.command {
            Some(EditCommand::Cut)
        } else {
            None
        },
        Key::C => if mods.command {
            Some(EditCommand::Copy)
        } else {
            None
        },
        Key::V => if mods.command {
            Some(EditCommand::Paste)
        } else {
            None
        },
        Key::Other => None,
    }
}

pub fn key_command(key: Key, mods: KeyModifiers) -> (r: Option<EditCommand>)
    ensures
        r == command_for(key, mods),
{
    match key {
        Key::Enter => Some(EditCommand::Newline),
        Key::Backspace => Some(EditCommand::Backspace),
        Key::Delete => Some(EditCommand::Delete),
        Key::Left => Some(EditCommand::MoveLeft { extend: mods.select }),
        Key::Right => Some(EditCommand::MoveRight { extend: mods.select }),
        Key::Home => Some(EditCommand::MoveHome { extend: mods.select }),
        Key::End => Some(EditCommand::MoveEnd { extend: mods.select }),
        Key::A | Key::X | Key::C | Key::V => {
            if !mods.command {
                None
            } else {
                match key {
                    Key::A => Some(EditCommand::SelectAll),
                    Key::X => Some(EditCommand::Cut),
                    Key::C => Some(EditCommand::Copy),
                    _ => Some(EditCommand::Paste),
                }
            }
        },
        Key::Other => None,
    }
}

} // verus!
