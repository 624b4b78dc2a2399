//! The keyboard listener: what each key stroke asks for.
//!
//! Waiting for a key and reading it are the caller's part; here a key
//! stroke that has been read is turned into a command, the command into a
//! step on the speed ladder and a change of the control state.

use vstd::prelude::*;
use crate::app::{App, Update};
use crate::speed::{step_down, step_up, TimeoutIter};

verus! {

/// How long the listener waits for a key before it looks again, in
/// milliseconds.
pub const POLL_MS: u64 = 150;

/// A key event as the listener sees it.
#[derive(Clone, Copy, Debug)]
pub struct KeyStroke {
    /// The character of the key, for a key that has one.
    pub symbol: Option<char>,
    /// Whether the control key was held.
    pub control: bool,
    /// Whether the key went down; false for a release or a repeat.
    pub pressed: bool,
}

/// What a key stroke asks for.
#[derive(Clone, Copy, Debug, PartialEq, Eq, Structural)]
pub enum Command {
    /// Nothing: the key has no meaning here.
    Ignore,
    /// End the program.
    Exit,
    /// Pause the show, or resume it.
    TogglePause,
    /// Move one step down the speed ladder.
    StepDown,
    /// Move one step up the speed ladder.
    StepUp,
}

/// The command of a key stroke. Only a key going down counts. With the
/// control key held, `c` asks for the exit and nothing else has a meaning;
/// without it, `q` asks for the exit, `p` toggles the pause, `j` steps
/// down the ladder and `k` steps up.
pub open spec fn command_of(key: KeyStroke) -> Command {
    if !key.pressed {
        Command::Ignore
    } else if key.control {
        if key.symbol == Some('c') {
            Command::Exit
        } else {
            Command::Ignore
        }
    } else if key.symbol == Some('q') {
        Command::Exit
    } else if key.symbol == Some('p') {
        Command::TogglePause
    } else if key.symbol == Some('j') {
        Command::StepDown
    } else if key.symbol == Some('k') {
        Command::StepUp
    } else {
        Command::Ignore
    }
}

/// The command of a key stroke.
pub fn command(key: &KeyStroke) -> (c: Command)
    ensures
        c == command_of(*key),
{
    if !key.pressed {
        return Command::Ignore;
    }
    match key.symbol {
        Some(symbol) => {
            if key.control {
                if symbol == 'c' {
                    Command::Exit
                } else {
                    Command::Ignore
                }
            } else if symbol == 'q' {
                Command::Exit
            } else if symbol == 'p' {
                Command::TogglePause
            } else if symbol == 'j' {
                Command::StepDown
            } else if symbol == 'k' {
                Command::StepUp
            } else {
                Command::Ignore
            }
        },
        None => Command::Ignore,
    }
}

/// Takes the step on the ladder `del` that `key` asks for, if it asks for
/// one, and says how the control state is to change: a step on the ladder
/// sets the frame delay to the delay the cursor then stands on. Any other
/// key leaves the ladder alone.
pub fn update_for(del: &mut TimeoutIter, key: &KeyStroke) -> (update: Update)
    ensures
        final(del).delays() == old(del).delays(),
        match command_of(*key) {
            Command::Ignore => update == Update::Nothing && final(del).cursor() == old(
                del,
            ).cursor(),
            Command::Exit => update == Update::Exit && final(del).cursor() == old(del).cursor(),
            Command::TogglePause => update == Update::TogglePause && final(del).cursor() == old(
                del,
            ).cursor(),
            Command::StepDown => {
                &&& final(del).cursor() == step_down(
                    old(del).delays().len() as int,
                    old(del).cursor(),
                )
                &&& update == Update::SetDelay(final(del).current())
            },
            Command::StepUp => {
                &&& final(del).cursor() == step_up(
                    old(del).delays().len() as int,
                    old(del).cursor(),
                )
                &&& update == Update::SetDelay(final(del).current())
            },
        },
        update matches Update::SetDelay(ms) ==> old(del).delays().contains(ms),
{
    match command(key) {
        Command::Ignore => Update::Nothing,
        Command::Exit => Update::Exit,
        Command::TogglePause => Update::TogglePause,
        Command::StepDown => Update::SetDelay(del.prev()),
        Command::StepUp => Update::SetDelay(del.next()),
    }
}

/// Handles one key stroke: takes the step on the ladder that it asks for
/// and carries the change out on the shared control state.
pub fn hotkeys(a: &App, del: &mut TimeoutIter, key: &KeyStroke)
    ensures
        final(del).delays() == old(del).delays(),
        final(del).cursor() == match command_of(*key) {
            Command::StepDown => step_down(old(del).delays().len() as int, old(del).cursor()),
            Command::StepUp => step_up(old(del).delays().len() as int, old(del).cursor()),
            _ => old(del).cursor(),
        },
{
    let update = update_for(del, key);
    a.apply(update);
}

} // verus!
