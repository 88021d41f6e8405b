//! The decisions of the game loop: key decoding and what one tick does,
//! separated from the terminal, the clock and the signal listener.
use crate::game::{collides, moved, step, Frame, GameModel, GameState, TickOutcome};
use vstd::prelude::*;

verus! {

/// A key event as the input poller reports it.
#[derive(Clone, Copy, Debug, PartialEq, Eq, Structural)]
pub enum Key {
    Char(char),
    Esc,
    /// The interrupt combination (Ctrl+C).
    Interrupt,
    Other,
}

/// What a key asks of the game.
#[derive(Clone, Copy, Debug, PartialEq, Eq, Structural)]
pub enum Intent {
    Quit,
    Jump,
    Nothing,
}

/// What the loop must do after a tick.
#[derive(Clone, Copy, Debug, PartialEq, Eq, Structural)]
pub enum LoopAction {
    /// Leave the loop: restore the terminal and report the highscore.
    Shutdown,
    /// Show the final score of a run that just ended, then keep going.
    GameOver { score: u64 },
    /// Go on with the next tick.
    Continue,
}

/// `q`, `Esc` and the interrupt combination quit; space jumps; other keys do nothing.
pub open spec fn intent_of(key: Key) -> Intent {
    match key {
        Key::Char(c) => if c == 'q' {
            Intent::Quit
        } else if c == ' ' {
            Intent::Jump
        } else {
            Intent::Nothing
        },
        Key::Esc => Intent::Quit,
        Key::Interrupt => Intent::Quit,
        Key::Other => Intent::Nothing,
    }
}

pub fn decode_key(key: Key) -> (r: Intent)
    ensures
        r == intent_of(key),
{
    match key {
        Key::Char(c) => if c == 'q' {
            Intent::Quit
        } else if c == ' ' {
            Intent::Jump
        } else {
            Intent::Nothing
        },
        Key::Esc => Intent::Quit,
        Key::Interrupt => Intent::Quit,
        Key::Other => Intent::Nothing,
    }
}

/// The state a jump intent leaves: airborne with velocity -1, unless already airborne.
pub open spec fn jumped(m: GameModel) -> GameModel {
    if m.falling { m } else { GameModel { falling: true, velocity: -1, ..m } }
}

/// One tick of the loop after the frame was drawn. A shutdown request or a
/// quit key ends the loop with the state untouched; otherwise a jump key
/// starts a jump, the state advances one tick, and a collision is reported.
pub fn run_tick(game: &mut GameState, frame: &Frame, shutdown_requested: bool, key: Option<Key>) -> (r: LoopAction)
    requires
        old(game).wf(*frame),
    ensures
        final(game).wf(*frame),
        ({
            let quit = shutdown_requested || (key is Some && intent_of(key->0) == Intent::Quit);
            let m = if key is Some && intent_of(key->0) == Intent::Jump { jumped(old(game)@) } else { old(game)@ };
            &&& quit ==> r == LoopAction::Shutdown && final(game)@ == old(game)@
            &&& !quit ==> final(game)@ == step(m, *frame)
            &&& !quit && collides(moved(m, *frame).obstacles, m.cheats) ==> r == (LoopAction::GameOver { score: moved(m, *frame).score as u64 })
            &&& !quit && !collides(moved(m, *frame).obstacles, m.cheats) ==> r == LoopAction::Continue
        }),
{
    if shutdown_requested {
        return LoopAction::Shutdown;
    }
    let intent = match key {
        Some(k) => decode_key(k),
        None => Intent::Nothing,
    };
    match intent {
        Intent::Quit => {
            return LoopAction::Shutdown;
        },
        Intent::Jump => {
            game.jump();
        },
        Intent::Nothing => {},
    }
    match game.update(frame) {
        TickOutcome::GameOver { score } => LoopAction::GameOver { score },
        TickOutcome::Continue => LoopAction::Continue,
    }
}

} // verus!
