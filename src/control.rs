//! The decisions of the run loop: which input ends it, and its state after
//! each wait for input.

use vstd::prelude::*;

verus! {

/// How long each wait for input lasts, in milliseconds, before the next redraw.
pub const TICK_MILLIS: u64 = 500;

/// The key of a key event, as far as the run loop tells keys apart.
#[derive(Clone, Copy, Debug, PartialEq, Eq, Structural)]
pub enum KeyCode {
    Char(char),
    Esc,
    Other,
}

/// A key event: the key, and whether the control modifier was held.
#[derive(Clone, Copy, Debug, PartialEq, Eq, Structural)]
pub struct KeyEvent {
    pub code: KeyCode,
    pub control: bool,
}

/// The state of the run loop.
#[derive(Clone, Copy, Debug, PartialEq, Eq, Structural)]
pub enum LoopState {
    Running,
    Terminating,
}

/// A key that ends the loop: `q`, Escape, or `c` with the control modifier.
pub open spec fn quits(key: KeyEvent) -> bool {
    key.code == KeyCode::Char('q') || key.code == KeyCode::Esc || (key.code == KeyCode::Char('c')
        && key.control)
}

/// The state after a wait that ended with `input` (`None` when the wait timed
/// out or brought no key event).
pub open spec fn next_state(state: LoopState, input: Option<KeyEvent>) -> LoopState {
    match input {
        Some(key) if quits(key) => LoopState::Terminating,
        _ => state,
    }
}

/// Whether `key` ends the loop.
pub fn is_quit(key: &KeyEvent) -> (r: bool)
    ensures
        r == quits(*key),
{
    match key.code {
        KeyCode::Char(c) => c == 'q' || (c == 'c' && key.control),
        KeyCode::Esc => true,
        KeyCode::Other => false,
    }
}

/// The state of the loop after a wait that ended with `input`: `Terminating`
/// once a quit key comes, the same state for any other key and for a wait that
/// timed out. `Terminating` is never left.
pub fn step(state: LoopState, input: Option<KeyEvent>) -> (r: LoopState)
    ensures
        r == next_state(state, input),
        state == LoopState::Terminating ==> r == LoopState::Terminating,
        input.is_none() ==> r == state,
{
    match input {
        Some(key) => {
            if is_quit(&key) {
                LoopState::Terminating
            } else {
                state
            }
        },
        None => state,
    }
}

/// Whether a wait ended with a quit key.
pub open spec fn quit_input(input: Option<KeyEvent>) -> bool {
    match input {
        Some(key) => quits(key),
        None => false,
    }
}

/// The state of the loop after a run of waits, each ending with one of
/// `inputs` in turn, starting from `state`.
pub open spec fn state_after(state: LoopState, inputs: Seq<Option<KeyEvent>>) -> LoopState
    decreases inputs.len(),
{
    if inputs.len() == 0 {
        state
    } else {
        next_state(state_after(state, inputs.drop_last()), inputs.last())
    }
}

/// A loop that starts running is terminating after a run of waits exactly when
/// one of them brought a quit key: other keys and waits that timed out keep it
/// running, iteration after iteration.
pub proof fn lemma_run_ends_only_on_quit(inputs: Seq<Option<KeyEvent>>)
    ensures
        (state_after(LoopState::Running, inputs) == LoopState::Terminating) <==> (exists|i: int|
            0 <= i < inputs.len() && #[trigger] quit_input(inputs[i])),
    decreases inputs.len(),
{
    if inputs.len() > 0 {
        let front = inputs.drop_last();
        lemma_run_ends_only_on_quit(front);
        if exists|i: int| 0 <= i < front.len() && #[trigger] quit_input(front[i]) {
            let i = choose|i: int| 0 <= i < front.len() && #[trigger] quit_input(front[i]);
            assert(quit_input(inputs[i]));
        }
        if quit_input(inputs.last()) {
            assert(quit_input(inputs[inputs.len() - 1]));
        }
        if exists|i: int| 0 <= i < inputs.len() && #[trigger] quit_input(inputs[i]) {
            let i = choose|i: int| 0 <= i < inputs.len() && #[trigger] quit_input(inputs[i]);
            if i < inputs.len() - 1 {
                assert(quit_input(front[i]));
            }
        }
    }
}

} // verus!
