use vstd::prelude::*;
use crate::grid::step_cells;

verus! {

/// Whether the automaton advances on each tick.
#[derive(Clone, Copy, Debug, PartialEq, Eq, Structural)]
pub enum RunState {
    Paused,
    Running,
}

/// The application's run state.
#[derive(Clone, Copy, Debug, PartialEq, Eq, Structural)]
pub struct AppState(pub RunState);

/// The state after one press of the toggle key.
pub open spec fn toggled(s: RunState) -> RunState {
    match s {
        RunState::Paused => RunState::Running,
        RunState::Running => RunState::Paused,
    }
}

/// The alive flags after one tick in run state `s`: unchanged while paused,
/// one step while running.
pub open spec fn tick_cells(s: RunState, width: int, height: int, cells: Seq<bool>) -> Seq<bool> {
    match s {
        RunState::Paused => cells,
        RunState::Running => step_cells(width, height, cells),
    }
}

/// The alive flags after `n` ticks in run state `s`.
pub open spec fn ticks(s: RunState, width: int, height: int, cells: Seq<bool>, n: nat) -> Seq<bool>
    decreases n,
{
    if n == 0 {
        cells
    } else {
        tick_cells(s, width, height, ticks(s, width, height, cells, (n - 1) as nat))
    }
}

impl AppState {
    /// The state an application starts in: paused.
    pub fn new() -> (r: AppState)
        ensures
            r.0 == RunState::Paused,
    {
        AppState(RunState::Paused)
    }
}

/// Handles one frame of input: a press of the toggle key switches between
/// paused and running; otherwise the state is kept.
pub fn user_input(toggle_just_pressed: bool, app_state: &mut AppState)
    ensures
        final(app_state).0 == if toggle_just_pressed {
            toggled(old(app_state).0)
        } else {
            old(app_state).0
        },
{
    if toggle_just_pressed {
        if app_state.0 == RunState::Paused {
            app_state.0 = RunState::Running;
        } else {
            app_state.0 = RunState::Paused;
        }
    }
}

/// While paused, any number of ticks leaves every cell as it was; one press of
/// the toggle key then makes the next tick exactly one step of the rule.
pub proof fn lemma_pause_then_run(width: int, height: int, cells: Seq<bool>, n: nat)
    ensures
        ticks(RunState::Paused, width, height, cells, n) == cells,
        tick_cells(toggled(RunState::Paused), width, height, cells) == step_cells(
            width,
            height,
            cells,
        ),
    decreases n,
{
    if n > 0 {
        lemma_pause_then_run(width, height, cells, (n - 1) as nat);
    }
}

} // verus!
