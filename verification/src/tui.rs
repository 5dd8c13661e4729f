//! The decisions of the terminal front end: what each event leads to.
use vstd::prelude::*;

verus! {

/// What the terminal front end waits for.
#[derive(Debug, Clone, Copy, PartialEq, Eq)]
pub enum TuiEvent {
    /// The refresh timer fired.
    Tick,
    /// A key with a character was pressed.
    Key(char),
    /// Any other terminal event.
    Other,
}

/// What the front end does next.
#[derive(Debug, Clone, Copy, PartialEq, Eq)]
pub enum TuiAction {
    /// Draw the current portfolio again and wait for the next event.
    Redraw,
    /// Leave the front end.
    Quit,
}

/// The next step after an event: `q` quits, everything else redraws.
pub fn next_action(event: TuiEvent) -> (action: TuiAction)
    ensures
        action == (if event == TuiEvent::Key('q') {
            TuiAction::Quit
        } else {
            TuiAction::Redraw
        }),
{
    match event {
        TuiEvent::Key(c) => if c == 'q' {
            TuiAction::Quit
        } else {
            TuiAction::Redraw
        },
        _ => TuiAction::Redraw,
    }
}

} // verus!
