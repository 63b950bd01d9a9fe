//! Discrete events flowing through the pipeline.

use vstd::prelude::*;

verus! {

/// A debounced transition of one switch, identified by its stable
/// `(row, column)` coordinate. Produced once per transition by the debouncer
/// and consumed exactly once by the layout engine.
#[derive(Clone, Copy, Debug, PartialEq, Eq, Structural)]
pub enum Event {
    Press(u8, u8),
    Release(u8, u8),
}

impl Event {
    /// Row of the coordinate the event is about.
    pub open spec fn row(&self) -> u8 {
        match *self {
            Event::Press(r, _) => r,
            Event::Release(r, _) => r,
        }
    }

    /// Column of the coordinate the event is about.
    pub open spec fn col(&self) -> u8 {
        match *self {
            Event::Press(_, c) => c,
            Event::Release(_, c) => c,
        }
    }

    /// An event whose coordinate lies inside the matrix.
    pub open spec fn in_range(&self) -> bool {
        self.row() < crate::grid::ROWS && self.col() < crate::grid::COLS
    }
}

/// A device-control signal surfaced verbatim to the caller. The engine never
/// performs the device action itself; the release of a custom key is the
/// trigger for the external fatal-action hook, its press is inert.
#[derive(Clone, Copy, Debug, PartialEq, Eq, Structural)]
pub enum CustomEvent {
    Press(u8),
    Release(u8),
}

} // verus!
