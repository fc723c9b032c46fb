//! Detection of terminal resizes between frames.
use vstd::prelude::*;

use crate::geometry::TerminalGeometry;

verus! {

/// Compares the current geometry with the last one seen. Returns the geometry to
/// remember and whether a full-screen clear is due: exactly when they differ.
pub fn check_and_handle(current: TerminalGeometry, last_known: TerminalGeometry) -> (r: (
    TerminalGeometry,
    bool,
))
    ensures
        r.0 == current,
        r.1 == (current != last_known),
{
    let changed = current.columns != last_known.columns || current.rows != last_known.rows;
    (current, changed)
}

/// Watches the terminal's geometry from one frame to the next, and says when the
/// screen must be cleared in full before the next frame is drawn.
#[derive(Clone, Copy, Debug, PartialEq, Eq, Structural)]
pub struct EventManager {
    pub last_known: TerminalGeometry,
}

impl EventManager {
    /// A monitor that starts from the geometry captured when playback began.
    pub fn new(initial: TerminalGeometry) -> (m: EventManager)
        ensures
            m.last_known == initial,
    {
        EventManager { last_known: initial }
    }

    /// Samples the current geometry once: remembers it, and returns whether it
    /// differs from the last one seen, in which case a full clear is due.
    pub fn run(&mut self, current: TerminalGeometry) -> (clear: bool)
        ensures
            clear == (current != old(self).last_known),
            final(self).last_known == current,
    {
        let (seen, clear) = check_and_handle(current, self.last_known);
        self.last_known = seen;
        clear
    }
}

} // verus!
