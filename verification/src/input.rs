//! Input bookkeeping: the per-session state that turns the input
//! collaborator's raw signals (cursor position, button held or not) into
//! the events the grid and camera react to — a fresh click, a drag
//! delta — plus the UI counter messages.

use vstd::prelude::*;

verus! {

/// Remembers the cursor position of the previous drag frame, so the next
/// frame's position becomes a pixel delta.
#[derive(Clone, Copy, PartialEq, Eq, Structural, Debug)]
pub struct InputController {
    pub last_xpos: u16,
    pub last_ypos: u16,
}

impl InputController {
    /// A tracker that has seen no cursor yet, anchored at `(0, 0)`.
    pub fn new() -> (input: InputController)
        ensures
            input.last_xpos == 0,
            input.last_ypos == 0,
    {
        InputController { last_xpos: 0, last_ypos: 0 }
    }

    /// Anchor a beginning drag at the current cursor position, so the
    /// first frame of the drag produces a delta of zero.
    pub fn begin_drag(&mut self, x: u16, y: u16)
        ensures
            final(self).last_xpos == x,
            final(self).last_ypos == y,
    {
        self.last_xpos = x;
        self.last_ypos = y;
    }

    /// One drag frame: the pixel delta from the previously seen cursor
    /// position to `(x, y)`, which becomes the new anchor.
    pub fn drag_delta(&mut self, x: u16, y: u16) -> (delta: (i32, i32))
        ensures
            delta.0 == x as int - old(self).last_xpos as int,
            delta.1 == y as int - old(self).last_ypos as int,
            final(self).last_xpos == x,
            final(self).last_ypos == y,
    {
        let dx = (x as i32) - (self.last_xpos as i32);
        let dy = (y as i32) - (self.last_ypos as i32);
        self.last_xpos = x;
        self.last_ypos = y;
        (dx, dy)
    }
}

/// Remembers whether a mouse button was held on the previous frame, so
/// holding it across frames fires its action only once.
#[derive(Clone, Copy, PartialEq, Eq, Structural, Debug)]
pub struct ButtonTracker {
    pub down: bool,
}

impl ButtonTracker {
    /// A tracker for a button currently not held.
    pub fn new() -> (tracker: ButtonTracker)
        ensures
            !tracker.down,
    {
        ButtonTracker { down: false }
    }

    /// Feed one frame's "is the button held" signal; answers whether this
    /// frame is a fresh press (held now, but not on the previous frame).
    pub fn press_edge(&mut self, pressed: bool) -> (fresh: bool)
        ensures
            fresh == (pressed && !old(self).down),
            final(self).down == pressed,
    {
        let fresh = pressed && !self.down;
        self.down = pressed;
        fresh
    }
}

/// What the two UI counter buttons say.
#[derive(Debug, Clone, Copy, PartialEq, Eq, Structural)]
pub enum Message {
    IncrementPressed,
    DecrementPressed,
}

/// The UI counter's reaction to a button message: up by one or down by
/// one. The counter must have room to move, so it never wraps.
pub fn apply_message(value: i32, message: Message) -> (updated: i32)
    requires
        message is IncrementPressed ==> value < i32::MAX,
        message is DecrementPressed ==> value > i32::MIN,
    ensures
        updated == match message {
            Message::IncrementPressed => value + 1,
            Message::DecrementPressed => value - 1,
        },
{
    match message {
        Message::IncrementPressed => value + 1,
        Message::DecrementPressed => value - 1,
    }
}

} // verus!
