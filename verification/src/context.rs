//! What a tick is given: the time since the last tick and the input events.

use vstd::prelude::*;

verus! {

/// The keys that the run loop tells apart.
#[derive(Clone, Copy, Debug, PartialEq, Eq, Structural)]
pub enum VirtualKeyCode {
    Escape,
    Other,
}

/// An input or window event.
#[derive(Clone, Copy, Debug, PartialEq, Eq, Structural)]
pub enum Event {
    /// A key went down or up; `key` is the key's meaning, where it has one.
    KeyboardInput { pressed: bool, scancode: u8, key: Option<VirtualKeyCode> },
    /// The window was closed.
    Closed,
    /// Any other event.
    Other,
}

/// What the run loop does after a tick.
#[derive(Clone, Copy, Debug, PartialEq, Eq, Structural)]
pub enum Trans {
    /// Go on with the next tick.
    Continue,
    /// End the loop.
    Quit,
}

/// Whether an event asks the loop to end: the window was closed, or the
/// escape key was reported, going down or up.
pub open spec fn is_quit_event(event: Event) -> bool {
    match event {
        Event::Closed => true,
        Event::KeyboardInput { key: Some(VirtualKeyCode::Escape), .. } => true,
        _ => false,
    }
}

/// Whether any of the events asks the loop to end.
pub open spec fn any_quit_event(events: Seq<Event>) -> bool {
    exists|i: int| 0 <= i < events.len() && is_quit_event(#[trigger] events[i])
}

/// The context of one tick.
pub struct TickContext {
    /// The time since the last tick, where it is known.
    pub delta_time: Option<i64>,
    /// The events that arrived since the last tick.
    pub events: Vec<Event>,
}

impl TickContext {
    /// The time since the last tick; zero where it is not known, as on the first tick.
    pub open spec fn elapsed(&self) -> int {
        match self.delta_time {
            Some(dt) => dt as int,
            None => 0,
        }
    }

    /// The time since the last tick: see [`TickContext::elapsed`].
    pub fn dt(&self) -> (dt: i64)
        ensures
            dt == self.elapsed(),
    {
        match self.delta_time {
            Some(dt) => dt,
            None => 0,
        }
    }

    /// Whether an event of this tick asks the loop to end.
    pub fn quit_requested(&self) -> (b: bool)
        ensures
            b == any_quit_event(self.events@),
    {
        let mut i: usize = 0;
        while i < self.events.len()
            invariant
                i <= self.events@.len(),
                forall|k: int| 0 <= k < i ==> !is_quit_event(#[trigger] self.events@[k]),
            decreases self.events@.len() - i,
        {
            match self.events[i] {
                Event::Closed => {
                    return true;
                },
                Event::KeyboardInput { key: Some(VirtualKeyCode::Escape), .. } => {
                    return true;
                },
                _ => {},
            }
            i += 1;
        }
        false
    }
}

} // verus!
