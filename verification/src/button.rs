use vstd::prelude::*;

verus! {

/// What a button looks like this frame. `Disabled` is absorbing: no
/// other state reaches it and it ignores all input.
#[derive(Clone, Copy, PartialEq, Eq, Structural, Debug)]
pub enum State {
    Idle,
    Hovered,
    Depressed,
    Disabled,
}

/// Whether the button's action fires on the press edge or the release.
#[derive(Clone, Copy, PartialEq, Eq, Structural, Debug)]
pub enum PressMode {
    Immediate,
    Release,
}

/// The left button's edge this frame: went down, came up, or neither.
#[derive(Clone, Copy, PartialEq, Eq, Structural, Debug)]
pub enum MousePressMode {
    Down,
    Up,
    Neither,
}

/// A four-state press/hover widget. The `fired` latch records an unread
/// activation: it survives frames until consumed, but a single press or
/// release can never fire twice.
pub struct Button {
    pub state: State,
    pub press_mode: PressMode,
    pub fired: bool,
}

impl Button {
    /// The frame-step of the state machine: leaving the rectangle always
    /// idles the button, a press depresses it, a release returns it to
    /// hovered, and a held press stays depressed even without an edge.
    pub open spec fn spec_next_state(prev: State, edge: MousePressMode, over: bool) -> State {
        if prev == State::Disabled {
            State::Disabled
        } else if !over {
            State::Idle
        } else if edge == MousePressMode::Down {
            State::Depressed
        } else if edge == MousePressMode::Up {
            State::Hovered
        } else if prev == State::Depressed {
            State::Depressed
        } else {
            State::Hovered
        }
    }

    /// Whether this frame latches the one-shot activation: the matching
    /// edge, over the rectangle, on a button that is not disabled.
    pub open spec fn spec_fires(
        prev: State,
        mode: PressMode,
        edge: MousePressMode,
        over: bool,
    ) -> bool {
        &&& prev != State::Disabled
        &&& over
        &&& ((edge == MousePressMode::Down && mode == PressMode::Immediate) || (edge
            == MousePressMode::Up && mode == PressMode::Release))
    }

    pub fn new(press_mode: PressMode, disabled: bool) -> (b: Button)
        ensures
            b.state == if disabled {
                State::Disabled
            } else {
                State::Idle
            },
            b.press_mode == press_mode,
            !b.fired,
    {
        Button {
            state: if disabled {
                State::Disabled
            } else {
                State::Idle
            },
            press_mode,
            fired: false,
        }
    }

    /// Advances one frame, given whether the pointer is over the
    /// button's rectangle and which left-button edge fired.
    pub fn update(&mut self, over: bool, edge: MousePressMode)
        ensures
            final(self).state == Self::spec_next_state(old(self).state, edge, over),
            final(self).fired == (old(self).fired || Self::spec_fires(
                old(self).state,
                old(self).press_mode,
                edge,
                over,
            )),
            final(self).press_mode == old(self).press_mode,
    {
        if self.state == State::Disabled {
            return;
        }
        if !over {
            self.state = State::Idle;
            return;
        }
        match edge {
            MousePressMode::Down => {
                if self.press_mode == PressMode::Immediate {
                    self.fired = true;
                }
                self.state = State::Depressed;
            },
            MousePressMode::Up => {
                if self.press_mode == PressMode::Release {
                    self.fired = true;
                }
                self.state = State::Hovered;
            },
            MousePressMode::Neither => {
                if self.state != State::Depressed {
                    self.state = State::Hovered;
                }
            },
        }
    }

    /// Reads and clears the activation latch: true at most once per
    /// press or release event, and an unread event is never lost.
    pub fn pressed(&mut self) -> (r: bool)
        ensures
            r == old(self).fired,
            !final(self).fired,
            final(self).state == old(self).state,
            final(self).press_mode == old(self).press_mode,
    {
        if self.fired {
            self.fired = false;
            true
        } else {
            false
        }
    }
}

} // verus!
