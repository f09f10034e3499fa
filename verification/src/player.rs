//! What the player asks for: the six actions, and a snapshot of their
//! state at one tick.

use vstd::prelude::*;

verus! {

/// The actions of the player.
#[derive(Clone, Copy, Debug, PartialEq, Eq, Structural)]
pub enum Action {
    Left,
    Right,
    Down,
    RotateClock,
    RotateAnti,
    Pause,
}

/// One flag for each action.
#[derive(Clone, Copy, Debug, PartialEq, Eq, Structural)]
pub struct ActionFlags {
    pub left: bool,
    pub right: bool,
    pub down: bool,
    pub rotate_clock: bool,
    pub rotate_anti: bool,
    pub pause: bool,
}

impl ActionFlags {
    /// The flag of `action`.
    pub open spec fn has(self, action: Action) -> bool {
        match action {
            Action::Left => self.left,
            Action::Right => self.right,
            Action::Down => self.down,
            Action::RotateClock => self.rotate_clock,
            Action::RotateAnti => self.rotate_anti,
            Action::Pause => self.pause,
        }
    }

    /// No flag is set.
    pub fn none() -> (flags: ActionFlags)
        ensures
            forall|action: Action| !flags.has(action),
    {
        ActionFlags {
            left: false,
            right: false,
            down: false,
            rotate_clock: false,
            rotate_anti: false,
            pause: false,
        }
    }

    /// These flags and the flag of `action`.
    pub fn with(self, action: Action) -> (flags: ActionFlags)
        ensures
            forall|other: Action| flags.has(other) == (other == action || self.has(other)),
    {
        let mut flags = self;
        match action {
            Action::Left => flags.left = true,
            Action::Right => flags.right = true,
            Action::Down => flags.down = true,
            Action::RotateClock => flags.rotate_clock = true,
            Action::RotateAnti => flags.rotate_anti = true,
            Action::Pause => flags.pause = true,
        }
        flags
    }

    /// The flag of `action`.
    pub fn get(&self, action: Action) -> (set: bool)
        ensures
            set == self.has(action),
    {
        match action {
            Action::Left => self.left,
            Action::Right => self.right,
            Action::Down => self.down,
            Action::RotateClock => self.rotate_clock,
            Action::RotateAnti => self.rotate_anti,
            Action::Pause => self.pause,
        }
    }
}

/// The state of the actions at one tick: which are held, which went down
/// since the tick before, which went up since the tick before.
#[derive(Clone, Copy, Debug, PartialEq, Eq, Structural)]
pub struct ActionState {
    pub pressed: ActionFlags,
    pub just_pressed: ActionFlags,
    pub just_released: ActionFlags,
}

impl ActionState {
    /// Nothing is held and nothing changed.
    pub fn new() -> (state: ActionState)
        ensures
            forall|action: Action|
                !state.pressed.has(action) && !state.just_pressed.has(action)
                    && !state.just_released.has(action),
    {
        ActionState {
            pressed: ActionFlags::none(),
            just_pressed: ActionFlags::none(),
            just_released: ActionFlags::none(),
        }
    }

    /// Is `action` held?
    pub fn pressed(&self, action: Action) -> (held: bool)
        ensures
            held == self.pressed.has(action),
    {
        self.pressed.get(action)
    }

    /// Did `action` go down since the tick before?
    pub fn just_pressed(&self, action: Action) -> (edge: bool)
        ensures
            edge == self.just_pressed.has(action),
    {
        self.just_pressed.get(action)
    }

    /// Did `action` go up since the tick before?
    pub fn just_released(&self, action: Action) -> (edge: bool)
        ensures
            edge == self.just_released.has(action),
    {
        self.just_released.get(action)
    }
}

} // verus!
