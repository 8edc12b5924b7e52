//! What the player holds down.

use vstd::prelude::*;

use super::Key;

verus! {

/// Which inputs are held down at the moment.
#[derive(Debug, Clone, Copy, PartialEq, Eq)]
pub struct Controls {
    pub forward: bool,
    pub backward: bool,
    pub left: bool,
    pub right: bool,
    pub up: bool,
    pub down: bool,
    pub left_click: bool,
    pub right_click: bool,
    pub debug_screen: bool,
}

impl Default for Controls {
    fn default() -> (r: Self)
        ensures
            r == Controls::released(),
    {
        Controls {
            forward: false,
            backward: false,
            left: false,
            right: false,
            up: false,
            down: false,
            left_click: false,
            right_click: false,
            debug_screen: false,
        }
    }
}

impl Controls {
    /// Nothing is held down.
    pub open spec fn released() -> Controls {
        Controls {
            forward: false,
            backward: false,
            left: false,
            right: false,
            up: false,
            down: false,
            left_click: false,
            right_click: false,
            debug_screen: false,
        }
    }

    /// These controls with `key` pressed or released.
    pub open spec fn with(self, key: Key, pressed: bool) -> Controls {
        match key {
            Key::Forward => Controls { forward: pressed, ..self },
            Key::Backward => Controls { backward: pressed, ..self },
            Key::Left => Controls { left: pressed, ..self },
            Key::Right => Controls { right: pressed, ..self },
            Key::Up => Controls { up: pressed, ..self },
            Key::Down => Controls { down: pressed, ..self },
            Key::LeftClick => Controls { left_click: pressed, ..self },
            Key::RightClick => Controls { right_click: pressed, ..self },
            Key::DebugScreen => Controls { debug_screen: pressed, ..self },
        }
    }

    /// Takes note that `key` was pressed or released; the other inputs stay
    /// as they are.
    pub fn keyboard_input(&mut self, key: Key, pressed: bool)
        ensures
            *final(self) == old(self).with(key, pressed),
    {
        match key {
            Key::Forward => {
                self.forward = pressed;
            },
            Key::Backward => {
                self.backward = pressed;
            },
            Key::Left => {
                self.left = pressed;
            },
            Key::Right => {
                self.right = pressed;
            },
            Key::Up => {
                self.up = pressed;
            },
            Key::Down => {
                self.down = pressed;
            },
            Key::LeftClick => {
                self.left_click = pressed;
            },
            Key::RightClick => {
                self.right_click = pressed;
            },
            Key::DebugScreen => {
                self.debug_screen = pressed;
            },
        }
    }
}

} // verus!
