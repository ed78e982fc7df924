use vstd::prelude::*;

verus! {

/// What the player asked for during one tick.
///
/// `left_key_pressed`, `right_key_pressed` and `up_key_pressed` are edges: each
/// is set only on the tick in which its key went down. `down_key_pressed` is a
/// level: it is set on every tick for which the key is held.
#[derive(Clone, Copy, Debug, PartialEq, Eq, Structural)]
pub struct Input {
    pub left_key_pressed: bool,
    pub right_key_pressed: bool,
    pub up_key_pressed: bool,
    pub down_key_pressed: bool,
}

impl Input {
    /// Forgets every key, so that the next tick starts with nothing pressed.
    pub fn reset(&mut self)
        ensures
            !final(self).left_key_pressed,
            !final(self).right_key_pressed,
            !final(self).up_key_pressed,
            !final(self).down_key_pressed,
    {
        self.left_key_pressed = false;
        self.right_key_pressed = false;
        self.up_key_pressed = false;
        self.down_key_pressed = false;
    }
}

} // verus!
