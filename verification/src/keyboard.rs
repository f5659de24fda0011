use vstd::prelude::*;

verus! {

/// Logical key code reserved for the escape key, which requests a quit.
pub const ESCAPE_KEY: u8 = 0xFF;

/// Number of distinct logical key codes a keyboard tracks.
pub const KEY_CODE_COUNT: usize = 256;

/// Tracks which logical keys are currently held down. The mapping from
/// physical keys to logical key codes is the concern of whatever feeds
/// `press` and `release`; this type only keeps the pressed-key state.
pub struct Keyboard {
    pressed: Vec<bool>,
}

impl View for Keyboard {
    type V = Seq<bool>;

    closed spec fn view(&self) -> Seq<bool> {
        self.pressed@
    }
}

impl Keyboard {
    #[verifier::type_invariant]
    spec fn inv(self) -> bool {
        self.pressed@.len() == KEY_CODE_COUNT
    }

    /// A keyboard with no key held down.
    pub fn new() -> (r: Keyboard)
        ensures
            r@.len() == KEY_CODE_COUNT,
            forall|k: int| 0 <= k < KEY_CODE_COUNT ==> !r@[k],
    {
        let mut pressed: Vec<bool> = Vec::new();
        let mut k: usize = 0;
        while k < KEY_CODE_COUNT
            invariant
                k <= KEY_CODE_COUNT,
                pressed@.len() == k,
                forall|j: int| 0 <= j < k ==> !pressed@[j],
            decreases KEY_CODE_COUNT - k,
        {
            pressed.push(false);
            k += 1;
        }
        Keyboard { pressed }
    }

    /// Record that a key went down.
    pub fn press(&mut self, key: u8)
        ensures
            final(self)@ == old(self)@.update(key as int, true),
    {
        proof {
            use_type_invariant(&*self);
        }
        self.pressed[key as usize] = true;
    }

    /// Record that a key went up.
    pub fn release(&mut self, key: u8)
        ensures
            final(self)@ == old(self)@.update(key as int, false),
    {
        proof {
            use_type_invariant(&*self);
        }
        self.pressed[key as usize] = false;
    }

    /// Whether a key is currently held down.
    pub fn is_pressed(&self, key: &u8) -> (r: bool)
        ensures
            r == self@[*key as int],
    {
        proof {
            use_type_invariant(self);
        }
        self.pressed[*key as usize]
    }

    /// Whether the escape key is currently held down.
    pub fn escape_is_pressed(&self) -> (r: bool)
        ensures
            r == self@[ESCAPE_KEY as int],
    {
        let key = ESCAPE_KEY;
        self.is_pressed(&key)
    }
}

}
