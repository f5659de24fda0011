use vstd::prelude::*;

use crate::error::EmulatorError;
use crate::keyboard::Keyboard;

verus! {

/// The capability port: everything the execution engine asks of the world
/// around it. Rendering, tone generation and key input vary by target
/// (native windowing, browser hosting, a headless test double), so the
/// engine depends only on this interface, never on a concrete backend.
///
/// Nothing is promised of these methods: the engine's contracts state what
/// holds of the machine whatever an implementation answers.
pub trait Platform {
    /// Update the visible display from the 64 by 32 pixel grid, given in
    /// row-major order.
    fn draw(&mut self, vram: &Vec<bool>);

    /// Begin continuous audible feedback; idempotent.
    fn start_beep(&mut self);

    /// End audible feedback; idempotent.
    fn stop_beep(&mut self);

    /// Sample the current key-press state; called once per run-loop
    /// iteration.
    fn scan_keys(&mut self);

    /// Non-blocking query of one key's current state.
    fn key_is_pressed(&self, key: &u8) -> bool;

    /// True once a user-level quit has been requested.
    fn should_quit(&mut self) -> bool;

    /// Block until the next accepted key press and return its logical key
    /// code, or report `Exit` if the user quits while waiting.
    fn await_keypress(&mut self) -> Result<u8, EmulatorError>;

    /// One fixed pacing delay per run-loop iteration, capping cycle
    /// throughput.
    fn pace(&mut self);
}

/// A no-op capability port: the test double. Key state is set
/// programmatically, a blocking wait consumes a queue of scripted key
/// presses (and reports a quit once the queue is empty), and rendering,
/// tone and pacing do nothing.
pub struct HeadlessPlatform {
    keyboard: Keyboard,
    queued_keys: Vec<u8>,
    quit_requested: bool,
    beeping: bool,
}

impl HeadlessPlatform {
    /// A port with no key held, no scripted presses and no quit requested.
    pub fn new() -> (r: HeadlessPlatform)
        ensures
            forall|k: int| 0 <= k < 256 ==> !r.keys()[k],
            r.queue() =~= Seq::<u8>::empty(),
            !r.quit(),
            !r.beeping(),
    {
        HeadlessPlatform {
            keyboard: Keyboard::new(),
            queued_keys: Vec::new(),
            quit_requested: false,
            beeping: false,
        }
    }

    /// The currently held keys, by key code.
    pub closed spec fn keys(self) -> Seq<bool> {
        self.keyboard@
    }

    /// The scripted key presses a blocking wait will hand out.
    pub closed spec fn queue(self) -> Seq<u8> {
        self.queued_keys@
    }

    /// Whether a quit has been requested.
    pub closed spec fn quit(self) -> bool {
        self.quit_requested
    }

    /// Whether the tone is on.
    pub closed spec fn beeping(self) -> bool {
        self.beeping
    }

    /// Hold a key down.
    pub fn hold_key(&mut self, key: u8)
        ensures
            final(self).keys() == old(self).keys().update(key as int, true),
            final(self).queue() == old(self).queue(),
            final(self).quit() == old(self).quit(),
            final(self).beeping() == old(self).beeping(),
    {
        self.keyboard.press(key);
    }

    /// Release a held key.
    pub fn release_key(&mut self, key: u8)
        ensures
            final(self).keys() == old(self).keys().update(key as int, false),
            final(self).queue() == old(self).queue(),
            final(self).quit() == old(self).quit(),
            final(self).beeping() == old(self).beeping(),
    {
        self.keyboard.release(key);
    }

    /// Script the key that the next blocking wait returns.
    pub fn queue_key(&mut self, key: u8)
        ensures
            final(self).queue() == old(self).queue().push(key),
            final(self).keys() == old(self).keys(),
            final(self).quit() == old(self).quit(),
            final(self).beeping() == old(self).beeping(),
    {
        self.queued_keys.push(key);
    }

    /// Ask the port to report a quit.
    pub fn request_quit(&mut self)
        ensures
            final(self).quit(),
            final(self).keys() == old(self).keys(),
            final(self).queue() == old(self).queue(),
            final(self).beeping() == old(self).beeping(),
    {
        self.quit_requested = true;
    }

    /// Whether the tone is currently on.
    pub fn is_beeping(&self) -> (r: bool)
        ensures
            r == self.beeping(),
    {
        self.beeping
    }
}

impl Platform for HeadlessPlatform {
    fn draw(&mut self, _vram: &Vec<bool>) {
    }

    fn start_beep(&mut self) {
        self.beeping = true;
    }

    fn stop_beep(&mut self) {
        self.beeping = false;
    }

    fn scan_keys(&mut self) {
    }

    fn key_is_pressed(&self, key: &u8) -> bool {
        self.keyboard.is_pressed(key)
    }

    fn should_quit(&mut self) -> bool {
        self.quit_requested
    }

    fn await_keypress(&mut self) -> Result<u8, EmulatorError> {
        if self.queued_keys.len() > 0 {
            Ok(self.queued_keys.remove(0))
        } else {
            Err(EmulatorError::Exit)
        }
    }

    fn pace(&mut self) {
    }
}

}
