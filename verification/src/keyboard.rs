use vstd::prelude::*;

verus! {

/// A key of the host keyboard, as far as the keypad layout cares.
#[derive(Clone, Copy, Debug, PartialEq, Eq, Structural)]
pub enum HostKey {
    Key1,
    Key2,
    Key3,
    Key4,
    Q,
    W,
    E,
    R,
    A,
    S,
    D,
    F,
    Z,
    X,
    C,
    V,
    /// Any key outside the 4x4 block that stands for the keypad.
    Other,
}

/// The CHIP-8 key that a host key stands for: the 4x4 block
/// `1234 / QWER / ASDF / ZXCV` is laid over the keypad
/// `123C / 456D / 789E / A0BF`.
pub open spec fn keypad_code(key: HostKey) -> Option<u8> {
    match key {
        HostKey::Key1 => Some(0x1u8),
        HostKey::Key2 => Some(0x2u8),
        HostKey::Key3 => Some(0x3u8),
        HostKey::Key4 => Some(0xCu8),
        HostKey::Q => Some(0x4u8),
        HostKey::W => Some(0x5u8),
        HostKey::E => Some(0x6u8),
        HostKey::R => Some(0xDu8),
        HostKey::A => Some(0x7u8),
        HostKey::S => Some(0x8u8),
        HostKey::D => Some(0x9u8),
        HostKey::F => Some(0xEu8),
        HostKey::Z => Some(0xAu8),
        HostKey::X => Some(0x0u8),
        HostKey::C => Some(0xBu8),
        HostKey::V => Some(0xFu8),
        HostKey::Other => None,
    }
}

/// The keypad: at most one key is held at a time.
pub struct Keyboard {
    key_pressed: Option<u8>,
}

impl View for Keyboard {
    type V = Option<u8>;

    closed spec fn view(&self) -> Option<u8> {
        self.key_pressed
    }
}

impl Keyboard {
    /// A keypad with no key held.
    pub fn new() -> (k: Keyboard)
        ensures
            k@ == None::<u8>,
    {
        Keyboard { key_pressed: None }
    }

    /// Whether `key_code` is the key being held.
    pub fn is_key_pressed(&self, key_code: u8) -> (pressed: bool)
        ensures
            pressed == (self@ == Some(key_code)),
    {
        match self.key_pressed {
            Some(key) => key == key_code,
            None => false,
        }
    }

    /// Records `key` as the key being held (`None`: no key).
    pub fn set_key_pressed(&mut self, key: Option<u8>)
        ensures
            final(self)@ == key,
    {
        self.key_pressed = key;
    }

    /// The key being held, if any.
    pub fn get_key_pressed(&self) -> (key: Option<u8>)
        ensures
            key == self@,
    {
        self.key_pressed
    }

    /// The keypad key that a host key stands for, if any.
    pub fn get_chip8_keycode(key: Option<HostKey>) -> (code: Option<u8>)
        ensures
            code == match key {
                Some(k) => keypad_code(k),
                None => None,
            },
    {
        match key {
            Some(HostKey::Key1) => Some(0x1),
            Some(HostKey::Key2) => Some(0x2),
            Some(HostKey::Key3) => Some(0x3),
            Some(HostKey::Key4) => Some(0xC),
            Some(HostKey::Q) => Some(0x4),
            Some(HostKey::W) => Some(0x5),
            Some(HostKey::E) => Some(0x6),
            Some(HostKey::R) => Some(0xD),
            Some(HostKey::A) => Some(0x7),
            Some(HostKey::S) => Some(0x8),
            Some(HostKey::D) => Some(0x9),
            Some(HostKey::F) => Some(0xE),
            Some(HostKey::Z) => Some(0xA),
            Some(HostKey::X) => Some(0x0),
            Some(HostKey::C) => Some(0xB),
            Some(HostKey::V) => Some(0xF),
            _ => None,
        }
    }
}

} // verus!
