//! What the engine asks of its collaborators: a display sink and an input
//! source, and the plain values that pass between them.

use vstd::prelude::*;

verus! {

/// One pixel handed to a display: its column, its row and the value it now has.
#[derive(Clone, Copy, Debug, PartialEq, Eq, Structural)]
pub struct PixelData {
    pub x: usize,
    pub y: usize,
    pub val: bool,
}

/// A display sink. The engine owns the frame buffer and computes collisions
/// itself, so nothing is asked of an implementation.
pub trait Chip8Disp {
    /// Takes a batch of pixels with their new values and reports whether it
    /// saw a lit pixel go dark.
    fn set_pixel_data(&mut self, data: &[PixelData]) -> bool;

    /// Publishes the frame.
    fn draw(&mut self);

    /// Blanks the frame.
    fn clear(&mut self);
}

/// An input source. Nothing is asked of an implementation.
pub trait Chip8Input {
    /// The key that was pressed last and is still held, if any.
    fn last_key_pressed(&self) -> Option<Chip8Key>;

    /// Whether the key is down now.
    fn key_pressed(&self, key: Chip8Key) -> bool;

    /// Takes in pending input; `true` asks the caller to stop.
    fn poll(&mut self) -> bool;
}

/// One of the sixteen keys of the hexadecimal keypad.
#[derive(Clone, Copy, Debug, PartialEq, Eq, Structural)]
pub enum Chip8Key {
    Key0,
    Key1,
    Key2,
    Key3,
    Key4,
    Key5,
    Key6,
    Key7,
    Key8,
    Key9,
    KeyA,
    KeyB,
    KeyC,
    KeyD,
    KeyE,
    KeyF,
}

impl Chip8Key {
    /// The key's code, 0 to 15.
    pub open spec fn spec_code(self) -> u8 {
        match self {
            Chip8Key::Key0 => 0,
            Chip8Key::Key1 => 1,
            Chip8Key::Key2 => 2,
            Chip8Key::Key3 => 3,
            Chip8Key::Key4 => 4,
            Chip8Key::Key5 => 5,
            Chip8Key::Key6 => 6,
            Chip8Key::Key7 => 7,
            Chip8Key::Key8 => 8,
            Chip8Key::Key9 => 9,
            Chip8Key::KeyA => 10,
            Chip8Key::KeyB => 11,
            Chip8Key::KeyC => 12,
            Chip8Key::KeyD => 13,
            Chip8Key::KeyE => 14,
            Chip8Key::KeyF => 15,
        }
    }

    /// The key with the given code. A code above 15 is refused with the text
    /// `Invalid Key token`.
    pub fn new(value: u8) -> (r: Result<Chip8Key, String>)
        ensures
            match r {
                Ok(key) => value < 16 && key.code() == value,
                Err(e) => value >= 16 && e@ == "Invalid Key token"@,
            },
    {
        match value {
            0 => Ok(Chip8Key::Key0),
            1 => Ok(Chip8Key::Key1),
            2 => Ok(Chip8Key::Key2),
            3 => Ok(Chip8Key::Key3),
            4 => Ok(Chip8Key::Key4),
            5 => Ok(Chip8Key::Key5),
            6 => Ok(Chip8Key::Key6),
            7 => Ok(Chip8Key::Key7),
            8 => Ok(Chip8Key::Key8),
            9 => Ok(Chip8Key::Key9),
            10 => Ok(Chip8Key::KeyA),
            11 => Ok(Chip8Key::KeyB),
            12 => Ok(Chip8Key::KeyC),
            13 => Ok(Chip8Key::KeyD),
            14 => Ok(Chip8Key::KeyE),
            15 => Ok(Chip8Key::KeyF),
            _ => Err("Invalid Key token".to_string()),
        }
    }

    /// The key's code, 0 to 15.
    #[verifier::when_used_as_spec(spec_code)]
    pub fn code(self) -> (r: u8)
        ensures
            r == self.spec_code(),
            r < 16,
    {
        match self {
            Chip8Key::Key0 => 0,
            Chip8Key::Key1 => 1,
            Chip8Key::Key2 => 2,
            Chip8Key::Key3 => 3,
            Chip8Key::Key4 => 4,
            Chip8Key::Key5 => 5,
            Chip8Key::Key6 => 6,
            Chip8Key::Key7 => 7,
            Chip8Key::Key8 => 8,
            Chip8Key::Key9 => 9,
            Chip8Key::KeyA => 10,
            Chip8Key::KeyB => 11,
            Chip8Key::KeyC => 12,
            Chip8Key::KeyD => 13,
            Chip8Key::KeyE => 14,
            Chip8Key::KeyF => 15,
        }
    }
}

/// A key is known by its code: two keys with one code are one key.
pub proof fn key_code_is_injective(a: Chip8Key, b: Chip8Key)
    requires
        a.code() == b.code(),
    ensures
        a == b,
{
}

} // verus!
