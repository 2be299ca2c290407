//! The keypad's state and the rules by which host key events change it.

use vstd::prelude::*;
use crate::peripherals::Chip8Key;

verus! {

/// The four-by-four layout: which character of a QWERTY keyboard stands for
/// which key of the keypad.
pub open spec fn layout(c: char) -> Option<Chip8Key> {
    if c == '1' {
        Some(Chip8Key::Key1)
    } else if c == '2' {
        Some(Chip8Key::Key2)
    } else if c == '3' {
        Some(Chip8Key::Key3)
    } else if c == '4' {
        Some(Chip8Key::KeyC)
    } else if c == 'q' {
        Some(Chip8Key::Key4)
    } else if c == 'w' {
        Some(Chip8Key::Key5)
    } else if c == 'e' {
        Some(Chip8Key::Key6)
    } else if c == 'r' {
        Some(Chip8Key::KeyD)
    } else if c == 'a' {
        Some(Chip8Key::Key7)
    } else if c == 's' {
        Some(Chip8Key::Key8)
    } else if c == 'd' {
        Some(Chip8Key::Key9)
    } else if c == 'f' {
        Some(Chip8Key::KeyE)
    } else if c == 'z' {
        Some(Chip8Key::KeyA)
    } else if c == 'x' {
        Some(Chip8Key::Key0)
    } else if c == 'c' {
        Some(Chip8Key::KeyB)
    } else if c == 'v' {
        Some(Chip8Key::KeyF)
    } else {
        None
    }
}

/// The key of the keypad that a character stands for, if any.
pub fn key_for_char(c: char) -> (r: Option<Chip8Key>)
    ensures
        r == layout(c),
{
    match c {
        '1' => Some(Chip8Key::Key1),
        '2' => Some(Chip8Key::Key2),
        '3' => Some(Chip8Key::Key3),
        'q' => Some(Chip8Key::Key4),
        'w' => Some(Chip8Key::Key5),
        'e' => Some(Chip8Key::Key6),
        'a' => Some(Chip8Key::Key7),
        's' => Some(Chip8Key::Key8),
        'd' => Some(Chip8Key::Key9),
        'x' => Some(Chip8Key::Key0),
        'z' => Some(Chip8Key::KeyA),
        'c' => Some(Chip8Key::KeyB),
        '4' => Some(Chip8Key::KeyC),
        'r' => Some(Chip8Key::KeyD),
        'f' => Some(Chip8Key::KeyE),
        'v' => Some(Chip8Key::KeyF),
        _ => None,
    }
}

/// Every key of the keypad has a character, and only one.
pub proof fn layout_is_a_bijection(key: Chip8Key)
    ensures
        exists|c: char| layout(c) == Some(key),
        forall|a: char, b: char| layout(a) == Some(key) && layout(b) == Some(key) ==> a == b,
{
    let c = match key {
        Chip8Key::Key0 => 'x',
        Chip8Key::Key1 => '1',
        Chip8Key::Key2 => '2',
        Chip8Key::Key3 => '3',
        Chip8Key::Key4 => 'q',
        Chip8Key::Key5 => 'w',
        Chip8Key::Key6 => 'e',
        Chip8Key::Key7 => 'a',
        Chip8Key::Key8 => 's',
        Chip8Key::Key9 => 'd',
        Chip8Key::KeyA => 'z',
        Chip8Key::KeyB => 'c',
        Chip8Key::KeyC => '4',
        Chip8Key::KeyD => 'r',
        Chip8Key::KeyE => 'f',
        Chip8Key::KeyF => 'v',
    };
    assert(layout(c) == Some(key));
}

/// What one host key event means to the keypad.
#[derive(Clone, Copy, Debug, PartialEq, Eq, Structural)]
pub enum KeyEvent {
    /// The user asks to stop.
    Quit,
    /// A host key went down; `None` where it stands for no key of the keypad.
    KeyDown(Option<Chip8Key>),
    /// A host key went up; `None` where it stands for no key of the keypad.
    KeyUp(Option<Chip8Key>),
    /// Nothing that concerns the keypad.
    Ignored,
}

/// A key as a terminal reports it: a character, or anything else.
#[derive(Clone, Copy, Debug, PartialEq, Eq, Structural)]
pub enum TerminalKey {
    Char(char),
    Other,
}

/// The event that a terminal key stands for.
pub open spec fn terminal_event(key: TerminalKey) -> KeyEvent {
    match key {
        TerminalKey::Char(c) => if c == 'p' {
            KeyEvent::Quit
        } else if layout(c) is Some {
            KeyEvent::KeyDown(layout(c))
        } else {
            KeyEvent::Ignored
        },
        TerminalKey::Other => KeyEvent::KeyDown(Some(Chip8Key::KeyA)),
    }
}

/// Reads a terminal key: `p` asks to stop, a character of the layout presses
/// its key, any other character is ignored, and a key that is no character
/// presses key A.
pub fn terminal_key_event(key: TerminalKey) -> (r: KeyEvent)
    ensures
        r == terminal_event(key),
{
    match key {
        TerminalKey::Char(c) => {
            if c == 'p' {
                KeyEvent::Quit
            } else {
                match key_for_char(c) {
                    Some(k) => KeyEvent::KeyDown(Some(k)),
                    None => KeyEvent::Ignored,
                }
            }
        },
        TerminalKey::Other => KeyEvent::KeyDown(Some(Chip8Key::KeyA)),
    }
}

/// The event that a key of a window stands for. `key` is the character of
/// the host key, where it has one; the escape character going down asks to stop.
pub open spec fn window_event(pressed: bool, key: Option<char>) -> KeyEvent {
    let mapped = match key {
        Some(c) => layout(c),
        None => None,
    };
    if pressed && key == Some('\u{1b}') {
        KeyEvent::Quit
    } else if pressed {
        KeyEvent::KeyDown(mapped)
    } else {
        KeyEvent::KeyUp(mapped)
    }
}

/// Reads a key event of a window.
pub fn window_key_event(pressed: bool, key: Option<char>) -> (r: KeyEvent)
    ensures
        r == window_event(pressed, key),
{
    let mapped = match key {
        Some(c) => {
            if pressed && c == '\u{1b}' {
                return KeyEvent::Quit;
            }
            key_for_char(c)
        },
        None => None,
    };
    if pressed {
        KeyEvent::KeyDown(mapped)
    } else {
        KeyEvent::KeyUp(mapped)
    }
}

/// The keypad as the engine reads it: the keys that are down, and the key
/// pressed last for as long as it is held.
pub struct KeyState {
    last_key_pressed: Option<Chip8Key>,
    keys_pressed: [bool; 16],
}

/// The model of a keypad.
pub ghost struct KeyStateView {
    pub last_key: Option<Chip8Key>,
    pub down: Set<Chip8Key>,
}

impl KeyStateView {
    /// The keypad after an event.
    pub open spec fn after(self, event: KeyEvent) -> KeyStateView {
        match event {
            KeyEvent::Quit => self,
            KeyEvent::Ignored => self,
            KeyEvent::KeyDown(key) => KeyStateView {
                last_key: key,
                down: match key {
                    Some(k) => self.down.insert(k),
                    None => self.down,
                },
            },
            KeyEvent::KeyUp(key) => KeyStateView {
                last_key: if self.last_key == key {
                    None
                } else {
                    self.last_key
                },
                down: match key {
                    Some(k) => self.down.remove(k),
                    None => self.down,
                },
            },
        }
    }
}

impl KeyStateView {
    /// The keypad after an event of a source that reports no releases, such
    /// as a terminal: a key that goes down is the only key that is down.
    pub open spec fn after_typed(self, event: KeyEvent) -> KeyStateView {
        match event {
            KeyEvent::KeyDown(key) => KeyStateView {
                last_key: key,
                down: match key {
                    Some(k) => Set::empty().insert(k),
                    None => Set::empty(),
                },
            },
            _ => self.after(event),
        }
    }
}

impl View for KeyState {
    type V = KeyStateView;

    closed spec fn view(&self) -> KeyStateView {
        KeyStateView {
            last_key: self.last_key_pressed,
            down: Set::new(|k: Chip8Key| self.keys_pressed@[k.code() as int]),
        }
    }
}

impl KeyState {
    /// A keypad with no key down.
    pub fn new() -> (r: KeyState)
        ensures
            r@.last_key is None,
            r@.down == Set::<Chip8Key>::empty(),
    {
        let r = KeyState { last_key_pressed: None, keys_pressed: [false; 16] };
        assert(r@.down =~= Set::<Chip8Key>::empty());
        r
    }

    /// The key pressed last, while it is held.
    pub fn last_key_pressed(&self) -> (r: Option<Chip8Key>)
        ensures
            r == self@.last_key,
    {
        self.last_key_pressed
    }

    /// Whether the key is down.
    pub fn key_pressed(&self, key: Chip8Key) -> (r: bool)
        ensures
            r == self@.down.contains(key),
    {
        self.keys_pressed[key.code() as usize]
    }

    /// Takes one event in and says whether it asks to stop.
    pub fn handle_event(&mut self, event: KeyEvent) -> (quit: bool)
        ensures
            final(self)@ == old(self)@.after(event),
            quit == (event == KeyEvent::Quit),
    {
        match event {
            KeyEvent::Quit => {
                return true;
            },
            KeyEvent::KeyDown(key) => {
                self.last_key_pressed = key;
                if let Some(k) = key {
                    self.keys_pressed[k.code() as usize] = true;
                    assert(self@.down =~= old(self)@.down.insert(k)) by {
                        assert forall|j: Chip8Key| j.code() == k.code() implies j == k by {
                            crate::peripherals::key_code_is_injective(j, k);
                        }
                    }
                }
            },
            KeyEvent::KeyUp(key) => {
                let same = match (self.last_key_pressed, key) {
                    (Some(a), Some(b)) => a.code() == b.code(),
                    (None, None) => true,
                    _ => false,
                };
                proof {
                    if let (Some(a), Some(b)) = (self.last_key_pressed, key) {
                        if a.code() == b.code() {
                            crate::peripherals::key_code_is_injective(a, b);
                        }
                    }
                }
                if same {
                    self.last_key_pressed = None;
                }
                if let Some(k) = key {
                    self.keys_pressed[k.code() as usize] = false;
                    assert(self@.down =~= old(self)@.down.remove(k)) by {
                        assert forall|j: Chip8Key| j.code() == k.code() implies j == k by {
                            crate::peripherals::key_code_is_injective(j, k);
                        }
                    }
                }
            },
            KeyEvent::Ignored => {},
        }
        false
    }

    /// Takes in one event of a source that reports no releases, such as a
    /// terminal, and says whether it asks to stop. A key that goes down
    /// releases every other key.
    pub fn handle_typed(&mut self, event: KeyEvent) -> (quit: bool)
        ensures
            final(self)@ == old(self)@.after_typed(event),
            quit == (event == KeyEvent::Quit),
    {
        match event {
            KeyEvent::KeyDown(key) => {
                self.last_key_pressed = key;
                self.keys_pressed = [false; 16];
                match key {
                    Some(k) => {
                        self.keys_pressed[k.code() as usize] = true;
                        assert(self@.down =~= Set::<Chip8Key>::empty().insert(k)) by {
                            assert forall|j: Chip8Key| j.code() == k.code() implies j == k by {
                                crate::peripherals::key_code_is_injective(j, k);
                            }
                        }
                    },
                    None => {
                        assert(self@.down =~= Set::<Chip8Key>::empty());
                    },
                }
                false
            },
            other => self.handle_event(other),
        }
    }
}

} // verus!
