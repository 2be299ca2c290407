use std::cell::RefCell;
use std::rc::Rc;

use chip8_emulator::chip8::Chip8;
use chip8_emulator::frame::FrameBuffer;
use chip8_emulator::state::ExecError;
use chip8_emulator::peripherals::{Chip8Disp, Chip8Input, Chip8Key, PixelData};
use chip8_emulator::timer::TimerClock;

/// What a display was told, in order.
#[derive(Debug, PartialEq)]
enum Told {
    Clear,
    Pixels(Vec<PixelData>),
    Draw,
}

/// A display that stores what it is handed and keeps a record of the calls.
struct Recorder {
    frame: FrameBuffer,
    log: Rc<RefCell<Vec<Told>>>,
    lit: Rc<RefCell<Vec<(usize, usize)>>>,
}

impl Chip8Disp for Recorder {
    fn set_pixel_data(&mut self, data: &[PixelData]) -> bool {
        self.log.borrow_mut().push(Told::Pixels(data.to_vec()));
        self.frame.set_pixel_data(data)
    }

    fn draw(&mut self) {
        self.log.borrow_mut().push(Told::Draw);
        *self.lit.borrow_mut() = self.frame.lit_pixels();
    }

    fn clear(&mut self) {
        self.log.borrow_mut().push(Told::Clear);
        self.frame.clear();
        *self.lit.borrow_mut() = self.frame.lit_pixels();
    }
}

/// A keyboard that answers from a script.
struct Script {
    quit_at_poll: Option<usize>,
    polls: Rc<RefCell<usize>>,
    down: Vec<Chip8Key>,
    last: Rc<RefCell<Option<Chip8Key>>>,
}

impl Chip8Input for Script {
    fn last_key_pressed(&self) -> Option<Chip8Key> {
        *self.last.borrow()
    }

    fn key_pressed(&self, key: Chip8Key) -> bool {
        self.down.contains(&key)
    }

    fn poll(&mut self) -> bool {
        *self.polls.borrow_mut() += 1;
        self.quit_at_poll == Some(*self.polls.borrow())
    }
}

type Engine = Chip8<Recorder, Script>;

fn engine_with(program: &[u8]) -> Engine {
    let mut engine = Engine::new();
    engine.upload_rom(program).expect("the program fits");
    engine
}

fn recorder() -> (Recorder, Rc<RefCell<Vec<Told>>>, Rc<RefCell<Vec<(usize, usize)>>>) {
    let log = Rc::new(RefCell::new(Vec::new()));
    let lit = Rc::new(RefCell::new(Vec::new()));
    (Recorder { frame: FrameBuffer::new(), log: log.clone(), lit: lit.clone() }, log, lit)
}

fn script(down: Vec<Chip8Key>) -> (Script, Rc<RefCell<Option<Chip8Key>>>) {
    let last = Rc::new(RefCell::new(None));
    let keyboard =
        Script { quit_at_poll: None, polls: Rc::new(RefCell::new(0)), down, last: last.clone() };
    (keyboard, last)
}

#[test]
fn new_engine_starts_at_the_program_start() {
    let engine = Engine::new();
    assert_eq!(engine.machine().pc(), 0x200);
    assert_eq!(engine.machine().memory_at(0), 0xF0);
    assert_eq!(engine.machine().memory_at(0x200), 0);
}

#[test]
fn engine_upload_bounds() {
    let mut engine = Engine::new();
    assert_eq!(engine.upload_rom(&vec![7u8; 3584]), Ok(()));
    assert_eq!(engine.machine().memory_at(0xFFF), 7);
    let mut engine = Engine::new();
    assert_eq!(engine.upload_rom(&vec![7u8; 3585]), Err("Invalid program length!".to_string()));
    assert_eq!(engine.machine().memory_at(0x200), 0);
    assert_eq!(engine.machine().memory_at(0xFFF), 0);
    assert_eq!(engine.machine().pc(), 0x200);
}

#[test]
fn cycle_runs_without_collaborators() {
    // V0 = 0xFF; V1 = 1; V0 += V1.
    let mut engine = engine_with(&[0x60, 0xFF, 0x61, 0x01, 0x80, 0x14]);
    assert_eq!(engine.cycle_once(), Ok(false));
    assert_eq!(engine.cycle_once(), Ok(false));
    assert_eq!(engine.cycle_once(), Ok(false));
    assert_eq!(engine.machine().register(0), 0);
    assert_eq!(engine.machine().register(15), 1);
    assert_eq!(engine.machine().pc(), 0x206);
}

#[test]
fn system_calls_and_unknown_words_are_passed_over() {
    let mut engine = engine_with(&[0x01, 0x23, 0x81, 0x2F, 0xE1, 0x00, 0x60, 0x09]);
    for _ in 0..4 {
        assert_eq!(engine.cycle_once(), Ok(false));
    }
    assert_eq!(engine.machine().pc(), 0x208);
    assert_eq!(engine.machine().register(0), 9);
    assert_eq!(engine.machine().register(1), 0);
}

#[test]
fn fatal_errors_are_reported_and_repeat() {
    let mut engine = engine_with(&[0x00, 0xEE]);
    assert_eq!(engine.cycle_once(), Err(ExecError::StackUnderflow));
    assert_eq!(engine.cycle_once(), Err(ExecError::StackUnderflow));
    assert_eq!(engine.machine().pc(), 0x200);

    // A subroutine that calls itself.
    let mut engine = engine_with(&[0x22, 0x00]);
    for _ in 0..16 {
        assert_eq!(engine.cycle_once(), Ok(false));
    }
    assert_eq!(engine.cycle(3), Err(ExecError::StackOverflow));
    assert_eq!(engine.machine().stack_depth(), 16);

    // I = 0xFFF; store V0 and V1.
    let mut engine = engine_with(&[0xAF, 0xFF, 0xF1, 0x55]);
    assert_eq!(engine.cycle_once(), Ok(false));
    assert_eq!(engine.cycle_once(), Err(ExecError::OutOfBoundsMemoryAccess));
    assert_eq!(engine.machine().pc(), 0x202);
}

#[test]
fn running_off_the_end_of_memory_is_an_error() {
    // Jump to the last word of memory, which holds a system call.
    let mut engine = engine_with(&[0x1F, 0xFE]);
    assert_eq!(engine.cycle_once(), Ok(false));
    assert_eq!(engine.cycle_once(), Ok(false));
    assert_eq!(engine.machine().pc(), 0x1000);
    assert_eq!(engine.cycle_once(), Err(ExecError::OutOfBoundsMemoryAccess));
    assert_eq!(engine.machine().pc(), 0x1000);
}

#[test]
fn display_is_told_of_clears_and_draws() {
    // I = 0; draw five rows at (V0, V1); draw again; clear.
    let mut engine = engine_with(&[0xA0, 0x00, 0xD0, 0x15, 0xD0, 0x15, 0x00, 0xE0]);
    let (display, log, lit) = recorder();
    engine.connect_display(display);
    assert_eq!(engine.cycle_once(), Ok(false));
    assert!(log.borrow().is_empty());

    assert_eq!(engine.cycle_once(), Ok(false));
    assert_eq!(engine.machine().register(15), 0);
    assert_eq!(log.borrow().len(), 2);
    match &log.borrow()[0] {
        Told::Pixels(pixels) => {
            assert_eq!(pixels.len(), 40);
            assert_eq!(pixels[0], PixelData { x: 0, y: 0, val: true });
            assert_eq!(pixels[4], PixelData { x: 4, y: 0, val: false });
            assert_eq!(pixels[8 + 3], PixelData { x: 3, y: 1, val: true });
        }
        other => panic!("expected pixels, got {:?}", other),
    }
    assert_eq!(log.borrow()[1], Told::Draw);
    assert_eq!(*lit.borrow(), engine.machine().frame().lit_pixels());
    assert_eq!(lit.borrow().len(), 14);

    assert_eq!(engine.cycle_once(), Ok(false));
    assert_eq!(engine.machine().register(15), 1);
    assert_eq!(log.borrow().len(), 4);
    assert!(lit.borrow().is_empty());

    assert_eq!(engine.cycle_once(), Ok(false));
    assert_eq!(log.borrow().len(), 5);
    assert_eq!(log.borrow()[4], Told::Clear);
    assert_eq!(engine.machine().pc(), 0x208);
}

#[test]
fn display_that_stores_the_pixels_follows_the_engine() {
    // Three sprites that overlap, at (V0, V1) = (60, 30), (62, 31), (1, 0).
    let mut engine = engine_with(&[
        0x60, 60, 0x61, 30, 0xA0, 0x00, 0xD0, 0x15, //
        0x60, 62, 0x61, 31, 0xA0, 0x0A, 0xD0, 0x15, //
        0x60, 1, 0x61, 0, 0xA0, 0x14, 0xD0, 0x1F,
    ]);
    let (display, _log, lit) = recorder();
    engine.connect_display(display);
    for _ in 0..12 {
        assert_eq!(engine.cycle_once(), Ok(false));
    }
    assert_eq!(engine.machine().register(15), 1);
    assert!(!lit.borrow().is_empty());
    assert_eq!(*lit.borrow(), engine.machine().frame().lit_pixels());
}

#[test]
fn keyboard_can_ask_to_stop() {
    let mut engine = engine_with(&[0x60, 0x01, 0x61, 0x02]);
    let (mut keyboard, _last) = script(vec![]);
    keyboard.quit_at_poll = Some(2);
    let polls = keyboard.polls.clone();
    engine.connect_keyboard(keyboard);
    assert_eq!(engine.cycle_once(), Ok(false));
    assert_eq!(engine.machine().pc(), 0x202);
    // The second poll asks to stop: nothing is executed.
    assert_eq!(engine.cycle(5), Ok(true));
    assert_eq!(engine.machine().pc(), 0x202);
    assert_eq!(engine.machine().register(1), 0);
    assert_eq!(engine.cycle_once(), Ok(false));
    assert_eq!(engine.machine().register(1), 2);
    assert_eq!(*polls.borrow(), 3);
}

#[test]
fn key_skips_ask_the_keyboard() {
    // V0 = 0xA; skip if key V0 down; skip if key V0 up; V1 = 5; skip if key V1 up.
    let program = [0x60, 0x0A, 0xE0, 0x9E, 0x00, 0x00, 0xE0, 0xA1, 0x61, 0x05, 0xE1, 0xA1];
    let mut engine = engine_with(&program);
    let (keyboard, _last) = script(vec![Chip8Key::KeyA]);
    engine.connect_keyboard(keyboard);
    engine.cycle_once().unwrap();
    engine.cycle_once().unwrap();
    assert_eq!(engine.machine().pc(), 0x206);
    engine.cycle_once().unwrap();
    assert_eq!(engine.machine().pc(), 0x208);
    engine.cycle_once().unwrap();
    engine.cycle_once().unwrap();
    assert_eq!(engine.machine().pc(), 0x20E);

    // Without a keyboard neither skips.
    let mut engine = engine_with(&program);
    for _ in 0..3 {
        engine.cycle_once().unwrap();
    }
    assert_eq!(engine.machine().pc(), 0x206);
    let mut engine = engine_with(&[0xE0, 0xA1]);
    engine.cycle_once().unwrap();
    assert_eq!(engine.machine().pc(), 0x202);
}

#[test]
fn load_key_repeats_until_a_key_is_held() {
    let mut engine = engine_with(&[0xF3, 0x0A, 0x60, 0x01]);
    let (keyboard, last) = script(vec![]);
    engine.connect_keyboard(keyboard);
    for _ in 0..5 {
        assert_eq!(engine.cycle_once(), Ok(false));
        assert_eq!(engine.machine().pc(), 0x200);
    }
    *last.borrow_mut() = Some(Chip8Key::Key7);
    assert_eq!(engine.cycle_once(), Ok(false));
    assert_eq!(engine.machine().pc(), 0x202);
    assert_eq!(engine.machine().register(3), 7);

    // Without a keyboard it waits for good.
    let mut engine = engine_with(&[0xF3, 0x0A]);
    for _ in 0..5 {
        assert_eq!(engine.cycle_once(), Ok(false));
    }
    assert_eq!(engine.machine().pc(), 0x200);
}

#[test]
fn timers_keep_running_while_load_key_waits() {
    // V0 = 10; delay timer = V0; wait for a key.
    let mut engine = engine_with(&[0x60, 0x0A, 0xF0, 0x15, 0xF1, 0x0A]);
    engine.cycle(0).unwrap();
    engine.cycle(0).unwrap();
    assert_eq!(engine.machine().delay_timer(), 10);
    engine.cycle(1).unwrap();
    engine.cycle(2).unwrap();
    assert_eq!(engine.machine().pc(), 0x204);
    assert_eq!(engine.machine().delay_timer(), 7);
}

#[test]
fn random_bytes_are_masked() {
    // V0 = random & 0x0F, 64 times over; V1 = random & 0.
    let mut program = Vec::new();
    for _ in 0..64 {
        program.extend_from_slice(&[0xC0, 0x0F]);
    }
    program.extend_from_slice(&[0x61, 0xFF, 0xC1, 0x00]);
    let mut engine = engine_with(&program);
    let mut seen = Vec::new();
    for _ in 0..64 {
        assert_eq!(engine.cycle_once(), Ok(false));
        let value = engine.machine().register(0);
        assert!(value <= 0x0F);
        if !seen.contains(&value) {
            seen.push(value);
        }
    }
    // Sixty-four draws of sixteen values all alike: one chance in 16^63.
    assert!(seen.len() > 1);
    engine.cycle_once().unwrap();
    engine.cycle_once().unwrap();
    assert_eq!(engine.machine().register(1), 0);
    assert_eq!(engine.machine().pc(), 0x200 + 2 * 66);
}

#[test]
fn timers_go_by_the_clock_not_by_the_cycle() {
    // V0 = 200; delay timer = V0; sound timer = V0; jump to self.
    let mut engine = engine_with(&[0x60, 200, 0xF0, 0x15, 0xF0, 0x18, 0x12, 0x06]);
    let mut clock = TimerClock::new(5_000_000);
    for _ in 0..3 {
        assert_eq!(engine.cycle(clock.drain(5_000_000)), Ok(false));
    }
    assert_eq!(engine.machine().delay_timer(), 200);
    // A thousand cycles within 16 ms: less than one period of 60 Hz.
    for cycle in 0..1000u64 {
        let now = 5_000_000 + cycle * 16;
        assert_eq!(engine.cycle(clock.drain(now)), Ok(false));
    }
    assert_eq!(engine.machine().delay_timer(), 200);
    assert_eq!(engine.machine().sound_timer(), 200);
    // A thousand cycles over one second: sixty pulses.
    for cycle in 1..=1000u64 {
        let now = 5_000_000 + cycle * 1000;
        assert_eq!(engine.cycle(clock.drain(now)), Ok(false));
    }
    assert_eq!(engine.machine().delay_timer(), 140);
    assert_eq!(engine.machine().sound_timer(), 140);
    // One cycle after four more seconds: the timers stop at zero.
    assert_eq!(engine.cycle(clock.drain(10_000_000)), Ok(false));
    assert_eq!(engine.machine().delay_timer(), 0);
    assert_eq!(engine.machine().sound_timer(), 0);
}
