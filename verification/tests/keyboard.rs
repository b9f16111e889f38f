use chip8::display::Display;
use chip8::keyboard::Keyboard;
use chip8::processor::{Processor, ProcessorState};

/// A fresh keypad has no key pressed.
#[test]
fn new_keypad_is_all_released() {
    let kb = Keyboard::new();
    assert_eq!(kb.read(), [false; 16]);
}

/// `toggle` records a key-down pulse and never releases anything.
#[test]
fn toggle_sets_and_keeps_slots() {
    let mut kb = Keyboard::new();
    kb.toggle(5);
    kb.toggle(0xC);
    kb.toggle(5);
    let pad = kb.read();
    for k in 0..16 {
        assert_eq!(pad[k], k == 5 || k == 0xC);
    }
}

/// `read` hands out a snapshot copy, decoupled from later toggles.
#[test]
fn read_returns_a_decoupled_snapshot() {
    let mut kb = Keyboard::new();
    kb.toggle(1);
    let snapshot = kb.read();
    kb.toggle(9);
    assert!(snapshot[1]);
    assert!(!snapshot[9]);
    assert!(kb.read()[9]);
}

/// `clear_state` and its short alias release every key.
#[test]
fn clearing_releases_every_key() {
    let mut kb = Keyboard::new();
    for k in 0..16 {
        kb.toggle(k);
    }
    kb.clear_state();
    assert_eq!(kb.read(), [false; 16]);
    kb.toggle(3);
    kb.clear();
    assert_eq!(kb.read(), [false; 16]);
}

/// A keypad snapshot feeds the interpreter: a toggled key unblocks `FX0A`.
#[test]
fn snapshot_drives_a_blocked_interpreter() {
    let mut p = Processor::default();
    let mut d = Display::new();
    let mut kb = Keyboard::new();
    p.load_rom(&[0xF4, 0x0A]).unwrap();
    assert_eq!(p.next(&kb.read(), &mut d), Ok(ProcessorState::BlockForIO));
    kb.toggle(0xE);
    assert_eq!(p.next(&kb.read(), &mut d), Ok(ProcessorState::Continue));
    assert_eq!(p.read_register(4), 0xE);
}
