use dhe::keyboard::decode_events;
use dhe::keyboard::InputDevice;
use dhe::keyboard::Key;
use dhe::keyboard::KeyEvent;
use dhe::keyboard::KeyPosition;
use dhe::keyboard::KeyboardEmulator;
use dhe::keyboard::KeyboardError;
use dhe::keyboard::KeyboardListener;
use dhe::keyboard::KeyboardReader;
use dhe::keyboard::KeyboardState;
use dhe::keyboard::KeyboardWriter;
use dhe::keyboard::RawEvent;
use dhe::keyboard::ReadyDevice;
use dhe::keyboard::EVENT_KIND_KEY;
use dhe::keyboard::KEY_COUNT;

fn press(key: Key) -> KeyEvent {
    KeyEvent { key, position: KeyPosition::Press }
}

fn release(key: Key) -> KeyEvent {
    KeyEvent { key, position: KeyPosition::Release }
}

fn raw_key(code: u16, value: i32) -> RawEvent {
    RawEvent { kind: EVENT_KIND_KEY, code, value }
}

fn device(name: &str, keys: &[evdev::Key]) -> InputDevice {
    InputDevice { name: name.to_string(), keys: keys.iter().map(|key| key.code()).collect() }
}

fn keyboard() -> Vec<InputDevice> {
    vec![device("AT Translated Set 2 keyboard", &[evdev::Key::KEY_A, evdev::Key::KEY_ENTER])]
}

#[test]
fn ordinals_follow_the_catalog() {
    assert_eq!(Key::A.number(), 0);
    assert_eq!(Key::Z.number(), 25);
    assert_eq!(Key::K1.number(), 26);
    assert_eq!(Key::Enter.number(), 36);
    assert_eq!(Key::KeypadDot.number(), KEY_COUNT - 1);
    for n in 0..KEY_COUNT {
        let key = Key::from_number(n).unwrap();
        assert_eq!(key.number(), n);
    }
    assert_eq!(Key::from_number(KEY_COUNT), None);
    assert_eq!(Key::from_number(u32::MAX), None);
}

#[test]
fn codes_are_those_of_the_input_layer() {
    assert_eq!(Key::A.to_os_code(), evdev::Key::KEY_A.code());
    assert_eq!(Key::K0.to_os_code(), evdev::Key::KEY_0.code());
    assert_eq!(Key::Enter.to_os_code(), evdev::Key::KEY_ENTER.code());
    assert_eq!(Key::Escape.to_os_code(), evdev::Key::KEY_ESC.code());
    assert_eq!(Key::LCtrl.to_os_code(), evdev::Key::KEY_LEFTCTRL.code());
    assert_eq!(Key::RCtrl.to_os_code(), evdev::Key::KEY_RIGHTCTRL.code());
    assert_eq!(Key::LWin.to_os_code(), evdev::Key::KEY_LEFTMETA.code());
    assert_eq!(Key::RWin.to_os_code(), evdev::Key::KEY_RIGHTMETA.code());
    assert_eq!(Key::PrintScreen.to_os_code(), evdev::Key::KEY_SCREENSAVER.code());
    assert_eq!(Key::Keypadslash.to_os_code(), evdev::Key::KEY_KPSLASH.code());
    assert_eq!(Key::KeypadDot.to_os_code(), evdev::Key::KEY_KPDOT.code());
    assert_eq!(Key::Up.to_os_code(), evdev::Key::KEY_UP.code());
    assert_eq!(Key::F12.to_os_code(), evdev::Key::KEY_F12.code());
}

#[test]
fn codes_and_keys_are_a_bijection() {
    let mut seen = std::collections::HashSet::new();
    for n in 0..KEY_COUNT {
        let key = Key::from_number(n).unwrap();
        let code = key.to_os_code();
        assert!(seen.insert(code));
        assert_eq!(Key::lookup_os_code(code), Some(key));
        assert_eq!(Key::from_os_code(code).unwrap(), key);
    }
    for code in 0..=u16::MAX {
        match Key::lookup_os_code(code) {
            Some(key) => assert_eq!(key.to_os_code(), code),
            None => assert!(!seen.contains(&code)),
        }
    }
}

#[test]
fn unmapped_code_is_rejected_with_its_number() {
    match Key::from_os_code(evdev::Key::KEY_SYSRQ.code()) {
        Err(KeyboardError::KeyNotSupported(code)) => assert_eq!(code, "99"),
        other => panic!("unexpected {:?}", other),
    }
    match Key::from_os_code(0) {
        Err(KeyboardError::KeyNotSupported(code)) => assert_eq!(code, "0"),
        other => panic!("unexpected {:?}", other),
    }
    match Key::from_os_code(u16::MAX) {
        Err(KeyboardError::KeyNotSupported(code)) => assert_eq!(code, "65535"),
        other => panic!("unexpected {:?}", other),
    }
}

#[test]
fn positions_and_values() {
    assert_eq!(KeyPosition::Release.to_value(), 0);
    assert_eq!(KeyPosition::Press.to_value(), 1);
    assert_eq!(KeyPosition::from_value(0).unwrap(), KeyPosition::Release);
    assert_eq!(KeyPosition::from_value(1).unwrap(), KeyPosition::Press);
    match KeyPosition::from_value(2) {
        Err(KeyboardError::KeyPositionNotSupported(value)) => assert_eq!(value, "2"),
        other => panic!("unexpected {:?}", other),
    }
    match KeyPosition::from_value(-17) {
        Err(KeyboardError::KeyPositionNotSupported(value)) => assert_eq!(value, "-17"),
        other => panic!("unexpected {:?}", other),
    }
    match KeyPosition::from_value(i32::MIN) {
        Err(KeyboardError::KeyPositionNotSupported(value)) => {
            assert_eq!(value, i32::MIN.to_string())
        }
        other => panic!("unexpected {:?}", other),
    }
}

#[test]
fn press_then_release_restores_the_state() {
    for n in 0..KEY_COUNT {
        let key = Key::from_number(n).unwrap();
        let mut state = KeyboardState::new();
        state.apply_keys(&[Key::LShift, Key::Q]);
        if key == Key::LShift || key == Key::Q {
            continue;
        }
        let before = state;
        state.apply_event(press(key));
        assert!(state != before);
        assert!(state.is_pressed(key));
        state.apply_event(release(key));
        assert_eq!(state, before);
    }
}

#[test]
fn release_of_a_held_key_does_not_restore_it() {
    let mut state = KeyboardState::new();
    state.apply_event(press(Key::A));
    let before = state;
    state.apply_events(&[press(Key::A), release(Key::A)]);
    assert!(state != before);
    assert_eq!(state, KeyboardState::new());
}

#[test]
fn events_set_and_clear_single_bits() {
    let mut state = KeyboardState::default();
    assert_eq!(state.bits(), 0);
    state.apply_event(press(Key::A));
    assert_eq!(state.bits(), 1);
    state.apply_event(press(Key::C));
    assert_eq!(state.bits(), 0b101);
    state.apply_event(press(Key::C));
    assert_eq!(state.bits(), 0b101);
    state.apply_event(press(Key::KeypadDot));
    assert_eq!(state.bits(), 0b101 | (1u128 << 102));
    state.apply_event(release(Key::A));
    assert_eq!(state.bits(), 0b100 | (1u128 << 102));
    state.apply_event(release(Key::A));
    assert_eq!(state.bits(), 0b100 | (1u128 << 102));
    assert!(state.is_pressed(Key::C));
    assert!(!state.is_pressed(Key::A));
    assert!(!state.is_pressed(Key::B));
}

#[test]
fn equality_depends_on_the_bitmap_only() {
    let mut first = KeyboardState::new();
    first.apply_events(&[press(Key::LCtrl), press(Key::V)]);
    let mut second = KeyboardState::new();
    second.apply_events(&[
        press(Key::V),
        press(Key::X),
        press(Key::LCtrl),
        release(Key::X),
        press(Key::V),
    ]);
    let mut third = KeyboardState::new();
    third.apply_keys(&[Key::V, Key::LCtrl]);
    assert_eq!(first, first);
    assert_eq!(first, second);
    assert_eq!(second, first);
    assert_eq!(second, third);
    assert_eq!(first, third);
    let mut other = KeyboardState::new();
    other.apply_keys(&[Key::RCtrl, Key::V]);
    assert!(first != other);
}

#[test]
fn apply_keys_is_pressing_each_key() {
    let mut at_once = KeyboardState::new();
    at_once.apply_keys(&[Key::A, Key::B]);
    let mut one_by_one = KeyboardState::new();
    one_by_one.apply_event(press(Key::A));
    one_by_one.apply_event(press(Key::B));
    assert_eq!(at_once, one_by_one);
    assert_eq!(at_once.bits(), 0b11);
}

#[test]
fn registered_combination_fires_on_exact_match() {
    let mut listener = KeyboardListener::new(&keyboard()).unwrap();
    listener.register_action("paste", &[Key::LCtrl, Key::V]);
    assert_eq!(listener.get_action(&[press(Key::LCtrl), press(Key::V)]), Some("paste"));

    let mut listener = KeyboardListener::new(&keyboard()).unwrap();
    listener.register_action("paste", &[Key::LCtrl, Key::V]);
    assert_eq!(listener.get_action(&[press(Key::LCtrl)]), None);
    // a superset of the combination is no match either
    assert_eq!(listener.get_action(&[press(Key::V), press(Key::LShift)]), None);
    assert_eq!(listener.get_action(&[release(Key::LShift)]), Some("paste"));
    // left and right control are different keys
    assert_eq!(listener.get_action(&[release(Key::LCtrl), press(Key::RCtrl)]), None);
}

#[test]
fn later_registration_for_the_same_keys_wins() {
    let mut listener = KeyboardListener::new(&keyboard()).unwrap();
    listener.register_action("first", &[Key::LAlt, Key::Q]);
    listener.register_action("second", &[Key::Q, Key::LAlt]);
    assert_eq!(listener.get_action(&[press(Key::LAlt), press(Key::Q)]), Some("second"));
    assert_eq!(listener.get_action(&[]), Some("second"));
}

#[test]
fn screenshot_scenario() {
    let mut listener = KeyboardListener::new(&keyboard()).unwrap();
    listener.register_action("screenshot", &[Key::LAlt, Key::Q]);
    let round = vec![ReadyDevice {
        token: 0,
        events: vec![
            raw_key(evdev::Key::KEY_LEFTALT.code(), 1),
            raw_key(evdev::Key::KEY_Q.code(), 1),
        ],
    }];
    let events = listener.devices().read(&round).unwrap();
    assert_eq!(events, vec![press(Key::LAlt), press(Key::Q)]);
    assert_eq!(listener.get_action(&events), Some("screenshot"));
    let round = vec![ReadyDevice { token: 0, events: vec![raw_key(evdev::Key::KEY_Q.code(), 0)] }];
    let events = listener.devices().read(&round).unwrap();
    assert_eq!(listener.get_action(&events), None);
}

#[test]
fn state_does_not_depend_on_the_device() {
    let devices = vec![
        device("first", &[evdev::Key::KEY_ENTER]),
        device("second", &[evdev::Key::KEY_ENTER, evdev::Key::KEY_Q]),
    ];
    let alt = raw_key(evdev::Key::KEY_LEFTALT.code(), 1);
    let q = raw_key(evdev::Key::KEY_Q.code(), 1);
    let rounds = vec![
        vec![ReadyDevice { token: 0, events: vec![alt, q] }],
        vec![ReadyDevice { token: 1, events: vec![alt, q] }],
        vec![ReadyDevice { token: 0, events: vec![alt] }, ReadyDevice { token: 1, events: vec![q] }],
        vec![ReadyDevice { token: 1, events: vec![alt] }, ReadyDevice { token: 0, events: vec![q] }],
    ];
    let mut expected = KeyboardState::new();
    expected.apply_keys(&[Key::LAlt, Key::Q]);
    for round in rounds {
        let mut listener = KeyboardListener::new(&devices).unwrap();
        listener.register_action("screenshot", &[Key::LAlt, Key::Q]);
        let events = listener.devices().read(&round).unwrap();
        let mut state = KeyboardState::new();
        state.apply_events(&events);
        assert_eq!(state, expected);
        assert_eq!(listener.get_action(&events), Some("screenshot"));
    }
}

#[test]
fn only_devices_with_the_reference_key_are_read() {
    let devices = vec![
        device("mouse", &[evdev::Key::BTN_LEFT, evdev::Key::BTN_RIGHT]),
        device("keyboard", &[evdev::Key::KEY_A, evdev::Key::KEY_ENTER]),
        device("lid switch", &[]),
        device("", &[evdev::Key::KEY_ENTER]),
        device("keypad", &[evdev::Key::KEY_KPENTER]),
    ];
    let reader = KeyboardReader::new(&devices).unwrap();
    assert_eq!(reader.device_count(), 2);
    assert_eq!(reader.device(0), Some(1));
    assert_eq!(reader.device(1), Some(3));
    assert_eq!(reader.device(2), None);
}

#[test]
fn no_keyboard_is_an_error() {
    assert!(matches!(KeyboardReader::new(&vec![]), Err(KeyboardError::KeyboardNotFound)));
    let mice = vec![device("mouse", &[evdev::Key::BTN_LEFT]), device("", &[])];
    assert!(matches!(KeyboardReader::new(&mice), Err(KeyboardError::KeyboardNotFound)));
    assert!(matches!(KeyboardListener::new(&mice), Err(KeyboardError::KeyboardNotFound)));
}

#[test]
fn own_virtual_keyboard_is_not_listened_on() {
    let writer = KeyboardWriter::new();
    assert!(writer.advertised_keys().contains(&evdev::Key::KEY_ENTER.code()));
    let own = || InputDevice {
        name: dhe::keyboard::writer::VIRTUAL_DEVICE_NAME.to_string(),
        keys: writer.advertised_keys().clone(),
    };
    assert!(matches!(KeyboardReader::new(&vec![own()]), Err(KeyboardError::KeyboardNotFound)));
    let devices = vec![own(), device("keyboard", &[evdev::Key::KEY_ENTER]), own()];
    let reader = KeyboardReader::new(&devices).unwrap();
    assert_eq!(reader.device_count(), 1);
    assert_eq!(reader.device(0), Some(1));
    let near = vec![device("dhe_keyboard ", &[evdev::Key::KEY_ENTER])];
    assert_eq!(KeyboardReader::new(&near).unwrap().device(0), Some(0));
}

#[test]
fn undecodable_events_are_skipped() {
    let batch = vec![
        RawEvent { kind: 4, code: 4, value: 458756 },
        raw_key(evdev::Key::KEY_A.code(), 1),
        RawEvent { kind: 0, code: 0, value: 0 },
        raw_key(evdev::Key::KEY_A.code(), 2),
        raw_key(evdev::Key::KEY_SYSRQ.code(), 1),
        raw_key(evdev::Key::KEY_B.code(), 1),
        raw_key(evdev::Key::KEY_A.code(), 0),
    ];
    assert_eq!(decode_events(&batch), vec![press(Key::A), press(Key::B), release(Key::A)]);
    assert_eq!(decode_events(&[]), vec![]);
}

#[test]
fn round_without_key_events_asks_to_wait_again() {
    let reader = KeyboardReader::new(&keyboard()).unwrap();
    assert_eq!(reader.read(&vec![]), None);
    let repeats = vec![ReadyDevice {
        token: 0,
        events: vec![raw_key(evdev::Key::KEY_A.code(), 2), RawEvent { kind: 0, code: 0, value: 0 }],
    }];
    assert_eq!(reader.read(&repeats), None);
}

#[test]
fn unknown_token_is_ignored() {
    let reader = KeyboardReader::new(&keyboard()).unwrap();
    let round = vec![
        ReadyDevice { token: 5, events: vec![raw_key(evdev::Key::KEY_B.code(), 1)] },
        ReadyDevice { token: 0, events: vec![raw_key(evdev::Key::KEY_A.code(), 1)] },
    ];
    assert_eq!(reader.read(&round), Some(vec![press(Key::A)]));
    let round = vec![ReadyDevice { token: 1, events: vec![raw_key(evdev::Key::KEY_B.code(), 1)] }];
    assert_eq!(reader.read(&round), None);
}

#[test]
fn decode_reports_what_is_not_supported() {
    let event = KeyEvent::from_raw(raw_key(evdev::Key::KEY_V.code(), 1)).unwrap();
    assert_eq!(event, press(Key::V));
    let sync = evdev::InputEvent::new(evdev::EventType::SYNCHRONIZATION, 0, 0);
    match KeyEvent::from_raw(RawEvent { kind: 0, code: 0, value: 0 }) {
        Err(KeyboardError::InputEventKindNotSupported(kind)) => {
            assert_eq!(kind, format!("{:?}", sync.kind()));
            assert_eq!(kind, "Synchronization(SYN_REPORT)");
        }
        other => panic!("unexpected {:?}", other),
    }
    match KeyEvent::from_raw(RawEvent { kind: 2, code: 1, value: -3 }) {
        Err(KeyboardError::InputEventKindNotSupported(kind)) => assert_eq!(kind, "RelAxis(REL_Y)"),
        other => panic!("unexpected {:?}", other),
    }
    match KeyEvent::from_raw(RawEvent { kind: 0x1f, code: 7, value: 0 }) {
        Err(KeyboardError::InputEventKindNotSupported(kind)) => assert_eq!(kind, "Other"),
        other => panic!("unexpected {:?}", other),
    }
    // the code is looked at before the value
    match KeyEvent::from_raw(raw_key(evdev::Key::KEY_SYSRQ.code(), 2)) {
        Err(KeyboardError::KeyNotSupported(code)) => assert_eq!(code, "99"),
        other => panic!("unexpected {:?}", other),
    }
    match KeyEvent::from_raw(raw_key(evdev::Key::KEY_V.code(), 2)) {
        Err(KeyboardError::KeyPositionNotSupported(value)) => assert_eq!(value, "2"),
        other => panic!("unexpected {:?}", other),
    }
}

#[test]
fn raw_events_agree_with_the_input_layer() {
    let raw = press(Key::V).to_raw();
    let event = evdev::InputEvent::new(evdev::EventType(raw.kind), raw.code, raw.value);
    assert_eq!(event.kind(), evdev::InputEventKind::Key(evdev::Key::KEY_V));
    assert_eq!(event.value(), 1);
    let raw = release(Key::LCtrl).to_raw();
    assert_eq!(raw, raw_key(evdev::Key::KEY_LEFTCTRL.code(), 0));
    assert_eq!(evdev::EventType::KEY.0, EVENT_KIND_KEY);
}

#[test]
fn paste_gesture_presses_before_it_releases() {
    let emulator = KeyboardEmulator::new();
    let batches = emulator.ctrl_v();
    assert_eq!(batches.len(), 2);
    let ctrl = evdev::Key::KEY_LEFTCTRL.code();
    let v = evdev::Key::KEY_V.code();
    assert_eq!(batches[0], vec![raw_key(ctrl, 1), raw_key(v, 1)]);
    assert_eq!(batches[1], vec![raw_key(ctrl, 0), raw_key(v, 0)]);
    let emitted: Vec<RawEvent> = batches.concat();
    assert_eq!(emitted.len(), 4);
    assert_eq!(
        decode_events(&emitted),
        vec![press(Key::LCtrl), press(Key::V), release(Key::LCtrl), release(Key::V)]
    );
    let mut state = KeyboardState::new();
    state.apply_events(&decode_events(&emitted));
    assert_eq!(state, KeyboardState::new());
}

#[test]
fn press_and_release_batches() {
    let writer = KeyboardWriter::new();
    let keys = [Key::LCtrl, Key::V];
    let pressed = writer.press_keys(&keys);
    let released = writer.release_keys(&keys);
    assert_eq!(pressed.len() + released.len(), 4);
    assert!(pressed.iter().all(|event| event.kind == EVENT_KIND_KEY && event.value == 1));
    assert!(released.iter().all(|event| event.kind == EVENT_KIND_KEY && event.value == 0));
    assert_eq!(writer.press_keys(&[]), vec![]);
    assert_eq!(
        writer.write_events(&[release(Key::A), press(Key::A)]),
        vec![raw_key(30, 0), raw_key(30, 1)]
    );
}

#[test]
fn virtual_keyboard_announces_the_catalog() {
    let writer = KeyboardWriter::new();
    let codes = writer.advertised_keys();
    assert_eq!(codes.len(), KEY_COUNT as usize);
    for n in 0..KEY_COUNT {
        assert_eq!(codes[n as usize], Key::from_number(n).unwrap().to_os_code());
    }
    let emulator = KeyboardEmulator::new();
    assert_eq!(emulator.device().advertised_keys(), codes);
}
