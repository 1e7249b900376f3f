use dhe::keyboard::IoStage;
use dhe::keyboard::Key;
use dhe::keyboard::KeyboardError;
use dhe::keyboard::ParseError;
use dhe::keyboard::KEY_COUNT;
use dhe::DheError;

#[test]
fn keys_are_read_by_name() {
    assert_eq!(Key::from_name("A"), Ok(Key::A));
    assert_eq!(Key::from_name("LCtrl"), Ok(Key::LCtrl));
    assert_eq!(Key::from_name("K0"), Ok(Key::K0));
    assert_eq!(Key::from_name("Keypadslash"), Ok(Key::Keypadslash));
    assert_eq!(Key::from_name("KeypadDot"), Ok(Key::KeypadDot));
    assert_eq!(Key::from_name("PrintScreen"), Ok(Key::PrintScreen));
}

#[test]
fn unknown_names_are_rejected() {
    for name in ["", "a", "lctrl", "LCTRL", "Ctrl", "KeypadSlash", " A", "A ", "F13", "KEY_A"] {
        assert_eq!(Key::from_name(name), Err(ParseError::VariantNotFound));
    }
    assert_eq!(ParseError::VariantNotFound.message(), "Matching variant not found");
}

#[test]
fn every_name_reads_back_as_its_key() {
    let mut names = std::collections::HashSet::new();
    for n in 0..KEY_COUNT {
        let key = Key::from_number(n).unwrap();
        assert!(names.insert(key.name()));
        assert_eq!(Key::from_name(key.name()), Ok(key));
        assert_eq!(key.name(), format!("{:?}", key));
    }
    assert_eq!(names.len(), 103);
}

#[test]
fn stages_have_their_words() {
    assert_eq!(IoStage::CreatePoll.context(), "creating pool");
    assert_eq!(IoStage::RegisterDevice.context(), "register device");
    assert_eq!(IoStage::PollEvents.context(), "poll events");
    assert_eq!(IoStage::FetchEvents.context(), "fetch device events");
    assert_eq!(IoStage::CreateVirtualDevice.context(), "create virtual device");
    assert_eq!(IoStage::SetUpKeys.context(), "set up keys into virtual device");
    assert_eq!(IoStage::BuildVirtualDevice.context(), "build virtual device");
    assert_eq!(IoStage::EmitEvent.context(), "emit event");
}

#[test]
fn io_failure_carries_context_and_cause() {
    let cause = std::io::Error::new(std::io::ErrorKind::PermissionDenied, "no access");
    let error = KeyboardError::io(IoStage::FetchEvents, cause);
    match &error {
        KeyboardError::Io(context, cause) => {
            assert_eq!(context, "fetch device events");
            assert_eq!(cause.kind(), std::io::ErrorKind::PermissionDenied);
        }
        other => panic!("unexpected {:?}", other),
    }
    assert_eq!(error.message(), "i/o error during \"fetch device events\": no access");
    let cause = std::io::Error::new(std::io::ErrorKind::Other, "gone");
    assert_eq!(
        KeyboardError::io(IoStage::EmitEvent, cause).message(),
        "i/o error during \"emit event\": gone"
    );
}

#[test]
fn keyboard_errors_in_words() {
    assert_eq!(
        KeyboardError::KeyboardNotFound.message(),
        "keyboard not found (possibly insufficient permissions to access /dev/input)"
    );
    assert_eq!(
        KeyboardError::KeyNotSupported("99".to_string()).message(),
        "key \"99\" not supported"
    );
    assert_eq!(
        KeyboardError::KeyPositionNotSupported("2".to_string()).message(),
        "key position \"2\" not supported"
    );
    assert_eq!(
        KeyboardError::InputEventKindNotSupported("Other".to_string()).message(),
        "input event kind \"Other\" not supported"
    );
}

#[test]
fn library_errors_name_their_part() {
    assert_eq!(
        DheError::Language(dhe::language::LanguageError::LanguageNotSupported).message(),
        "language error: the specified language is not supported"
    );
    assert_eq!(
        DheError::Translate(dhe::translate::TranslateError::FailedToRequest("timeout".to_string()))
            .message(),
        "translate error: failed to complete request with error: timeout"
    );
    assert_eq!(
        DheError::Keyboard(KeyboardError::KeyboardNotFound).message(),
        "keyboard error: keyboard not found (possibly insufficient permissions to access /dev/input)"
    );
}
