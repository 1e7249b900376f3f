use vstd::prelude::*;

use crate::keyboard::keys::lemma_at_ordinal;
use crate::keyboard::keys::Key;
use crate::keyboard::keys::KEY_COUNT;
use crate::text::chars_of;
use crate::text::same_text;

verus! {

/// A name that no key of the catalog has.
#[derive(Debug, Copy, Clone, PartialEq, Eq, Structural)]
pub enum ParseError {
    VariantNotFound,
}

impl ParseError {
    /// The error said in words.
    pub fn message(&self) -> (text: &'static str)
        ensures
            text@ == "Matching variant not found"@,
    {
        "Matching variant not found"
    }
}

impl Key {
    /// The name of the key, as configuration files write it.
    pub open spec fn label(self) -> Seq<char> {
        match self {
            Key::A => "A"@,
            Key::B => "B"@,
            Key::C => "C"@,
            Key::D => "D"@,
            Key::E => "E"@,
            Key::F => "F"@,
            Key::G => "G"@,
            Key::H => "H"@,
            Key::I => "I"@,
            Key::J => "J"@,
            Key::K => "K"@,
            Key::L => "L"@,
            Key::M => "M"@,
            Key::N => "N"@,
            Key::O => "O"@,
            Key::P => "P"@,
            Key::Q => "Q"@,
            Key::R => "R"@,
            Key::S => "S"@,
            Key::T => "T"@,
            Key::U => "U"@,
            Key::V => "V"@,
            Key::W => "W"@,
            Key::X => "X"@,
            Key::Y => "Y"@,
            Key::Z => "Z"@,
            Key::K1 => "K1"@,
            Key::K2 => "K2"@,
            Key::K3 => "K3"@,
            Key::K4 => "K4"@,
            Key::K5 => "K5"@,
            Key::K6 => "K6"@,
            Key::K7 => "K7"@,
            Key::K8 => "K8"@,
            Key::K9 => "K9"@,
            Key::K0 => "K0"@,
            Key::Enter => "Enter"@,
            Key::Escape => "Escape"@,
            Key::BackSpace => "BackSpace"@,
            Key::Tab => "Tab"@,
            Key::Space => "Space"@,
            Key::Minus => "Minus"@,
            Key::Equal => "Equal"@,
            Key::LBrace => "LBrace"@,
            Key::RBrace => "RBrace"@,
            Key::Backslash => "Backslash"@,
            Key::Semicolon => "Semicolon"@,
            Key::Apostrophe => "Apostrophe"@,
            Key::Grave => "Grave"@,
            Key::Comma => "Comma"@,
            Key::Dot => "Dot"@,
            Key::Slash => "Slash"@,
            Key::CapsLock => "CapsLock"@,
            Key::LCtrl => "LCtrl"@,
            Key::LShift => "LShift"@,
            Key::LAlt => "LAlt"@,
            Key::LWin => "LWin"@,
            Key::RCtrl => "RCtrl"@,
            Key::RShift => "RShift"@,
            Key::RAlt => "RAlt"@,
            Key::RWin => "RWin"@,
            Key::F1 => "F1"@,
            Key::F2 => "F2"@,
            Key::F3 => "F3"@,
            Key::F4 => "F4"@,
            Key::F5 => "F5"@,
            Key::F6 => "F6"@,
            Key::F7 => "F7"@,
            Key::F8 => "F8"@,
            Key::F9 => "F9"@,
            Key::F10 => "F10"@,
            Key::F11 => "F11"@,
            Key::F12 => "F12"@,
            Key::PrintScreen => "PrintScreen"@,
            Key::ScrollLock => "ScrollLock"@,
            Key::Pause => "Pause"@,
            Key::Insert => "Insert"@,
            Key::Home => "Home"@,
            Key::PageUp => "PageUp"@,
            Key::Delete => "Delete"@,
            Key::End => "End"@,
            Key::PageDown => "PageDown"@,
            Key::Right => "Right"@,
            Key::Left => "Left"@,
            Key::Down => "Down"@,
            Key::Up => "Up"@,
            Key::NumLock => "NumLock"@,
            Key::Keypadslash => "Keypadslash"@,
            Key::KeypadAsterisk => "KeypadAsterisk"@,
            Key::KeypadMinus => "KeypadMinus"@,
            Key::KeypadPlus => "KeypadPlus"@,
            Key::KeypadEnter => "KeypadEnter"@,
            Key::Keypad1 => "Keypad1"@,
            Key::Keypad2 => "Keypad2"@,
            Key::Keypad3 => "Keypad3"@,
            Key::Keypad4 => "Keypad4"@,
            Key::Keypad5 => "Keypad5"@,
            Key::Keypad6 => "Keypad6"@,
            Key::Keypad7 => "Keypad7"@,
            Key::Keypad8 => "Keypad8"@,
            Key::Keypad9 => "Keypad9"@,
            Key::Keypad0 => "Keypad0"@,
            Key::KeypadDot => "KeypadDot"@,
        }
    }

    /// The key with the given name, if the catalog has one.
    pub open spec fn with_label(name: Seq<char>) -> Option<Key> {
        if exists|key: Key| key.label() == name {
            Some(choose|key: Key| key.label() == name)
        } else {
            None
        }
    }

    /// The name of the key.
    pub fn name(self) -> (text: &'static str)
        ensures
            text@ == self.label(),
    {
        match self {
            Key::A => "A",
            Key::B => "B",
            Key::C => "C",
            Key::D => "D",
            Key::E => "E",
            Key::F => "F",
            Key::G => "G",
            Key::H => "H",
            Key::I => "I",
            Key::J => "J",
            Key::K => "K",
            Key::L => "L",
            Key::M => "M",
            Key::N => "N",
            Key::O => "O",
            Key::P => "P",
            Key::Q => "Q",
            Key::R => "R",
            Key::S => "S",
            Key::T => "T",
            Key::U => "U",
            Key::V => "V",
            Key::W => "W",
            Key::X => "X",
            Key::Y => "Y",
            Key::Z => "Z",
            Key::K1 => "K1",
            Key::K2 => "K2",
            Key::K3 => "K3",
            Key::K4 => "K4",
            Key::K5 => "K5",
            Key::K6 => "K6",
            Key::K7 => "K7",
            Key::K8 => "K8",
            Key::K9 => "K9",
            Key::K0 => "K0",
            Key::Enter => "Enter",
            Key::Escape => "Escape",
            Key::BackSpace => "BackSpace",
            Key::Tab => "Tab",
            Key::Space => "Space",
            Key::Minus => "Minus",
            Key::Equal => "Equal",
            Key::LBrace => "LBrace",
            Key::RBrace => "RBrace",
            Key::Backslash => "Backslash",
            Key::Semicolon => "Semicolon",
            Key::Apostrophe => "Apostrophe",
            Key::Grave => "Grave",
            Key::Comma => "Comma",
            Key::Dot => "Dot",
            Key::Slash => "Slash",
            Key::CapsLock => "CapsLock",
            Key::LCtrl => "LCtrl",
            Key::LShift => "LShift",
            Key::LAlt => "LAlt",
            Key::LWin => "LWin",
            Key::RCtrl => "RCtrl",
            Key::RShift => "RShift",
            Key::RAlt => "RAlt",
            Key::RWin => "RWin",
            Key::F1 => "F1",
            Key::F2 => "F2",
            Key::F3 => "F3",
            Key::F4 => "F4",
            Key::F5 => "F5",
            Key::F6 => "F6",
            Key::F7 => "F7",
            Key::F8 => "F8",
            Key::F9 => "F9",
            Key::F10 => "F10",
            Key::F11 => "F11",
            Key::F12 => "F12",
            Key::PrintScreen => "PrintScreen",
            Key::ScrollLock => "ScrollLock",
            Key::Pause => "Pause",
            Key::Insert => "Insert",
            Key::Home => "Home",
            Key::PageUp => "PageUp",
            Key::Delete => "Delete",
            Key::End => "End",
            Key::PageDown => "PageDown",
            Key::Right => "Right",
            Key::Left => "Left",
            Key::Down => "Down",
            Key::Up => "Up",
            Key::NumLock => "NumLock",
            Key::Keypadslash => "Keypadslash",
            Key::KeypadAsterisk => "KeypadAsterisk",
            Key::KeypadMinus => "KeypadMinus",
            Key::KeypadPlus => "KeypadPlus",
            Key::KeypadEnter => "KeypadEnter",
            Key::Keypad1 => "Keypad1",
            Key::Keypad2 => "Keypad2",
            Key::Keypad3 => "Keypad3",
            Key::Keypad4 => "Keypad4",
            Key::Keypad5 => "Keypad5",
            Key::Keypad6 => "Keypad6",
            Key::Keypad7 => "Keypad7",
            Key::Keypad8 => "Keypad8",
            Key::Keypad9 => "Keypad9",
            Key::Keypad0 => "Keypad0",
            Key::KeypadDot => "KeypadDot",
        }
    }

    /// The key with the given name. Names are matched letter for letter;
    /// a name that no key has is rejected.
    pub fn from_name(name: &str) -> (result: Result<Key, ParseError>)
        ensures
            match result {
                Ok(key) => key.label() == name@ && Key::with_label(name@) == Some(key),
                Err(_) => Key::with_label(name@) is None && forall|key: Key| key.label() != name@,
            },
    {
        let wanted = chars_of(name);
        let mut n: u32 = 0;
        while n < KEY_COUNT
            invariant
                n <= KEY_COUNT,
                wanted@ == name@,
                forall|key: Key| key.ordinal() < n ==> key.label() != name@,
            decreases KEY_COUNT - n,
        {
            proof {
                lemma_at_ordinal(n);
            }
            match Key::from_number(n) {
                Some(key) => {
                    if same_text(wanted.as_slice(), key.name()) {
                        proof {
                            assert forall|other: Key| other.label() == name@ implies other == key by {
                                law_names_are_distinct(other, key);
                            }
                        }
                        return Ok(key);
                    }
                    assert forall|other: Key| other.ordinal() < n + 1 implies other.label()
                        != name@ by {
                        crate::keyboard::keys::law_codes_are_a_bijection(other, key, 0);
                    }
                },
                None => {},
            }
            n = n + 1;
        }
        Err(ParseError::VariantNotFound)
    }
}

/// A number made of a text's length and its first, second and last
/// character. It tells the names of the catalog apart.
spec fn fingerprint(text: Seq<char>) -> int {
    if text.len() == 0 {
        0
    } else {
        ((text.len() * 256 + text[0] as int) * 256 + (if text.len() > 1 {
            text[1] as int
        } else {
            0
        })) * 256 + text.last() as int
    }
}

spec fn key_by_fingerprint(print: int) -> Option<Key> {
        if print == 21037121 {
            Some(Key::A)
        } else         if print == 21102658 {
            Some(Key::B)
        } else         if print == 21168195 {
            Some(Key::C)
        } else         if print == 21233732 {
            Some(Key::D)
        } else         if print == 21299269 {
            Some(Key::E)
        } else         if print == 21364806 {
            Some(Key::F)
        } else         if print == 21430343 {
            Some(Key::G)
        } else         if print == 21495880 {
            Some(Key::H)
        } else         if print == 21561417 {
            Some(Key::I)
        } else         if print == 21626954 {
            Some(Key::J)
        } else         if print == 21692491 {
            Some(Key::K)
        } else         if print == 21758028 {
            Some(Key::L)
        } else         if print == 21823565 {
            Some(Key::M)
        } else         if print == 21889102 {
            Some(Key::N)
        } else         if print == 21954639 {
            Some(Key::O)
        } else         if print == 22020176 {
            Some(Key::P)
        } else         if print == 22085713 {
            Some(Key::Q)
        } else         if print == 22151250 {
            Some(Key::R)
        } else         if print == 22216787 {
            Some(Key::S)
        } else         if print == 22282324 {
            Some(Key::T)
        } else         if print == 22347861 {
            Some(Key::U)
        } else         if print == 22413398 {
            Some(Key::V)
        } else         if print == 22478935 {
            Some(Key::W)
        } else         if print == 22544472 {
            Some(Key::X)
        } else         if print == 22610009 {
            Some(Key::Y)
        } else         if print == 22675546 {
            Some(Key::Z)
        } else         if print == 38482225 {
            Some(Key::K1)
        } else         if print == 38482482 {
            Some(Key::K2)
        } else         if print == 38482739 {
            Some(Key::K3)
        } else         if print == 38482996 {
            Some(Key::K4)
        } else         if print == 38483253 {
            Some(Key::K5)
        } else         if print == 38483510 {
            Some(Key::K6)
        } else         if print == 38483767 {
            Some(Key::K7)
        } else         if print == 38484024 {
            Some(Key::K8)
        } else         if print == 38484281 {
            Some(Key::K9)
        } else         if print == 38481968 {
            Some(Key::K0)
        } else         if print == 88436338 {
            Some(Key::Enter)
        } else         if print == 105214821 {
            Some(Key::Escape)
        } else         if print == 155345253 {
            Some(Key::BackSpace)
        } else         if print == 55861602 {
            Some(Key::Tab)
        } else         if print == 89354341 {
            Some(Key::Space)
        } else         if print == 88959347 {
            Some(Key::Minus)
        } else         if print == 88437100 {
            Some(Key::Equal)
        } else         if print == 105661029 {
            Some(Key::LBrace)
        } else         if print == 106054245 {
            Some(Key::RBrace)
        } else         if print == 155345256 {
            Some(Key::Backslash)
        } else         if print == 156460398 {
            Some(Key::Semicolon)
        } else         if print == 172060773 {
            Some(Key::Apostrophe)
        } else         if print == 88568421 {
            Some(Key::Grave)
        } else         if print == 88305505 {
            Some(Key::Comma)
        } else         if print == 54816628 {
            Some(Key::Dot)
        } else         if print == 89353320 {
            Some(Key::Slash)
        } else         if print == 138633579 {
            Some(Key::CapsLock)
        } else         if print == 88884076 {
            Some(Key::LCtrl)
        } else         if print == 105665396 {
            Some(Key::LShift)
        } else         if print == 72106356 {
            Some(Key::LAlt)
        } else         if print == 72111982 {
            Some(Key::LWin)
        } else         if print == 89277292 {
            Some(Key::RCtrl)
        } else         if print == 106058612 {
            Some(Key::RShift)
        } else         if print == 72499572 {
            Some(Key::RAlt)
        } else         if print == 72505198 {
            Some(Key::RWin)
        } else         if print == 38154545 {
            Some(Key::F1)
        } else         if print == 38154802 {
            Some(Key::F2)
        } else         if print == 38155059 {
            Some(Key::F3)
        } else         if print == 38155316 {
            Some(Key::F4)
        } else         if print == 38155573 {
            Some(Key::F5)
        } else         if print == 38155830 {
            Some(Key::F6)
        } else         if print == 38156087 {
            Some(Key::F7)
        } else         if print == 38156344 {
            Some(Key::F8)
        } else         if print == 38156601 {
            Some(Key::F9)
        } else         if print == 54931760 {
            Some(Key::F10)
        } else         if print == 54931761 {
            Some(Key::F11)
        } else         if print == 54931762 {
            Some(Key::F12)
        } else         if print == 189821550 {
            Some(Key::PrintScreen)
        } else         if print == 173237099 {
            Some(Key::ScrollLock)
        } else         if print == 89153893 {
            Some(Key::Pause)
        } else         if print == 105475700 {
            Some(Key::Insert)
        } else         if print == 71855973 {
            Some(Key::Home)
        } else         if print == 105931120 {
            Some(Key::PageUp)
        } else         if print == 105145701 {
            Some(Key::Delete)
        } else         if print == 54881892 {
            Some(Key::End)
        } else         if print == 139485550 {
            Some(Key::PageDown)
        } else         if print == 89287028 {
            Some(Key::Right)
        } else         if print == 72115572 {
            Some(Key::Left)
        } else         if print == 71593838 {
            Some(Key::Down)
        } else         if print == 39153776 {
            Some(Key::Up)
        } else         if print == 122582379 {
            Some(Key::NumLock)
        } else         if print == 189490536 {
            Some(Key::Keypadslash)
        } else         if print == 239822187 {
            Some(Key::KeypadAsterisk)
        } else         if print == 189490547 {
            Some(Key::KeypadMinus)
        } else         if print == 172713331 {
            Some(Key::KeypadPlus)
        } else         if print == 189490546 {
            Some(Key::KeypadEnter)
        } else         if print == 122381617 {
            Some(Key::Keypad1)
        } else         if print == 122381618 {
            Some(Key::Keypad2)
        } else         if print == 122381619 {
            Some(Key::Keypad3)
        } else         if print == 122381620 {
            Some(Key::Keypad4)
        } else         if print == 122381621 {
            Some(Key::Keypad5)
        } else         if print == 122381622 {
            Some(Key::Keypad6)
        } else         if print == 122381623 {
            Some(Key::Keypad7)
        } else         if print == 122381624 {
            Some(Key::Keypad8)
        } else         if print == 122381625 {
            Some(Key::Keypad9)
        } else         if print == 122381616 {
            Some(Key::Keypad0)
        } else         if print == 155936116 {
            Some(Key::KeypadDot)
        } else {
            None
        }
}

proof fn lemma_fingerprint_finds_key(key: Key)
    ensures
        key_by_fingerprint(fingerprint(key.label())) == Some(key),
{
    match key {
        Key::A => {
            reveal_strlit("A");
        },
        Key::B => {
            reveal_strlit("B");
        },
        Key::C => {
            reveal_strlit("C");
        },
        Key::D => {
            reveal_strlit("D");
        },
        Key::E => {
            reveal_strlit("E");
        },
        Key::F => {
            reveal_strlit("F");
        },
        Key::G => {
            reveal_strlit("G");
        },
        Key::H => {
            reveal_strlit("H");
        },
        Key::I => {
            reveal_strlit("I");
        },
        Key::J => {
            reveal_strlit("J");
        },
        Key::K => {
            reveal_strlit("K");
        },
        Key::L => {
            reveal_strlit("L");
        },
        Key::M => {
            reveal_strlit("M");
        },
        Key::N => {
            reveal_strlit("N");
        },
        Key::O => {
            reveal_strlit("O");
        },
        Key::P => {
            reveal_strlit("P");
        },
        Key::Q => {
            reveal_strlit("Q");
        },
        Key::R => {
            reveal_strlit("R");
        },
        Key::S => {
            reveal_strlit("S");
        },
        Key::T => {
            reveal_strlit("T");
        },
        Key::U => {
            reveal_strlit("U");
        },
        Key::V => {
            reveal_strlit("V");
        },
        Key::W => {
            reveal_strlit("W");
        },
        Key::X => {
            reveal_strlit("X");
        },
        Key::Y => {
            reveal_strlit("Y");
        },
        Key::Z => {
            reveal_strlit("Z");
        },
        Key::K1 => {
            reveal_strlit("K1");
        },
        Key::K2 => {
            reveal_strlit("K2");
        },
        Key::K3 => {
            reveal_strlit("K3");
        },
        Key::K4 => {
            reveal_strlit("K4");
        },
        Key::K5 => {
            reveal_strlit("K5");
        },
        Key::K6 => {
            reveal_strlit("K6");
        },
        Key::K7 => {
            reveal_strlit("K7");
        },
        Key::K8 => {
            reveal_strlit("K8");
        },
        Key::K9 => {
            reveal_strlit("K9");
        },
        Key::K0 => {
            reveal_strlit("K0");
        },
        Key::Enter => {
            reveal_strlit("Enter");
        },
        Key::Escape => {
            reveal_strlit("Escape");
        },
        Key::BackSpace => {
            reveal_strlit("BackSpace");
        },
        Key::Tab => {
            reveal_strlit("Tab");
        },
        Key::Space => {
            reveal_strlit("Space");
        },
        Key::Minus => {
            reveal_strlit("Minus");
        },
        Key::Equal => {
            reveal_strlit("Equal");
        },
        Key::LBrace => {
            reveal_strlit("LBrace");
        },
        Key::RBrace => {
            reveal_strlit("RBrace");
        },
        Key::Backslash => {
            reveal_strlit("Backslash");
        },
        Key::Semicolon => {
            reveal_strlit("Semicolon");
        },
        Key::Apostrophe => {
            reveal_strlit("Apostrophe");
        },
        Key::Grave => {
            reveal_strlit("Grave");
        },
        Key::Comma => {
            reveal_strlit("Comma");
        },
        Key::Dot => {
            reveal_strlit("Dot");
        },
        Key::Slash => {
            reveal_strlit("Slash");
        },
        Key::CapsLock => {
            reveal_strlit("CapsLock");
        },
        Key::LCtrl => {
            reveal_strlit("LCtrl");
        },
        Key::LShift => {
            reveal_strlit("LShift");
        },
        Key::LAlt => {
            reveal_strlit("LAlt");
        },
        Key::LWin => {
            reveal_strlit("LWin");
        },
        Key::RCtrl => {
            reveal_strlit("RCtrl");
        },
        Key::RShift => {
            reveal_strlit("RShift");
        },
        Key::RAlt => {
            reveal_strlit("RAlt");
        },
        Key::RWin => {
            reveal_strlit("RWin");
        },
        Key::F1 => {
            reveal_strlit("F1");
        },
        Key::F2 => {
            reveal_strlit("F2");
        },
        Key::F3 => {
            reveal_strlit("F3");
        },
        Key::F4 => {
            reveal_strlit("F4");
        },
        Key::F5 => {
            reveal_strlit("F5");
        },
        Key::F6 => {
            reveal_strlit("F6");
        },
        Key::F7 => {
            reveal_strlit("F7");
        },
        Key::F8 => {
            reveal_strlit("F8");
        },
        Key::F9 => {
            reveal_strlit("F9");
        },
        Key::F10 => {
            reveal_strlit("F10");
        },
        Key::F11 => {
            reveal_strlit("F11");
        },
        Key::F12 => {
            reveal_strlit("F12");
        },
        Key::PrintScreen => {
            reveal_strlit("PrintScreen");
        },
        Key::ScrollLock => {
            reveal_strlit("ScrollLock");
        },
        Key::Pause => {
            reveal_strlit("Pause");
        },
        Key::Insert => {
            reveal_strlit("Insert");
        },
        Key::Home => {
            reveal_strlit("Home");
        },
        Key::PageUp => {
            reveal_strlit("PageUp");
        },
        Key::Delete => {
            reveal_strlit("Delete");
        },
        Key::End => {
            reveal_strlit("End");
        },
        Key::PageDown => {
            reveal_strlit("PageDown");
        },
        Key::Right => {
            reveal_strlit("Right");
        },
        Key::Left => {
            reveal_strlit("Left");
        },
        Key::Down => {
            reveal_strlit("Down");
        },
        Key::Up => {
            reveal_strlit("Up");
        },
        Key::NumLock => {
            reveal_strlit("NumLock");
        },
        Key::Keypadslash => {
            reveal_strlit("Keypadslash");
        },
        Key::KeypadAsterisk => {
            reveal_strlit("KeypadAsterisk");
        },
        Key::KeypadMinus => {
            reveal_strlit("KeypadMinus");
        },
        Key::KeypadPlus => {
            reveal_strlit("KeypadPlus");
        },
        Key::KeypadEnter => {
            reveal_strlit("KeypadEnter");
        },
        Key::Keypad1 => {
            reveal_strlit("Keypad1");
        },
        Key::Keypad2 => {
            reveal_strlit("Keypad2");
        },
        Key::Keypad3 => {
            reveal_strlit("Keypad3");
        },
        Key::Keypad4 => {
            reveal_strlit("Keypad4");
        },
        Key::Keypad5 => {
            reveal_strlit("Keypad5");
        },
        Key::Keypad6 => {
            reveal_strlit("Keypad6");
        },
        Key::Keypad7 => {
            reveal_strlit("Keypad7");
        },
        Key::Keypad8 => {
            reveal_strlit("Keypad8");
        },
        Key::Keypad9 => {
            reveal_strlit("Keypad9");
        },
        Key::Keypad0 => {
            reveal_strlit("Keypad0");
        },
        Key::KeypadDot => {
            reveal_strlit("KeypadDot");
        },
    }
}

/// No two keys have the same name, so that the name of a key is read back
/// as that key.
pub proof fn law_names_are_distinct(a: Key, b: Key)
    ensures
        a.label() == b.label() ==> a == b,
        Key::with_label(a.label()) == Some(a),
{
    lemma_fingerprint_finds_key(a);
    lemma_fingerprint_finds_key(b);
    let found = choose|key: Key| key.label() == a.label();
    lemma_fingerprint_finds_key(found);
}

} // verus!
