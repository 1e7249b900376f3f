use vstd::prelude::*;

verus! {

/// Number of keys in the catalog; ordinals run over `0..KEY_COUNT`.
pub const KEY_COUNT: u32 = 103;

/// A physical key of the catalog.
///
/// The catalog is closed: every key has an ordinal in `0..KEY_COUNT`, given by
/// its position in this declaration, and one code of the operating system's
/// input layer. Left and right variants of a modifier are different keys.
#[derive(Debug, Copy, Clone, PartialEq, Eq, Structural, PartialOrd, Ord, Hash)]
pub enum Key {
    A,
    B,
    C,
    D,
    E,
    F,
    G,
    H,
    I,
    J,
    K,
    L,
    M,
    N,
    O,
    P,
    Q,
    R,
    S,
    T,
    U,
    V,
    W,
    X,
    Y,
    Z,
    K1,
    K2,
    K3,
    K4,
    K5,
    K6,
    K7,
    K8,
    K9,
    K0,
    Enter,
    Escape,
    BackSpace,
    Tab,
    Space,
    Minus,
    Equal,
    LBrace,
    RBrace,
    Backslash,
    Semicolon,
    Apostrophe,
    Grave,
    Comma,
    Dot,
    Slash,
    CapsLock,
    LCtrl,
    LShift,
    LAlt,
    LWin,
    RCtrl,
    RShift,
    RAlt,
    RWin,
    F1,
    F2,
    F3,
    F4,
    F5,
    F6,
    F7,
    F8,
    F9,
    F10,
    F11,
    F12,
    PrintScreen,
    ScrollLock,
    Pause,
    Insert,
    Home,
    PageUp,
    Delete,
    End,
    PageDown,
    Right,
    Left,
    Down,
    Up,
    NumLock,
    Keypadslash,
    KeypadAsterisk,
    KeypadMinus,
    KeypadPlus,
    KeypadEnter,
    Keypad1,
    Keypad2,
    Keypad3,
    Keypad4,
    Keypad5,
    Keypad6,
    Keypad7,
    Keypad8,
    Keypad9,
    Keypad0,
    KeypadDot,
}

impl Key {
    /// Position of the key in the catalog.
    pub open spec fn ordinal(self) -> u32 {
        match self {
            Key::A => 0,
            Key::B => 1,
            Key::C => 2,
            Key::D => 3,
            Key::E => 4,
            Key::F => 5,
            Key::G => 6,
            Key::H => 7,
            Key::I => 8,
            Key::J => 9,
            Key::K => 10,
            Key::L => 11,
            Key::M => 12,
            Key::N => 13,
            Key::O => 14,
            Key::P => 15,
            Key::Q => 16,
            Key::R => 17,
            Key::S => 18,
            Key::T => 19,
            Key::U => 20,
            Key::V => 21,
            Key::W => 22,
            Key::X => 23,
            Key::Y => 24,
            Key::Z => 25,
            Key::K1 => 26,
            Key::K2 => 27,
            Key::K3 => 28,
            Key::K4 => 29,
            Key::K5 => 30,
            Key::K6 => 31,
            Key::K7 => 32,
            Key::K8 => 33,
            Key::K9 => 34,
            Key::K0 => 35,
            Key::Enter => 36,
            Key::Escape => 37,
            Key::BackSpace => 38,
            Key::Tab => 39,
            Key::Space => 40,
            Key::Minus => 41,
            Key::Equal => 42,
            Key::LBrace => 43,
            Key::RBrace => 44,
            Key::Backslash => 45,
            Key::Semicolon => 46,
            Key::Apostrophe => 47,
            Key::Grave => 48,
            Key::Comma => 49,
            Key::Dot => 50,
            Key::Slash => 51,
            Key::CapsLock => 52,
            Key::LCtrl => 53,
            Key::LShift => 54,
            Key::LAlt => 55,
            Key::LWin => 56,
            Key::RCtrl => 57,
            Key::RShift => 58,
            Key::RAlt => 59,
            Key::RWin => 60,
            Key::F1 => 61,
            Key::F2 => 62,
            Key::F3 => 63,
            Key::F4 => 64,
            Key::F5 => 65,
            Key::F6 => 66,
            Key::F7 => 67,
            Key::F8 => 68,
            Key::F9 => 69,
            Key::F10 => 70,
            Key::F11 => 71,
            Key::F12 => 72,
            Key::PrintScreen => 73,
            Key::ScrollLock => 74,
            Key::Pause => 75,
            Key::Insert => 76,
            Key::Home => 77,
            Key::PageUp => 78,
            Key::Delete => 79,
            Key::End => 80,
            Key::PageDown => 81,
            Key::Right => 82,
            Key::Left => 83,
            Key::Down => 84,
            Key::Up => 85,
            Key::NumLock => 86,
            Key::Keypadslash => 87,
            Key::KeypadAsterisk => 88,
            Key::KeypadMinus => 89,
            Key::KeypadPlus => 90,
            Key::KeypadEnter => 91,
            Key::Keypad1 => 92,
            Key::Keypad2 => 93,
            Key::Keypad3 => 94,
            Key::Keypad4 => 95,
            Key::Keypad5 => 96,
            Key::Keypad6 => 97,
            Key::Keypad7 => 98,
            Key::Keypad8 => 99,
            Key::Keypad9 => 100,
            Key::Keypad0 => 101,
            Key::KeypadDot => 102,
        }
    }

    /// Code that the operating system's input layer uses for the key.
    pub open spec fn os_code(self) -> u16 {
        match self {
            Key::A => 30,
            Key::B => 48,
            Key::C => 46,
            Key::D => 32,
            Key::E => 18,
            Key::F => 33,
            Key::G => 34,
            Key::H => 35,
            Key::I => 23,
            Key::J => 36,
            Key::K => 37,
            Key::L => 38,
            Key::M => 50,
            Key::N => 49,
            Key::O => 24,
            Key::P => 25,
            Key::Q => 16,
            Key::R => 19,
            Key::S => 31,
            Key::T => 20,
            Key::U => 22,
            Key::V => 47,
            Key::W => 17,
            Key::X => 45,
            Key::Y => 21,
            Key::Z => 44,
            Key::K1 => 2,
            Key::K2 => 3,
            Key::K3 => 4,
            Key::K4 => 5,
            Key::K5 => 6,
            Key::K6 => 7,
            Key::K7 => 8,
            Key::K8 => 9,
            Key::K9 => 10,
            Key::K0 => 11,
            Key::Enter => 28,
            Key::Escape => 1,
            Key::BackSpace => 14,
            Key::Tab => 15,
            Key::Space => 57,
            Key::Minus => 12,
            Key::Equal => 13,
            Key::LBrace => 26,
            Key::RBrace => 27,
            Key::Backslash => 43,
            Key::Semicolon => 39,
            Key::Apostrophe => 40,
            Key::Grave => 41,
            Key::Comma => 51,
            Key::Dot => 52,
            Key::Slash => 53,
            Key::CapsLock => 58,
            Key::LCtrl => 29,
            Key::LShift => 42,
            Key::LAlt => 56,
            Key::LWin => 125,
            Key::RCtrl => 97,
            Key::RShift => 54,
            Key::RAlt => 100,
            Key::RWin => 126,
            Key::F1 => 59,
            Key::F2 => 60,
            Key::F3 => 61,
            Key::F4 => 62,
            Key::F5 => 63,
            Key::F6 => 64,
            Key::F7 => 65,
            Key::F8 => 66,
            Key::F9 => 67,
            Key::F10 => 68,
            Key::F11 => 87,
            Key::F12 => 88,
            Key::PrintScreen => 581,
            Key::ScrollLock => 70,
            Key::Pause => 119,
            Key::Insert => 110,
            Key::Home => 102,
            Key::PageUp => 104,
            Key::Delete => 111,
            Key::End => 107,
            Key::PageDown => 109,
            Key::Right => 106,
            Key::Left => 105,
            Key::Down => 108,
            Key::Up => 103,
            Key::NumLock => 69,
            Key::Keypadslash => 98,
            Key::KeypadAsterisk => 55,
            Key::KeypadMinus => 74,
            Key::KeypadPlus => 78,
            Key::KeypadEnter => 96,
            Key::Keypad1 => 79,
            Key::Keypad2 => 80,
            Key::Keypad3 => 81,
            Key::Keypad4 => 75,
            Key::Keypad5 => 76,
            Key::Keypad6 => 77,
            Key::Keypad7 => 71,
            Key::Keypad8 => 72,
            Key::Keypad9 => 73,
            Key::Keypad0 => 82,
            Key::KeypadDot => 83,
        }
    }

    /// The key at a position of the catalog, if the position is inside it.
    pub open spec fn at(ordinal: u32) -> Option<Key> {
        match ordinal {
            0 => Some(Key::A),
            1 => Some(Key::B),
            2 => Some(Key::C),
            3 => Some(Key::D),
            4 => Some(Key::E),
            5 => Some(Key::F),
            6 => Some(Key::G),
            7 => Some(Key::H),
            8 => Some(Key::I),
            9 => Some(Key::J),
            10 => Some(Key::K),
            11 => Some(Key::L),
            12 => Some(Key::M),
            13 => Some(Key::N),
            14 => Some(Key::O),
            15 => Some(Key::P),
            16 => Some(Key::Q),
            17 => Some(Key::R),
            18 => Some(Key::S),
            19 => Some(Key::T),
            20 => Some(Key::U),
            21 => Some(Key::V),
            22 => Some(Key::W),
            23 => Some(Key::X),
            24 => Some(Key::Y),
            25 => Some(Key::Z),
            26 => Some(Key::K1),
            27 => Some(Key::K2),
            28 => Some(Key::K3),
            29 => Some(Key::K4),
            30 => Some(Key::K5),
            31 => Some(Key::K6),
            32 => Some(Key::K7),
            33 => Some(Key::K8),
            34 => Some(Key::K9),
            35 => Some(Key::K0),
            36 => Some(Key::Enter),
            37 => Some(Key::Escape),
            38 => Some(Key::BackSpace),
            39 => Some(Key::Tab),
            40 => Some(Key::Space),
            41 => Some(Key::Minus),
            42 => Some(Key::Equal),
            43 => Some(Key::LBrace),
            44 => Some(Key::RBrace),
            45 => Some(Key::Backslash),
            46 => Some(Key::Semicolon),
            47 => Some(Key::Apostrophe),
            48 => Some(Key::Grave),
            49 => Some(Key::Comma),
            50 => Some(Key::Dot),
            51 => Some(Key::Slash),
            52 => Some(Key::CapsLock),
            53 => Some(Key::LCtrl),
            54 => Some(Key::LShift),
            55 => Some(Key::LAlt),
            56 => Some(Key::LWin),
            57 => Some(Key::RCtrl),
            58 => Some(Key::RShift),
            59 => Some(Key::RAlt),
            60 => Some(Key::RWin),
            61 => Some(Key::F1),
            62 => Some(Key::F2),
            63 => Some(Key::F3),
            64 => Some(Key::F4),
            65 => Some(Key::F5),
            66 => Some(Key::F6),
            67 => Some(Key::F7),
            68 => Some(Key::F8),
            69 => Some(Key::F9),
            70 => Some(Key::F10),
            71 => Some(Key::F11),
            72 => Some(Key::F12),
            73 => Some(Key::PrintScreen),
            74 => Some(Key::ScrollLock),
            75 => Some(Key::Pause),
            76 => Some(Key::Insert),
            77 => Some(Key::Home),
            78 => Some(Key::PageUp),
            79 => Some(Key::Delete),
            80 => Some(Key::End),
            81 => Some(Key::PageDown),
            82 => Some(Key::Right),
            83 => Some(Key::Left),
            84 => Some(Key::Down),
            85 => Some(Key::Up),
            86 => Some(Key::NumLock),
            87 => Some(Key::Keypadslash),
            88 => Some(Key::KeypadAsterisk),
            89 => Some(Key::KeypadMinus),
            90 => Some(Key::KeypadPlus),
            91 => Some(Key::KeypadEnter),
            92 => Some(Key::Keypad1),
            93 => Some(Key::Keypad2),
            94 => Some(Key::Keypad3),
            95 => Some(Key::Keypad4),
            96 => Some(Key::Keypad5),
            97 => Some(Key::Keypad6),
            98 => Some(Key::Keypad7),
            99 => Some(Key::Keypad8),
            100 => Some(Key::Keypad9),
            101 => Some(Key::Keypad0),
            102 => Some(Key::KeypadDot),
            _ => None,
        }
    }

    /// The key that a code of the operating system stands for, if any.
    pub open spec fn with_code(code: u16) -> Option<Key> {
        match code {
            1 => Some(Key::Escape),
            2 => Some(Key::K1),
            3 => Some(Key::K2),
            4 => Some(Key::K3),
            5 => Some(Key::K4),
            6 => Some(Key::K5),
            7 => Some(Key::K6),
            8 => Some(Key::K7),
            9 => Some(Key::K8),
            10 => Some(Key::K9),
            11 => Some(Key::K0),
            12 => Some(Key::Minus),
            13 => Some(Key::Equal),
            14 => Some(Key::BackSpace),
            15 => Some(Key::Tab),
            16 => Some(Key::Q),
            17 => Some(Key::W),
            18 => Some(Key::E),
            19 => Some(Key::R),
            20 => Some(Key::T),
            21 => Some(Key::Y),
            22 => Some(Key::U),
            23 => Some(Key::I),
            24 => Some(Key::O),
            25 => Some(Key::P),
            26 => Some(Key::LBrace),
            27 => Some(Key::RBrace),
            28 => Some(Key::Enter),
            29 => Some(Key::LCtrl),
            30 => Some(Key::A),
            31 => Some(Key::S),
            32 => Some(Key::D),
            33 => Some(Key::F),
            34 => Some(Key::G),
            35 => Some(Key::H),
            36 => Some(Key::J),
            37 => Some(Key::K),
            38 => Some(Key::L),
            39 => Some(Key::Semicolon),
            40 => Some(Key::Apostrophe),
            41 => Some(Key::Grave),
            42 => Some(Key::LShift),
            43 => Some(Key::Backslash),
            44 => Some(Key::Z),
            45 => Some(Key::X),
            46 => Some(Key::C),
            47 => Some(Key::V),
            48 => Some(Key::B),
            49 => Some(Key::N),
            50 => Some(Key::M),
            51 => Some(Key::Comma),
            52 => Some(Key::Dot),
            53 => Some(Key::Slash),
            54 => Some(Key::RShift),
            55 => Some(Key::KeypadAsterisk),
            56 => Some(Key::LAlt),
            57 => Some(Key::Space),
            58 => Some(Key::CapsLock),
            59 => Some(Key::F1),
            60 => Some(Key::F2),
            61 => Some(Key::F3),
            62 => Some(Key::F4),
            63 => Some(Key::F5),
            64 => Some(Key::F6),
            65 => Some(Key::F7),
            66 => Some(Key::F8),
            67 => Some(Key::F9),
            68 => Some(Key::F10),
            69 => Some(Key::NumLock),
            70 => Some(Key::ScrollLock),
            71 => Some(Key::Keypad7),
            72 => Some(Key::Keypad8),
            73 => Some(Key::Keypad9),
            74 => Some(Key::KeypadMinus),
            75 => Some(Key::Keypad4),
            76 => Some(Key::Keypad5),
            77 => Some(Key::Keypad6),
            78 => Some(Key::KeypadPlus),
            79 => Some(Key::Keypad1),
            80 => Some(Key::Keypad2),
            81 => Some(Key::Keypad3),
            82 => Some(Key::Keypad0),
            83 => Some(Key::KeypadDot),
            87 => Some(Key::F11),
            88 => Some(Key::F12),
            96 => Some(Key::KeypadEnter),
            97 => Some(Key::RCtrl),
            98 => Some(Key::Keypadslash),
            100 => Some(Key::RAlt),
            102 => Some(Key::Home),
            103 => Some(Key::Up),
            104 => Some(Key::PageUp),
            105 => Some(Key::Left),
            106 => Some(Key::Right),
            107 => Some(Key::End),
            108 => Some(Key::Down),
            109 => Some(Key::PageDown),
            110 => Some(Key::Insert),
            111 => Some(Key::Delete),
            119 => Some(Key::Pause),
            125 => Some(Key::LWin),
            126 => Some(Key::RWin),
            581 => Some(Key::PrintScreen),
            _ => None,
        }
    }

    /// Ordinal of the key: the index of its bit in a `KeyboardState`.
    pub fn number(self) -> (n: u32)
        ensures
            n == self.ordinal(),
            n < KEY_COUNT,
    {
        match self {
            Key::A => 0,
            Key::B => 1,
            Key::C => 2,
            Key::D => 3,
            Key::E => 4,
            Key::F => 5,
            Key::G => 6,
            Key::H => 7,
            Key::I => 8,
            Key::J => 9,
            Key::K => 10,
            Key::L => 11,
            Key::M => 12,
            Key::N => 13,
            Key::O => 14,
            Key::P => 15,
            Key::Q => 16,
            Key::R => 17,
            Key::S => 18,
            Key::T => 19,
            Key::U => 20,
            Key::V => 21,
            Key::W => 22,
            Key::X => 23,
            Key::Y => 24,
            Key::Z => 25,
            Key::K1 => 26,
            Key::K2 => 27,
            Key::K3 => 28,
            Key::K4 => 29,
            Key::K5 => 30,
            Key::K6 => 31,
            Key::K7 => 32,
            Key::K8 => 33,
            Key::K9 => 34,
            Key::K0 => 35,
            Key::Enter => 36,
            Key::Escape => 37,
            Key::BackSpace => 38,
            Key::Tab => 39,
            Key::Space => 40,
            Key::Minus => 41,
            Key::Equal => 42,
            Key::LBrace => 43,
            Key::RBrace => 44,
            Key::Backslash => 45,
            Key::Semicolon => 46,
            Key::Apostrophe => 47,
            Key::Grave => 48,
            Key::Comma => 49,
            Key::Dot => 50,
            Key::Slash => 51,
            Key::CapsLock => 52,
            Key::LCtrl => 53,
            Key::LShift => 54,
            Key::LAlt => 55,
            Key::LWin => 56,
            Key::RCtrl => 57,
            Key::RShift => 58,
            Key::RAlt => 59,
            Key::RWin => 60,
            Key::F1 => 61,
            Key::F2 => 62,
            Key::F3 => 63,
            Key::F4 => 64,
            Key::F5 => 65,
            Key::F6 => 66,
            Key::F7 => 67,
            Key::F8 => 68,
            Key::F9 => 69,
            Key::F10 => 70,
            Key::F11 => 71,
            Key::F12 => 72,
            Key::PrintScreen => 73,
            Key::ScrollLock => 74,
            Key::Pause => 75,
            Key::Insert => 76,
            Key::Home => 77,
            Key::PageUp => 78,
            Key::Delete => 79,
            Key::End => 80,
            Key::PageDown => 81,
            Key::Right => 82,
            Key::Left => 83,
            Key::Down => 84,
            Key::Up => 85,
            Key::NumLock => 86,
            Key::Keypadslash => 87,
            Key::KeypadAsterisk => 88,
            Key::KeypadMinus => 89,
            Key::KeypadPlus => 90,
            Key::KeypadEnter => 91,
            Key::Keypad1 => 92,
            Key::Keypad2 => 93,
            Key::Keypad3 => 94,
            Key::Keypad4 => 95,
            Key::Keypad5 => 96,
            Key::Keypad6 => 97,
            Key::Keypad7 => 98,
            Key::Keypad8 => 99,
            Key::Keypad9 => 100,
            Key::Keypad0 => 101,
            Key::KeypadDot => 102,
        }
    }

    /// The key with the given ordinal; `None` outside `0..KEY_COUNT`.
    pub fn from_number(n: u32) -> (key: Option<Key>)
        ensures
            key == Key::at(n),
            key is Some <==> n < KEY_COUNT,
    {
        match n {
            0 => Some(Key::A),
            1 => Some(Key::B),
            2 => Some(Key::C),
            3 => Some(Key::D),
            4 => Some(Key::E),
            5 => Some(Key::F),
            6 => Some(Key::G),
            7 => Some(Key::H),
            8 => Some(Key::I),
            9 => Some(Key::J),
            10 => Some(Key::K),
            11 => Some(Key::L),
            12 => Some(Key::M),
            13 => Some(Key::N),
            14 => Some(Key::O),
            15 => Some(Key::P),
            16 => Some(Key::Q),
            17 => Some(Key::R),
            18 => Some(Key::S),
            19 => Some(Key::T),
            20 => Some(Key::U),
            21 => Some(Key::V),
            22 => Some(Key::W),
            23 => Some(Key::X),
            24 => Some(Key::Y),
            25 => Some(Key::Z),
            26 => Some(Key::K1),
            27 => Some(Key::K2),
            28 => Some(Key::K3),
            29 => Some(Key::K4),
            30 => Some(Key::K5),
            31 => Some(Key::K6),
            32 => Some(Key::K7),
            33 => Some(Key::K8),
            34 => Some(Key::K9),
            35 => Some(Key::K0),
            36 => Some(Key::Enter),
            37 => Some(Key::Escape),
            38 => Some(Key::BackSpace),
            39 => Some(Key::Tab),
            40 => Some(Key::Space),
            41 => Some(Key::Minus),
            42 => Some(Key::Equal),
            43 => Some(Key::LBrace),
            44 => Some(Key::RBrace),
            45 => Some(Key::Backslash),
            46 => Some(Key::Semicolon),
            47 => Some(Key::Apostrophe),
            48 => Some(Key::Grave),
            49 => Some(Key::Comma),
            50 => Some(Key::Dot),
            51 => Some(Key::Slash),
            52 => Some(Key::CapsLock),
            53 => Some(Key::LCtrl),
            54 => Some(Key::LShift),
            55 => Some(Key::LAlt),
            56 => Some(Key::LWin),
            57 => Some(Key::RCtrl),
            58 => Some(Key::RShift),
            59 => Some(Key::RAlt),
            60 => Some(Key::RWin),
            61 => Some(Key::F1),
            62 => Some(Key::F2),
            63 => Some(Key::F3),
            64 => Some(Key::F4),
            65 => Some(Key::F5),
            66 => Some(Key::F6),
            67 => Some(Key::F7),
            68 => Some(Key::F8),
            69 => Some(Key::F9),
            70 => Some(Key::F10),
            71 => Some(Key::F11),
            72 => Some(Key::F12),
            73 => Some(Key::PrintScreen),
            74 => Some(Key::ScrollLock),
            75 => Some(Key::Pause),
            76 => Some(Key::Insert),
            77 => Some(Key::Home),
            78 => Some(Key::PageUp),
            79 => Some(Key::Delete),
            80 => Some(Key::End),
            81 => Some(Key::PageDown),
            82 => Some(Key::Right),
            83 => Some(Key::Left),
            84 => Some(Key::Down),
            85 => Some(Key::Up),
            86 => Some(Key::NumLock),
            87 => Some(Key::Keypadslash),
            88 => Some(Key::KeypadAsterisk),
            89 => Some(Key::KeypadMinus),
            90 => Some(Key::KeypadPlus),
            91 => Some(Key::KeypadEnter),
            92 => Some(Key::Keypad1),
            93 => Some(Key::Keypad2),
            94 => Some(Key::Keypad3),
            95 => Some(Key::Keypad4),
            96 => Some(Key::Keypad5),
            97 => Some(Key::Keypad6),
            98 => Some(Key::Keypad7),
            99 => Some(Key::Keypad8),
            100 => Some(Key::Keypad9),
            101 => Some(Key::Keypad0),
            102 => Some(Key::KeypadDot),
            _ => None,
        }
    }

    /// Code of the operating system's input layer for the key. Total.
    pub fn to_os_code(self) -> (code: u16)
        ensures
            code == self.os_code(),
    {
        match self {
            Key::A => 30,
            Key::B => 48,
            Key::C => 46,
            Key::D => 32,
            Key::E => 18,
            Key::F => 33,
            Key::G => 34,
            Key::H => 35,
            Key::I => 23,
            Key::J => 36,
            Key::K => 37,
            Key::L => 38,
            Key::M => 50,
            Key::N => 49,
            Key::O => 24,
            Key::P => 25,
            Key::Q => 16,
            Key::R => 19,
            Key::S => 31,
            Key::T => 20,
            Key::U => 22,
            Key::V => 47,
            Key::W => 17,
            Key::X => 45,
            Key::Y => 21,
            Key::Z => 44,
            Key::K1 => 2,
            Key::K2 => 3,
            Key::K3 => 4,
            Key::K4 => 5,
            Key::K5 => 6,
            Key::K6 => 7,
            Key::K7 => 8,
            Key::K8 => 9,
            Key::K9 => 10,
            Key::K0 => 11,
            Key::Enter => 28,
            Key::Escape => 1,
            Key::BackSpace => 14,
            Key::Tab => 15,
            Key::Space => 57,
            Key::Minus => 12,
            Key::Equal => 13,
            Key::LBrace => 26,
            Key::RBrace => 27,
            Key::Backslash => 43,
            Key::Semicolon => 39,
            Key::Apostrophe => 40,
            Key::Grave => 41,
            Key::Comma => 51,
            Key::Dot => 52,
            Key::Slash => 53,
            Key::CapsLock => 58,
            Key::LCtrl => 29,
            Key::LShift => 42,
            Key::LAlt => 56,
            Key::LWin => 125,
            Key::RCtrl => 97,
            Key::RShift => 54,
            Key::RAlt => 100,
            Key::RWin => 126,
            Key::F1 => 59,
            Key::F2 => 60,
            Key::F3 => 61,
            Key::F4 => 62,
            Key::F5 => 63,
            Key::F6 => 64,
            Key::F7 => 65,
            Key::F8 => 66,
            Key::F9 => 67,
            Key::F10 => 68,
            Key::F11 => 87,
            Key::F12 => 88,
            Key::PrintScreen => 581,
            Key::ScrollLock => 70,
            Key::Pause => 119,
            Key::Insert => 110,
            Key::Home => 102,
            Key::PageUp => 104,
            Key::Delete => 111,
            Key::End => 107,
            Key::PageDown => 109,
            Key::Right => 106,
            Key::Left => 105,
            Key::Down => 108,
            Key::Up => 103,
            Key::NumLock => 69,
            Key::Keypadslash => 98,
            Key::KeypadAsterisk => 55,
            Key::KeypadMinus => 74,
            Key::KeypadPlus => 78,
            Key::KeypadEnter => 96,
            Key::Keypad1 => 79,
            Key::Keypad2 => 80,
            Key::Keypad3 => 81,
            Key::Keypad4 => 75,
            Key::Keypad5 => 76,
            Key::Keypad6 => 77,
            Key::Keypad7 => 71,
            Key::Keypad8 => 72,
            Key::Keypad9 => 73,
            Key::Keypad0 => 82,
            Key::KeypadDot => 83,
        }
    }

    /// The key for a code of the operating system, by table lookup; `None`
    /// for a code that no key of the catalog has.
    pub fn lookup_os_code(code: u16) -> (key: Option<Key>)
        ensures
            key == Key::with_code(code),
    {
        match code {
            1 => Some(Key::Escape),
            2 => Some(Key::K1),
            3 => Some(Key::K2),
            4 => Some(Key::K3),
            5 => Some(Key::K4),
            6 => Some(Key::K5),
            7 => Some(Key::K6),
            8 => Some(Key::K7),
            9 => Some(Key::K8),
            10 => Some(Key::K9),
            11 => Some(Key::K0),
            12 => Some(Key::Minus),
            13 => Some(Key::Equal),
            14 => Some(Key::BackSpace),
            15 => Some(Key::Tab),
            16 => Some(Key::Q),
            17 => Some(Key::W),
            18 => Some(Key::E),
            19 => Some(Key::R),
            20 => Some(Key::T),
            21 => Some(Key::Y),
            22 => Some(Key::U),
            23 => Some(Key::I),
            24 => Some(Key::O),
            25 => Some(Key::P),
            26 => Some(Key::LBrace),
            27 => Some(Key::RBrace),
            28 => Some(Key::Enter),
            29 => Some(Key::LCtrl),
            30 => Some(Key::A),
            31 => Some(Key::S),
            32 => Some(Key::D),
            33 => Some(Key::F),
            34 => Some(Key::G),
            35 => Some(Key::H),
            36 => Some(Key::J),
            37 => Some(Key::K),
            38 => Some(Key::L),
            39 => Some(Key::Semicolon),
            40 => Some(Key::Apostrophe),
            41 => Some(Key::Grave),
            42 => Some(Key::LShift),
            43 => Some(Key::Backslash),
            44 => Some(Key::Z),
            45 => Some(Key::X),
            46 => Some(Key::C),
            47 => Some(Key::V),
            48 => Some(Key::B),
            49 => Some(Key::N),
            50 => Some(Key::M),
            51 => Some(Key::Comma),
            52 => Some(Key::Dot),
            53 => Some(Key::Slash),
            54 => Some(Key::RShift),
            55 => Some(Key::KeypadAsterisk),
            56 => Some(Key::LAlt),
            57 => Some(Key::Space),
            58 => Some(Key::CapsLock),
            59 => Some(Key::F1),
            60 => Some(Key::F2),
            61 => Some(Key::F3),
            62 => Some(Key::F4),
            63 => Some(Key::F5),
            64 => Some(Key::F6),
            65 => Some(Key::F7),
            66 => Some(Key::F8),
            67 => Some(Key::F9),
            68 => Some(Key::F10),
            69 => Some(Key::NumLock),
            70 => Some(Key::ScrollLock),
            71 => Some(Key::Keypad7),
            72 => Some(Key::Keypad8),
            73 => Some(Key::Keypad9),
            74 => Some(Key::KeypadMinus),
            75 => Some(Key::Keypad4),
            76 => Some(Key::Keypad5),
            77 => Some(Key::Keypad6),
            78 => Some(Key::KeypadPlus),
            79 => Some(Key::Keypad1),
            80 => Some(Key::Keypad2),
            81 => Some(Key::Keypad3),
            82 => Some(Key::Keypad0),
            83 => Some(Key::KeypadDot),
            87 => Some(Key::F11),
            88 => Some(Key::F12),
            96 => Some(Key::KeypadEnter),
            97 => Some(Key::RCtrl),
            98 => Some(Key::Keypadslash),
            100 => Some(Key::RAlt),
            102 => Some(Key::Home),
            103 => Some(Key::Up),
            104 => Some(Key::PageUp),
            105 => Some(Key::Left),
            106 => Some(Key::Right),
            107 => Some(Key::End),
            108 => Some(Key::Down),
            109 => Some(Key::PageDown),
            110 => Some(Key::Insert),
            111 => Some(Key::Delete),
            119 => Some(Key::Pause),
            125 => Some(Key::LWin),
            126 => Some(Key::RWin),
            581 => Some(Key::PrintScreen),
            _ => None,
        }
    }
}

/// Ordinals and catalog positions are inverse to each other.
pub proof fn lemma_ordinal_roundtrip(key: Key)
    ensures
        key.ordinal() < KEY_COUNT,
        Key::at(key.ordinal()) == Some(key),
{
}

/// A position inside the catalog holds the key with that ordinal.
pub proof fn lemma_at_ordinal(ordinal: u32)
    ensures
        ordinal < KEY_COUNT <==> Key::at(ordinal) is Some,
        Key::at(ordinal) matches Some(key) ==> key.ordinal() == ordinal,
{
}

/// Looking up the code of a key gives the key back.
pub proof fn lemma_code_roundtrip(key: Key)
    ensures
        Key::with_code(key.os_code()) == Some(key),
{
}

/// A code that the lookup accepts is the code of the key found.
pub proof fn lemma_with_code_sound(code: u16)
    ensures
        Key::with_code(code) matches Some(key) ==> key.os_code() == code,
{
}

/// The mapping between keys and codes is a bijection over the supported
/// codes: no two keys share a code, and a code is rejected exactly when no
/// key has it.
pub proof fn law_codes_are_a_bijection(a: Key, b: Key, code: u16)
    ensures
        a.os_code() == b.os_code() ==> a == b,
        a.ordinal() == b.ordinal() ==> a == b,
        Key::with_code(code) is None <==> (forall|key: Key| key.os_code() != code),
{
    lemma_code_roundtrip(a);
    lemma_code_roundtrip(b);
    lemma_ordinal_roundtrip(a);
    lemma_ordinal_roundtrip(b);
    lemma_with_code_sound(code);
    if Key::with_code(code) is None {
        assert forall|key: Key| key.os_code() != code by {
            lemma_code_roundtrip(key);
        }
    }
}

} // verus!
