use vstd::prelude::*;

verus! {

/// A platform scan code.
#[derive(Debug, Clone, Copy, PartialEq, Eq, Hash, Structural)]
pub struct KeyCode(pub u32);

/// A physical key as the keyboard listener names it.
#[derive(Debug, Clone, Copy, PartialEq, Eq, Structural)]
pub enum Key {
    Alt,
    AltGr,
    Backspace,
    CapsLock,
    ControlLeft,
    ControlRight,
    Delete,
    DownArrow,
    End,
    Escape,
    F1,
    F2,
    F3,
    F4,
    F5,
    F6,
    F7,
    F8,
    F9,
    F10,
    F11,
    F12,
    Home,
    LeftArrow,
    MetaLeft,
    MetaRight,
    PageDown,
    PageUp,
    Return,
    RightArrow,
    ShiftLeft,
    ShiftRight,
    Space,
    Tab,
    UpArrow,
    PrintScreen,
    ScrollLock,
    Pause,
    NumLock,
    BackQuote,
    Num1,
    Num2,
    Num3,
    Num4,
    Num5,
    Num6,
    Num7,
    Num8,
    Num9,
    Num0,
    Minus,
    Equal,
    KeyQ,
    KeyW,
    KeyE,
    KeyR,
    KeyT,
    KeyY,
    KeyU,
    KeyI,
    KeyO,
    KeyP,
    LeftBracket,
    RightBracket,
    KeyA,
    KeyS,
    KeyD,
    KeyF,
    KeyG,
    KeyH,
    KeyJ,
    KeyK,
    KeyL,
    SemiColon,
    Quote,
    BackSlash,
    IntlBackslash,
    KeyZ,
    KeyX,
    KeyC,
    KeyV,
    KeyB,
    KeyN,
    KeyM,
    Comma,
    Dot,
    Slash,
    Insert,
    KpReturn,
    KpMinus,
    KpPlus,
    KpMultiply,
    KpDivide,
    Kp0,
    Kp1,
    Kp2,
    Kp3,
    Kp4,
    Kp5,
    Kp6,
    Kp7,
    Kp8,
    Kp9,
    KpDelete,
    Function,
    /// A key that has no name, with the code that the platform reports.
    Unknown(u32),
}

/// The scan code of a physical key.
pub open spec fn scan_code(key: Key) -> u32 {
    match key {
        Key::Alt => 0x3A,
        Key::AltGr => 0x3D,
        Key::Backspace => 0x33,
        Key::CapsLock => 0x39,
        Key::ControlLeft => 0x3B,
        Key::ControlRight => 0x3E,
        Key::Delete => 0x75,
        Key::DownArrow => 0x7D,
        Key::End => 0x77,
        Key::Escape => 0x35,
        Key::F1 => 0x7A,
        Key::F2 => 0x78,
        Key::F3 => 0x63,
        Key::F4 => 0x76,
        Key::F5 => 0x60,
        Key::F6 => 0x61,
        Key::F7 => 0x62,
        Key::F8 => 0x64,
        Key::F9 => 0x65,
        Key::F10 => 0x6D,
        Key::F11 => 0x67,
        Key::F12 => 0x6F,
        Key::Home => 0x73,
        Key::LeftArrow => 0x7B,
        Key::MetaLeft => 0x37,
        Key::MetaRight => 0x36,
        Key::PageDown => 0x79,
        Key::PageUp => 0x74,
        Key::Return => 0x24,
        Key::RightArrow => 0x7C,
        Key::ShiftLeft => 0x38,
        Key::ShiftRight => 0x3C,
        Key::Space => 0x31,
        Key::Tab => 0x30,
        Key::UpArrow => 0x7E,
        Key::PrintScreen => 0x69,
        Key::ScrollLock => 0x6B,
        Key::Pause => 0x71,
        Key::NumLock => 0x47,
        Key::BackQuote => 0x32,
        Key::Num1 => 0x12,
        Key::Num2 => 0x13,
        Key::Num3 => 0x14,
        Key::Num4 => 0x15,
        Key::Num5 => 0x17,
        Key::Num6 => 0x16,
        Key::Num7 => 0x1A,
        Key::Num8 => 0x1C,
        Key::Num9 => 0x19,
        Key::Num0 => 0x1D,
        Key::Minus => 0x1B,
        Key::Equal => 0x18,
        Key::KeyQ => 0x0C,
        Key::KeyW => 0x0D,
        Key::KeyE => 0x0E,
        Key::KeyR => 0x0F,
        Key::KeyT => 0x11,
        Key::KeyY => 0x10,
        Key::KeyU => 0x20,
        Key::KeyI => 0x22,
        Key::KeyO => 0x1F,
        Key::KeyP => 0x23,
        Key::LeftBracket => 0x21,
        Key::RightBracket => 0x1E,
        Key::KeyA => 0x00,
        Key::KeyS => 0x01,
        Key::KeyD => 0x02,
        Key::KeyF => 0x03,
        Key::KeyG => 0x05,
        Key::KeyH => 0x04,
        Key::KeyJ => 0x26,
        Key::KeyK => 0x28,
        Key::KeyL => 0x25,
        Key::SemiColon => 0x29,
        Key::Quote => 0x27,
        Key::BackSlash => 0x2A,
        Key::IntlBackslash => 0x0A,
        Key::KeyZ => 0x06,
        Key::KeyX => 0x07,
        Key::KeyC => 0x08,
        Key::KeyV => 0x09,
        Key::KeyB => 0x0B,
        Key::KeyN => 0x2D,
        Key::KeyM => 0x2E,
        Key::Comma => 0x2B,
        Key::Dot => 0x2F,
        Key::Slash => 0x2C,
        Key::Insert => 0x72,
        Key::KpReturn => 0x4C,
        Key::KpMinus => 0x4E,
        Key::KpPlus => 0x45,
        Key::KpMultiply => 0x43,
        Key::KpDivide => 0x4B,
        Key::Kp0 => 0x52,
        Key::Kp1 => 0x53,
        Key::Kp2 => 0x54,
        Key::Kp3 => 0x55,
        Key::Kp4 => 0x56,
        Key::Kp5 => 0x57,
        Key::Kp6 => 0x58,
        Key::Kp7 => 0x59,
        Key::Kp8 => 0x5B,
        Key::Kp9 => 0x5C,
        Key::KpDelete => 0x41,
        Key::Function => 0x3F,
        Key::Unknown(code) => code,
    }
}

/// The label of a scan code that the table knows.
pub open spec fn known_key_name(code: u32) -> Option<Seq<char>> {
    match code {
        0x00 => Some("A"@),
        0x01 => Some("S"@),
        0x02 => Some("D"@),
        0x03 => Some("F"@),
        0x04 => Some("H"@),
        0x05 => Some("G"@),
        0x06 => Some("Z"@),
        0x07 => Some("X"@),
        0x08 => Some("C"@),
        0x09 => Some("V"@),
        0x0B => Some("B"@),
        0x0C => Some("Q"@),
        0x0D => Some("W"@),
        0x0E => Some("E"@),
        0x0F => Some("R"@),
        0x10 => Some("Y"@),
        0x11 => Some("T"@),
        0x12 => Some("1"@),
        0x13 => Some("2"@),
        0x14 => Some("3"@),
        0x15 => Some("4"@),
        0x16 => Some("6"@),
        0x17 => Some("5"@),
        0x18 => Some("="@),
        0x19 => Some("9"@),
        0x1A => Some("7"@),
        0x1B => Some("-"@),
        0x1C => Some("8"@),
        0x1D => Some("0"@),
        0x1E => Some("]"@),
        0x1F => Some("O"@),
        0x20 => Some("U"@),
        0x21 => Some("["@),
        0x22 => Some("I"@),
        0x23 => Some("P"@),
        0x24 => Some("Return"@),
        0x25 => Some("L"@),
        0x26 => Some("J"@),
        0x27 => Some("'"@),
        0x28 => Some("K"@),
        0x29 => Some(";"@),
        0x2A => Some("\\"@),
        0x2B => Some(","@),
        0x2C => Some("/"@),
        0x2D => Some("N"@),
        0x2E => Some("M"@),
        0x2F => Some("."@),
        0x30 => Some("Tab"@),
        0x31 => Some("Space"@),
        0x32 => Some("`"@),
        0x33 => Some("Backspace"@),
        0x35 => Some("Escape"@),
        0x36 => Some("RightCommand"@),
        0x37 => Some("LeftCommand"@),
        0x38 => Some("LeftShift"@),
        0x39 => Some("CapsLock"@),
        0x3A => Some("LeftAlt"@),
        0x3B => Some("LeftControl"@),
        0x3C => Some("RightShift"@),
        0x3D => Some("RightAlt"@),
        0x3E => Some("RightControl"@),
        0x3F => Some("Function"@),
        0x7A => Some("F1"@),
        0x78 => Some("F2"@),
        0x63 => Some("F3"@),
        0x76 => Some("F4"@),
        0x60 => Some("F5"@),
        0x61 => Some("F6"@),
        0x62 => Some("F7"@),
        0x64 => Some("F8"@),
        0x65 => Some("F9"@),
        0x6D => Some("F10"@),
        0x67 => Some("F11"@),
        0x6F => Some("F12"@),
        0x73 => Some("Home"@),
        0x74 => Some("PageUp"@),
        0x75 => Some("Delete"@),
        0x77 => Some("End"@),
        0x79 => Some("PageDown"@),
        0x7B => Some("LeftArrow"@),
        0x7C => Some("RightArrow"@),
        0x7D => Some("DownArrow"@),
        0x7E => Some("UpArrow"@),
        _ => None,
    }
}

/// The digit of a value below sixteen, in upper-case hexadecimal.
pub open spec fn hex_digit(value: nat) -> char
    recommends
        value < 16,
{
    "0123456789ABCDEF"@[value as int]
}

/// Upper-case hexadecimal digits of `value`, most significant first, without
/// leading zeros (a single `0` for zero).
pub open spec fn hex_upper(value: nat) -> Seq<char>
    decreases value,
{
    if value < 16 {
        seq![hex_digit(value)]
    } else {
        hex_upper(value / 16).push(hex_digit(value % 16))
    }
}

/// Upper-case hexadecimal digits of `code`, padded with a zero to two digits.
pub open spec fn hex_upper_padded(code: u32) -> Seq<char> {
    if code < 16 {
        seq!['0'] + hex_upper(code as nat)
    } else {
        hex_upper(code as nat)
    }
}

/// The label shown for a scan code: the table entry where there is one, else
/// `Unknown(0x..)` with the code in hexadecimal.
pub open spec fn key_name(code: u32) -> Seq<char> {
    match known_key_name(code) {
        Some(name) => name,
        None => "Unknown(0x"@ + hex_upper_padded(code) + ")"@,
    }
}

/// The table of labels.
fn known_name(code: u32) -> (name: Option<&'static str>)
    ensures
        match name {
            Some(label) => known_key_name(code) == Some(label@),
            None => known_key_name(code) is None,
        },
{
    match code {
        0x00 => Some("A"),
        0x01 => Some("S"),
        0x02 => Some("D"),
        0x03 => Some("F"),
        0x04 => Some("H"),
        0x05 => Some("G"),
        0x06 => Some("Z"),
        0x07 => Some("X"),
        0x08 => Some("C"),
        0x09 => Some("V"),
        0x0B => Some("B"),
        0x0C => Some("Q"),
        0x0D => Some("W"),
        0x0E => Some("E"),
        0x0F => Some("R"),
        0x10 => Some("Y"),
        0x11 => Some("T"),
        0x12 => Some("1"),
        0x13 => Some("2"),
        0x14 => Some("3"),
        0x15 => Some("4"),
        0x16 => Some("6"),
        0x17 => Some("5"),
        0x18 => Some("="),
        0x19 => Some("9"),
        0x1A => Some("7"),
        0x1B => Some("-"),
        0x1C => Some("8"),
        0x1D => Some("0"),
        0x1E => Some("]"),
        0x1F => Some("O"),
        0x20 => Some("U"),
        0x21 => Some("["),
        0x22 => Some("I"),
        0x23 => Some("P"),
        0x24 => Some("Return"),
        0x25 => Some("L"),
        0x26 => Some("J"),
        0x27 => Some("'"),
        0x28 => Some("K"),
        0x29 => Some(";"),
        0x2A => Some("\\"),
        0x2B => Some(","),
        0x2C => Some("/"),
        0x2D => Some("N"),
        0x2E => Some("M"),
        0x2F => Some("."),
        0x30 => Some("Tab"),
        0x31 => Some("Space"),
        0x32 => Some("`"),
        0x33 => Some("Backspace"),
        0x35 => Some("Escape"),
        0x36 => Some("RightCommand"),
        0x37 => Some("LeftCommand"),
        0x38 => Some("LeftShift"),
        0x39 => Some("CapsLock"),
        0x3A => Some("LeftAlt"),
        0x3B => Some("LeftControl"),
        0x3C => Some("RightShift"),
        0x3D => Some("RightAlt"),
        0x3E => Some("RightControl"),
        0x3F => Some("Function"),
        0x7A => Some("F1"),
        0x78 => Some("F2"),
        0x63 => Some("F3"),
        0x76 => Some("F4"),
        0x60 => Some("F5"),
        0x61 => Some("F6"),
        0x62 => Some("F7"),
        0x64 => Some("F8"),
        0x65 => Some("F9"),
        0x6D => Some("F10"),
        0x67 => Some("F11"),
        0x6F => Some("F12"),
        0x73 => Some("Home"),
        0x74 => Some("PageUp"),
        0x75 => Some("Delete"),
        0x77 => Some("End"),
        0x79 => Some("PageDown"),
        0x7B => Some("LeftArrow"),
        0x7C => Some("RightArrow"),
        0x7D => Some("DownArrow"),
        0x7E => Some("UpArrow"),
        _ => None,
    }
}

/// Formats a code that the table lacks, with `format!` and `{:02X}`: the
/// prefix `Unknown(0x`, the code in upper-case hexadecimal padded with a zero
/// to at least two digits, and a closing bracket.
#[verifier::external_body]
fn unknown_name(code: u32) -> (name: String)
    ensures
        name@ == "Unknown(0x"@ + hex_upper_padded(code) + ")"@,
{
    format!("Unknown(0x{:02X})", code)
}

impl KeyCode {
    /// The scan code of a physical key.
    pub fn from_rdev_key(key: &Key) -> (code: Self)
        ensures
            code.0 == scan_code(*key),
    {
        let code: u32 = match key {
            Key::Alt => 0x3A,
            Key::AltGr => 0x3D,
            Key::Backspace => 0x33,
            Key::CapsLock => 0x39,
            Key::ControlLeft => 0x3B,
            Key::ControlRight => 0x3E,
            Key::Delete => 0x75,
            Key::DownArrow => 0x7D,
            Key::End => 0x77,
            Key::Escape => 0x35,
            Key::F1 => 0x7A,
            Key::F2 => 0x78,
            Key::F3 => 0x63,
            Key::F4 => 0x76,
            Key::F5 => 0x60,
            Key::F6 => 0x61,
            Key::F7 => 0x62,
            Key::F8 => 0x64,
            Key::F9 => 0x65,
            Key::F10 => 0x6D,
            Key::F11 => 0x67,
            Key::F12 => 0x6F,
            Key::Home => 0x73,
            Key::LeftArrow => 0x7B,
            Key::MetaLeft => 0x37,
            Key::MetaRight => 0x36,
            Key::PageDown => 0x79,
            Key::PageUp => 0x74,
            Key::Return => 0x24,
            Key::RightArrow => 0x7C,
            Key::ShiftLeft => 0x38,
            Key::ShiftRight => 0x3C,
            Key::Space => 0x31,
            Key::Tab => 0x30,
            Key::UpArrow => 0x7E,
            Key::PrintScreen => 0x69,
            Key::ScrollLock => 0x6B,
            Key::Pause => 0x71,
            Key::NumLock => 0x47,
            Key::BackQuote => 0x32,
            Key::Num1 => 0x12,
            Key::Num2 => 0x13,
            Key::Num3 => 0x14,
            Key::Num4 => 0x15,
            Key::Num5 => 0x17,
            Key::Num6 => 0x16,
            Key::Num7 => 0x1A,
            Key::Num8 => 0x1C,
            Key::Num9 => 0x19,
            Key::Num0 => 0x1D,
            Key::Minus => 0x1B,
            Key::Equal => 0x18,
            Key::KeyQ => 0x0C,
            Key::KeyW => 0x0D,
            Key::KeyE => 0x0E,
            Key::KeyR => 0x0F,
            Key::KeyT => 0x11,
            Key::KeyY => 0x10,
            Key::KeyU => 0x20,
            Key::KeyI => 0x22,
            Key::KeyO => 0x1F,
            Key::KeyP => 0x23,
            Key::LeftBracket => 0x21,
            Key::RightBracket => 0x1E,
            Key::KeyA => 0x00,
            Key::KeyS => 0x01,
            Key::KeyD => 0x02,
            Key::KeyF => 0x03,
            Key::KeyG => 0x05,
            Key::KeyH => 0x04,
            Key::KeyJ => 0x26,
            Key::KeyK => 0x28,
            Key::KeyL => 0x25,
            Key::SemiColon => 0x29,
            Key::Quote => 0x27,
            Key::BackSlash => 0x2A,
            Key::IntlBackslash => 0x0A,
            Key::KeyZ => 0x06,
            Key::KeyX => 0x07,
            Key::KeyC => 0x08,
            Key::KeyV => 0x09,
            Key::KeyB => 0x0B,
            Key::KeyN => 0x2D,
            Key::KeyM => 0x2E,
            Key::Comma => 0x2B,
            Key::Dot => 0x2F,
            Key::Slash => 0x2C,
            Key::Insert => 0x72,
            Key::KpReturn => 0x4C,
            Key::KpMinus => 0x4E,
            Key::KpPlus => 0x45,
            Key::KpMultiply => 0x43,
            Key::KpDivide => 0x4B,
            Key::Kp0 => 0x52,
            Key::Kp1 => 0x53,
            Key::Kp2 => 0x54,
            Key::Kp3 => 0x55,
            Key::Kp4 => 0x56,
            Key::Kp5 => 0x57,
            Key::Kp6 => 0x58,
            Key::Kp7 => 0x59,
            Key::Kp8 => 0x5B,
            Key::Kp9 => 0x5C,
            Key::KpDelete => 0x41,
            Key::Function => 0x3F,
            Key::Unknown(code) => *code,
        };
        KeyCode(code)
    }

    /// The label shown for this key.
    pub fn to_name(&self) -> (name: String)
        ensures
            name@ == key_name(self.0),
    {
        match known_name(self.0) {
            Some(label) => label.to_string(),
            None => unknown_name(self.0),
        }
    }

    /// Same as [`KeyCode::to_name`].
    pub fn to_string(&self) -> (name: String)
        ensures
            name@ == key_name(self.0),
    {
        self.to_name()
    }
}

} // verus!
