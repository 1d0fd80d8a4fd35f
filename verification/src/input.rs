//! Keyboard shortcuts: parsing the text of a configured shortcut (such as `Ctrl+S`) into
//! modifiers and a key, and the studio actions the shortcuts are bound to.

use vstd::prelude::*;
use crate::config::{ShortcutsConfig, WorkspacesConfig};
use crate::find::{toggle_find, toggle_find_post, toggle_replace, toggle_replace_post};
use crate::studio::{lemma_visible_list_len, position_or_first, visible_list, MFlashStudioApp, Workspace};
use crate::text::{chars_of, str_eq, string_from, to_lowercase, trim, trim_str, unicode_lowercase};

verus! {

/// A key that a shortcut can name.
#[derive(Clone, Copy, Debug, PartialEq, Eq, Structural)]
pub enum Key {
    A,
    B,
    C,
    D,
    E,
    F,
    G,
    H,
    I,
    J,
    K,
    L,
    M,
    N,
    O,
    P,
    Q,
    R,
    S,
    T,
    U,
    V,
    W,
    X,
    Y,
    Z,
    Num0,
    Num1,
    Num2,
    Num3,
    Num4,
    Num5,
    Num6,
    Num7,
    Num8,
    Num9,
    Comma,
    Period,
    Equals,
    Minus,
    Enter,
    Escape,
    Space,
    Tab,
    Backspace,
    Delete,
    ArrowUp,
    ArrowDown,
    ArrowLeft,
    ArrowRight,
    Home,
    End,
    PageUp,
    PageDown,
    F1,
    F2,
    F3,
    F4,
    F5,
    F6,
    F7,
    F8,
    F9,
    F10,
    F11,
    F12,
}

/// The key that `name` (trimmed and lowercased) names, when it is a letter key.
pub open spec fn letter_key_named(name: Seq<char>) -> Option<Key> {
    if name == "a"@ {
        Some(Key::A)
    } else if name == "b"@ {
        Some(Key::B)
    } else if name == "c"@ {
        Some(Key::C)
    } else if name == "d"@ {
        Some(Key::D)
    } else if name == "e"@ {
        Some(Key::E)
    } else if name == "f"@ {
        Some(Key::F)
    } else if name == "g"@ {
        Some(Key::G)
    } else if name == "h"@ {
        Some(Key::H)
    } else if name == "i"@ {
        Some(Key::I)
    } else if name == "j"@ {
        Some(Key::J)
    } else if name == "k"@ {
        Some(Key::K)
    } else if name == "l"@ {
        Some(Key::L)
    } else if name == "m"@ {
        Some(Key::M)
    } else if name == "n"@ {
        Some(Key::N)
    } else if name == "o"@ {
        Some(Key::O)
    } else if name == "p"@ {
        Some(Key::P)
    } else if name == "q"@ {
        Some(Key::Q)
    } else if name == "r"@ {
        Some(Key::R)
    } else if name == "s"@ {
        Some(Key::S)
    } else if name == "t"@ {
        Some(Key::T)
    } else if name == "u"@ {
        Some(Key::U)
    } else if name == "v"@ {
        Some(Key::V)
    } else if name == "w"@ {
        Some(Key::W)
    } else if name == "x"@ {
        Some(Key::X)
    } else if name == "y"@ {
        Some(Key::Y)
    } else if name == "z"@ {
        Some(Key::Z)
    } else {
        None
    }
}

fn letter_key_of(name: &str) -> (r: Option<Key>)
    ensures
        r == letter_key_named(name@),
{
    if str_eq(name, "a") {
        Some(Key::A)
    } else if str_eq(name, "b") {
        Some(Key::B)
    } else if str_eq(name, "c") {
        Some(Key::C)
    } else if str_eq(name, "d") {
        Some(Key::D)
    } else if str_eq(name, "e") {
        Some(Key::E)
    } else if str_eq(name, "f") {
        Some(Key::F)
    } else if str_eq(name, "g") {
        Some(Key::G)
    } else if str_eq(name, "h") {
        Some(Key::H)
    } else if str_eq(name, "i") {
        Some(Key::I)
    } else if str_eq(name, "j") {
        Some(Key::J)
    } else if str_eq(name, "k") {
        Some(Key::K)
    } else if str_eq(name, "l") {
        Some(Key::L)
    } else if str_eq(name, "m") {
        Some(Key::M)
    } else if str_eq(name, "n") {
        Some(Key::N)
    } else if str_eq(name, "o") {
        Some(Key::O)
    } else if str_eq(name, "p") {
        Some(Key::P)
    } else if str_eq(name, "q") {
        Some(Key::Q)
    } else if str_eq(name, "r") {
        Some(Key::R)
    } else if str_eq(name, "s") {
        Some(Key::S)
    } else if str_eq(name, "t") {
        Some(Key::T)
    } else if str_eq(name, "u") {
        Some(Key::U)
    } else if str_eq(name, "v") {
        Some(Key::V)
    } else if str_eq(name, "w") {
        Some(Key::W)
    } else if str_eq(name, "x") {
        Some(Key::X)
    } else if str_eq(name, "y") {
        Some(Key::Y)
    } else if str_eq(name, "z") {
        Some(Key::Z)
    } else {
        None
    }
}

/// The key that `name` (trimmed and lowercased) names, when it is a digit or punctuation key.
pub open spec fn digit_key_named(name: Seq<char>) -> Option<Key> {
    if name == "0"@ || name == "num0"@ {
        Some(Key::Num0)
    } else if name == "1"@ || name == "num1"@ {
        Some(Key::Num1)
    } else if name == "2"@ || name == "num2"@ {
        Some(Key::Num2)
    } else if name == "3"@ || name == "num3"@ {
        Some(Key::Num3)
    } else if name == "4"@ || name == "num4"@ {
        Some(Key::Num4)
    } else if name == "5"@ || name == "num5"@ {
        Some(Key::Num5)
    } else if name == "6"@ || name == "num6"@ {
        Some(Key::Num6)
    } else if name == "7"@ || name == "num7"@ {
        Some(Key::Num7)
    } else if name == "8"@ || name == "num8"@ {
        Some(Key::Num8)
    } else if name == "9"@ || name == "num9"@ {
        Some(Key::Num9)
    } else if name == ","@ || name == "comma"@ {
        Some(Key::Comma)
    } else if name == "."@ || name == "period"@ {
        Some(Key::Period)
    } else if name == "plus"@ || name == "+"@ || name == "="@ {
        Some(Key::Equals)
    } else if name == "minus"@ || name == "-"@ {
        Some(Key::Minus)
    } else {
        None
    }
}

fn digit_key_of(name: &str) -> (r: Option<Key>)
    ensures
        r == digit_key_named(name@),
{
    if str_eq(name, "0") || str_eq(name, "num0") {
        Some(Key::Num0)
    } else if str_eq(name, "1") || str_eq(name, "num1") {
        Some(Key::Num1)
    } else if str_eq(name, "2") || str_eq(name, "num2") {
        Some(Key::Num2)
    } else if str_eq(name, "3") || str_eq(name, "num3") {
        Some(Key::Num3)
    } else if str_eq(name, "4") || str_eq(name, "num4") {
        Some(Key::Num4)
    } else if str_eq(name, "5") || str_eq(name, "num5") {
        Some(Key::Num5)
    } else if str_eq(name, "6") || str_eq(name, "num6") {
        Some(Key::Num6)
    } else if str_eq(name, "7") || str_eq(name, "num7") {
        Some(Key::Num7)
    } else if str_eq(name, "8") || str_eq(name, "num8") {
        Some(Key::Num8)
    } else if str_eq(name, "9") || str_eq(name, "num9") {
        Some(Key::Num9)
    } else if str_eq(name, ",") || str_eq(name, "comma") {
        Some(Key::Comma)
    } else if str_eq(name, ".") || str_eq(name, "period") {
        Some(Key::Period)
    } else if str_eq(name, "plus") || str_eq(name, "+") || str_eq(name, "=") {
        Some(Key::Equals)
    } else if str_eq(name, "minus") || str_eq(name, "-") {
        Some(Key::Minus)
    } else {
        None
    }
}

/// The key that `name` (trimmed and lowercased) names, when it is a named or function key.
pub open spec fn named_key_named(name: Seq<char>) -> Option<Key> {
    if name == "enter"@ || name == "return"@ {
        Some(Key::Enter)
    } else if name == "escape"@ || name == "esc"@ {
        Some(Key::Escape)
    } else if name == "space"@ {
        Some(Key::Space)
    } else if name == "tab"@ {
        Some(Key::Tab)
    } else if name == "backspace"@ {
        Some(Key::Backspace)
    } else if name == "delete"@ || name == "del"@ {
        Some(Key::Delete)
    } else if name == "arrowup"@ || name == "up"@ {
        Some(Key::ArrowUp)
    } else if name == "arrowdown"@ || name == "down"@ {
        Some(Key::ArrowDown)
    } else if name == "arrowleft"@ || name == "left"@ {
        Some(Key::ArrowLeft)
    } else if name == "arrowright"@ || name == "right"@ {
        Some(Key::ArrowRight)
    } else if name == "home"@ {
        Some(Key::Home)
    } else if name == "end"@ {
        Some(Key::End)
    } else if name == "pageup"@ {
        Some(Key::PageUp)
    } else if name == "pagedown"@ {
        Some(Key::PageDown)
    } else if name == "f1"@ {
        Some(Key::F1)
    } else if name == "f2"@ {
        Some(Key::F2)
    } else if name == "f3"@ {
        Some(Key::F3)
    } else if name == "f4"@ {
        Some(Key::F4)
    } else if name == "f5"@ {
        Some(Key::F5)
    } else if name == "f6"@ {
        Some(Key::F6)
    } else if name == "f7"@ {
        Some(Key::F7)
    } else if name == "f8"@ {
        Some(Key::F8)
    } else if name == "f9"@ {
        Some(Key::F9)
    } else if name == "f10"@ {
        Some(Key::F10)
    } else if name == "f11"@ {
        Some(Key::F11)
    } else if name == "f12"@ {
        Some(Key::F12)
    } else {
        None
    }
}

fn named_key_of(name: &str) -> (r: Option<Key>)
    ensures
        r == named_key_named(name@),
{
    if str_eq(name, "enter") || str_eq(name, "return") {
        Some(Key::Enter)
    } else if str_eq(name, "escape") || str_eq(name, "esc") {
        Some(Key::Escape)
    } else if str_eq(name, "space") {
        Some(Key::Space)
    } else if str_eq(name, "tab") {
        Some(Key::Tab)
    } else if str_eq(name, "backspace") {
        Some(Key::Backspace)
    } else if str_eq(name, "delete") || str_eq(name, "del") {
        Some(Key::Delete)
    } else if str_eq(name, "arrowup") || str_eq(name, "up") {
        Some(Key::ArrowUp)
    } else if str_eq(name, "arrowdown") || str_eq(name, "down") {
        Some(Key::ArrowDown)
    } else if str_eq(name, "arrowleft") || str_eq(name, "left") {
        Some(Key::ArrowLeft)
    } else if str_eq(name, "arrowright") || str_eq(name, "right") {
        Some(Key::ArrowRight)
    } else if str_eq(name, "home") {
        Some(Key::Home)
    } else if str_eq(name, "end") {
        Some(Key::End)
    } else if str_eq(name, "pageup") {
        Some(Key::PageUp)
    } else if str_eq(name, "pagedown") {
        Some(Key::PageDown)
    } else if str_eq(name, "f1") {
        Some(Key::F1)
    } else if str_eq(name, "f2") {
        Some(Key::F2)
    } else if str_eq(name, "f3") {
        Some(Key::F3)
    } else if str_eq(name, "f4") {
        Some(Key::F4)
    } else if str_eq(name, "f5") {
        Some(Key::F5)
    } else if str_eq(name, "f6") {
        Some(Key::F6)
    } else if str_eq(name, "f7") {
        Some(Key::F7)
    } else if str_eq(name, "f8") {
        Some(Key::F8)
    } else if str_eq(name, "f9") {
        Some(Key::F9)
    } else if str_eq(name, "f10") {
        Some(Key::F10)
    } else if str_eq(name, "f11") {
        Some(Key::F11)
    } else if str_eq(name, "f12") {
        Some(Key::F12)
    } else {
        None
    }
}

/// The key that `name` (trimmed and lowercased) names, if any.
pub open spec fn key_named(name: Seq<char>) -> Option<Key> {
    match letter_key_named(name) {
        Some(k) => Some(k),
        None => match digit_key_named(name) {
            Some(k) => Some(k),
            None => named_key_named(name),
        },
    }
}

/// The name a key is written with in a shortcut: its letter or digit, or its name in small
/// letters (`=` for the equals key).
pub open spec fn key_name(k: Key) -> Seq<char> {
    match k {
        Key::A => "a"@,
        Key::B => "b"@,
        Key::C => "c"@,
        Key::D => "d"@,
        Key::E => "e"@,
        Key::F => "f"@,
        Key::G => "g"@,
        Key::H => "h"@,
        Key::I => "i"@,
        Key::J => "j"@,
        Key::K => "k"@,
        Key::L => "l"@,
        Key::M => "m"@,
        Key::N => "n"@,
        Key::O => "o"@,
        Key::P => "p"@,
        Key::Q => "q"@,
        Key::R => "r"@,
        Key::S => "s"@,
        Key::T => "t"@,
        Key::U => "u"@,
        Key::V => "v"@,
        Key::W => "w"@,
        Key::X => "x"@,
        Key::Y => "y"@,
        Key::Z => "z"@,
        Key::Num0 => "0"@,
        Key::Num1 => "1"@,
        Key::Num2 => "2"@,
        Key::Num3 => "3"@,
        Key::Num4 => "4"@,
        Key::Num5 => "5"@,
        Key::Num6 => "6"@,
        Key::Num7 => "7"@,
        Key::Num8 => "8"@,
        Key::Num9 => "9"@,
        Key::Comma => "comma"@,
        Key::Period => "period"@,
        Key::Equals => "="@,
        Key::Minus => "minus"@,
        Key::Enter => "enter"@,
        Key::Escape => "escape"@,
        Key::Space => "space"@,
        Key::Tab => "tab"@,
        Key::Backspace => "backspace"@,
        Key::Delete => "delete"@,
        Key::ArrowUp => "arrowup"@,
        Key::ArrowDown => "arrowdown"@,
        Key::ArrowLeft => "arrowleft"@,
        Key::ArrowRight => "arrowright"@,
        Key::Home => "home"@,
        Key::End => "end"@,
        Key::PageUp => "pageup"@,
        Key::PageDown => "pagedown"@,
        Key::F1 => "f1"@,
        Key::F2 => "f2"@,
        Key::F3 => "f3"@,
        Key::F4 => "f4"@,
        Key::F5 => "f5"@,
        Key::F6 => "f6"@,
        Key::F7 => "f7"@,
        Key::F8 => "f8"@,
        Key::F9 => "f9"@,
        Key::F10 => "f10"@,
        Key::F11 => "f11"@,
        Key::F12 => "f12"@,
    }
}

/// The letter a letter key stands for; `None` for the other keys.
pub open spec fn key_letter(k: Key) -> Option<char> {
    match k {
        Key::A => Some('a'),
        Key::B => Some('b'),
        Key::C => Some('c'),
        Key::D => Some('d'),
        Key::E => Some('e'),
        Key::F => Some('f'),
        Key::G => Some('g'),
        Key::H => Some('h'),
        Key::I => Some('i'),
        Key::J => Some('j'),
        Key::K => Some('k'),
        Key::L => Some('l'),
        Key::M => Some('m'),
        Key::N => Some('n'),
        Key::O => Some('o'),
        Key::P => Some('p'),
        Key::Q => Some('q'),
        Key::R => Some('r'),
        Key::S => Some('s'),
        Key::T => Some('t'),
        Key::U => Some('u'),
        Key::V => Some('v'),
        Key::W => Some('w'),
        Key::X => Some('x'),
        Key::Y => Some('y'),
        Key::Z => Some('z'),
        _ => None,
    }
}

/// The characters of the names that keys are read from.
proof fn lemma_key_name_chars()
    ensures
        "+"@.len() == 1 && "+"@[0] == '+',
        ","@.len() == 1 && ","@[0] == ',',
        "-"@.len() == 1 && "-"@[0] == '-',
        "."@.len() == 1 && "."@[0] == '.',
        "0"@.len() == 1 && "0"@[0] == '0',
        "1"@.len() == 1 && "1"@[0] == '1',
        "2"@.len() == 1 && "2"@[0] == '2',
        "3"@.len() == 1 && "3"@[0] == '3',
        "4"@.len() == 1 && "4"@[0] == '4',
        "5"@.len() == 1 && "5"@[0] == '5',
        "6"@.len() == 1 && "6"@[0] == '6',
        "7"@.len() == 1 && "7"@[0] == '7',
        "8"@.len() == 1 && "8"@[0] == '8',
        "9"@.len() == 1 && "9"@[0] == '9',
        "="@.len() == 1 && "="@[0] == '=',
        "a"@.len() == 1 && "a"@[0] == 'a',
        "arrowdown"@.len() == 9 && "arrowdown"@[0] == 'a' && "arrowdown"@[1] == 'r' && "arrowdown"@[2] == 'r' && "arrowdown"@[3] == 'o' && "arrowdown"@[4] == 'w' && "arrowdown"@[5] == 'd' && "arrowdown"@[6] == 'o' && "arrowdown"@[7] == 'w' && "arrowdown"@[8] == 'n',
        "arrowleft"@.len() == 9 && "arrowleft"@[0] == 'a' && "arrowleft"@[1] == 'r' && "arrowleft"@[2] == 'r' && "arrowleft"@[3] == 'o' && "arrowleft"@[4] == 'w' && "arrowleft"@[5] == 'l' && "arrowleft"@[6] == 'e' && "arrowleft"@[7] == 'f' && "arrowleft"@[8] == 't',
        "arrowright"@.len() == 10 && "arrowright"@[0] == 'a' && "arrowright"@[1] == 'r' && "arrowright"@[2] == 'r' && "arrowright"@[3] == 'o' && "arrowright"@[4] == 'w' && "arrowright"@[5] == 'r' && "arrowright"@[6] == 'i' && "arrowright"@[7] == 'g' && "arrowright"@[8] == 'h' && "arrowright"@[9] == 't',
        "arrowup"@.len() == 7 && "arrowup"@[0] == 'a' && "arrowup"@[1] == 'r' && "arrowup"@[2] == 'r' && "arrowup"@[3] == 'o' && "arrowup"@[4] == 'w' && "arrowup"@[5] == 'u' && "arrowup"@[6] == 'p',
        "b"@.len() == 1 && "b"@[0] == 'b',
        "backspace"@.len() == 9 && "backspace"@[0] == 'b' && "backspace"@[1] == 'a' && "backspace"@[2] == 'c' && "backspace"@[3] == 'k' && "backspace"@[4] == 's' && "backspace"@[5] == 'p' && "backspace"@[6] == 'a' && "backspace"@[7] == 'c' && "backspace"@[8] == 'e',
        "c"@.len() == 1 && "c"@[0] == 'c',
        "comma"@.len() == 5 && "comma"@[0] == 'c' && "comma"@[1] == 'o' && "comma"@[2] == 'm' && "comma"@[3] == 'm' && "comma"@[4] == 'a',
        "d"@.len() == 1 && "d"@[0] == 'd',
        "del"@.len() == 3 && "del"@[0] == 'd' && "del"@[1] == 'e' && "del"@[2] == 'l',
        "delete"@.len() == 6 && "delete"@[0] == 'd' && "delete"@[1] == 'e' && "delete"@[2] == 'l' && "delete"@[3] == 'e' && "delete"@[4] == 't' && "delete"@[5] == 'e',
        "down"@.len() == 4 && "down"@[0] == 'd' && "down"@[1] == 'o' && "down"@[2] == 'w' && "down"@[3] == 'n',
        "e"@.len() == 1 && "e"@[0] == 'e',
        "end"@.len() == 3 && "end"@[0] == 'e' && "end"@[1] == 'n' && "end"@[2] == 'd',
        "enter"@.len() == 5 && "enter"@[0] == 'e' && "enter"@[1] == 'n' && "enter"@[2] == 't' && "enter"@[3] == 'e' && "enter"@[4] == 'r',
        "esc"@.len() == 3 && "esc"@[0] == 'e' && "esc"@[1] == 's' && "esc"@[2] == 'c',
        "escape"@.len() == 6 && "escape"@[0] == 'e' && "escape"@[1] == 's' && "escape"@[2] == 'c' && "escape"@[3] == 'a' && "escape"@[4] == 'p' && "escape"@[5] == 'e',
        "f"@.len() == 1 && "f"@[0] == 'f',
        "f1"@.len() == 2 && "f1"@[0] == 'f' && "f1"@[1] == '1',
        "f10"@.len() == 3 && "f10"@[0] == 'f' && "f10"@[1] == '1' && "f10"@[2] == '0',
        "f11"@.len() == 3 && "f11"@[0] == 'f' && "f11"@[1] == '1' && "f11"@[2] == '1',
        "f12"@.len() == 3 && "f12"@[0] == 'f' && "f12"@[1] == '1' && "f12"@[2] == '2',
        "f2"@.len() == 2 && "f2"@[0] == 'f' && "f2"@[1] == '2',
        "f3"@.len() == 2 && "f3"@[0] == 'f' && "f3"@[1] == '3',
        "f4"@.len() == 2 && "f4"@[0] == 'f' && "f4"@[1] == '4',
        "f5"@.len() == 2 && "f5"@[0] == 'f' && "f5"@[1] == '5',
        "f6"@.len() == 2 && "f6"@[0] == 'f' && "f6"@[1] == '6',
        "f7"@.len() == 2 && "f7"@[0] == 'f' && "f7"@[1] == '7',
        "f8"@.len() == 2 && "f8"@[0] == 'f' && "f8"@[1] == '8',
        "f9"@.len() == 2 && "f9"@[0] == 'f' && "f9"@[1] == '9',
        "g"@.len() == 1 && "g"@[0] == 'g',
        "h"@.len() == 1 && "h"@[0] == 'h',
        "home"@.len() == 4 && "home"@[0] == 'h' && "home"@[1] == 'o' && "home"@[2] == 'm' && "home"@[3] == 'e',
        "i"@.len() == 1 && "i"@[0] == 'i',
        "j"@.len() == 1 && "j"@[0] == 'j',
        "k"@.len() == 1 && "k"@[0] == 'k',
        "l"@.len() == 1 && "l"@[0] == 'l',
        "left"@.len() == 4 && "left"@[0] == 'l' && "left"@[1] == 'e' && "left"@[2] == 'f' && "left"@[3] == 't',
        "m"@.len() == 1 && "m"@[0] == 'm',
        "minus"@.len() == 5 && "minus"@[0] == 'm' && "minus"@[1] == 'i' && "minus"@[2] == 'n' && "minus"@[3] == 'u' && "minus"@[4] == 's',
        "n"@.len() == 1 && "n"@[0] == 'n',
        "num0"@.len() == 4 && "num0"@[0] == 'n' && "num0"@[1] == 'u' && "num0"@[2] == 'm' && "num0"@[3] == '0',
        "num1"@.len() == 4 && "num1"@[0] == 'n' && "num1"@[1] == 'u' && "num1"@[2] == 'm' && "num1"@[3] == '1',
        "num2"@.len() == 4 && "num2"@[0] == 'n' && "num2"@[1] == 'u' && "num2"@[2] == 'm' && "num2"@[3] == '2',
        "num3"@.len() == 4 && "num3"@[0] == 'n' && "num3"@[1] == 'u' && "num3"@[2] == 'm' && "num3"@[3] == '3',
        "num4"@.len() == 4 && "num4"@[0] == 'n' && "num4"@[1] == 'u' && "num4"@[2] == 'm' && "num4"@[3] == '4',
        "num5"@.len() == 4 && "num5"@[0] == 'n' && "num5"@[1] == 'u' && "num5"@[2] == 'm' && "num5"@[3] == '5',
        "num6"@.len() == 4 && "num6"@[0] == 'n' && "num6"@[1] == 'u' && "num6"@[2] == 'm' && "num6"@[3] == '6',
        "num7"@.len() == 4 && "num7"@[0] == 'n' && "num7"@[1] == 'u' && "num7"@[2] == 'm' && "num7"@[3] == '7',
        "num8"@.len() == 4 && "num8"@[0] == 'n' && "num8"@[1] == 'u' && "num8"@[2] == 'm' && "num8"@[3] == '8',
        "num9"@.len() == 4 && "num9"@[0] == 'n' && "num9"@[1] == 'u' && "num9"@[2] == 'm' && "num9"@[3] == '9',
        "o"@.len() == 1 && "o"@[0] == 'o',
        "p"@.len() == 1 && "p"@[0] == 'p',
        "pagedown"@.len() == 8 && "pagedown"@[0] == 'p' && "pagedown"@[1] == 'a' && "pagedown"@[2] == 'g' && "pagedown"@[3] == 'e' && "pagedown"@[4] == 'd' && "pagedown"@[5] == 'o' && "pagedown"@[6] == 'w' && "pagedown"@[7] == 'n',
        "pageup"@.len() == 6 && "pageup"@[0] == 'p' && "pageup"@[1] == 'a' && "pageup"@[2] == 'g' && "pageup"@[3] == 'e' && "pageup"@[4] == 'u' && "pageup"@[5] == 'p',
        "period"@.len() == 6 && "period"@[0] == 'p' && "period"@[1] == 'e' && "period"@[2] == 'r' && "period"@[3] == 'i' && "period"@[4] == 'o' && "period"@[5] == 'd',
        "plus"@.len() == 4 && "plus"@[0] == 'p' && "plus"@[1] == 'l' && "plus"@[2] == 'u' && "plus"@[3] == 's',
        "q"@.len() == 1 && "q"@[0] == 'q',
        "r"@.len() == 1 && "r"@[0] == 'r',
        "return"@.len() == 6 && "return"@[0] == 'r' && "return"@[1] == 'e' && "return"@[2] == 't' && "return"@[3] == 'u' && "return"@[4] == 'r' && "return"@[5] == 'n',
        "right"@.len() == 5 && "right"@[0] == 'r' && "right"@[1] == 'i' && "right"@[2] == 'g' && "right"@[3] == 'h' && "right"@[4] == 't',
        "s"@.len() == 1 && "s"@[0] == 's',
        "space"@.len() == 5 && "space"@[0] == 's' && "space"@[1] == 'p' && "space"@[2] == 'a' && "space"@[3] == 'c' && "space"@[4] == 'e',
        "t"@.len() == 1 && "t"@[0] == 't',
        "tab"@.len() == 3 && "tab"@[0] == 't' && "tab"@[1] == 'a' && "tab"@[2] == 'b',
        "u"@.len() == 1 && "u"@[0] == 'u',
        "up"@.len() == 2 && "up"@[0] == 'u' && "up"@[1] == 'p',
        "v"@.len() == 1 && "v"@[0] == 'v',
        "w"@.len() == 1 && "w"@[0] == 'w',
        "x"@.len() == 1 && "x"@[0] == 'x',
        "y"@.len() == 1 && "y"@[0] == 'y',
        "z"@.len() == 1 && "z"@[0] == 'z',
{
    reveal_strlit("+");
    reveal_strlit(",");
    reveal_strlit("-");
    reveal_strlit(".");
    reveal_strlit("0");
    reveal_strlit("1");
    reveal_strlit("2");
    reveal_strlit("3");
    reveal_strlit("4");
    reveal_strlit("5");
    reveal_strlit("6");
    reveal_strlit("7");
    reveal_strlit("8");
    reveal_strlit("9");
    reveal_strlit("=");
    reveal_strlit("a");
    reveal_strlit("arrowdown");
    reveal_strlit("arrowleft");
    reveal_strlit("arrowright");
    reveal_strlit("arrowup");
    reveal_strlit("b");
    reveal_strlit("backspace");
    reveal_strlit("c");
    reveal_strlit("comma");
    reveal_strlit("d");
    reveal_strlit("del");
    reveal_strlit("delete");
    reveal_strlit("down");
    reveal_strlit("e");
    reveal_strlit("end");
    reveal_strlit("enter");
    reveal_strlit("esc");
    reveal_strlit("escape");
    reveal_strlit("f");
    reveal_strlit("f1");
    reveal_strlit("f10");
    reveal_strlit("f11");
    reveal_strlit("f12");
    reveal_strlit("f2");
    reveal_strlit("f3");
    reveal_strlit("f4");
    reveal_strlit("f5");
    reveal_strlit("f6");
    reveal_strlit("f7");
    reveal_strlit("f8");
    reveal_strlit("f9");
    reveal_strlit("g");
    reveal_strlit("h");
    reveal_strlit("home");
    reveal_strlit("i");
    reveal_strlit("j");
    reveal_strlit("k");
    reveal_strlit("l");
    reveal_strlit("left");
    reveal_strlit("m");
    reveal_strlit("minus");
    reveal_strlit("n");
    reveal_strlit("num0");
    reveal_strlit("num1");
    reveal_strlit("num2");
    reveal_strlit("num3");
    reveal_strlit("num4");
    reveal_strlit("num5");
    reveal_strlit("num6");
    reveal_strlit("num7");
    reveal_strlit("num8");
    reveal_strlit("num9");
    reveal_strlit("o");
    reveal_strlit("p");
    reveal_strlit("pagedown");
    reveal_strlit("pageup");
    reveal_strlit("period");
    reveal_strlit("plus");
    reveal_strlit("q");
    reveal_strlit("r");
    reveal_strlit("return");
    reveal_strlit("right");
    reveal_strlit("s");
    reveal_strlit("space");
    reveal_strlit("t");
    reveal_strlit("tab");
    reveal_strlit("u");
    reveal_strlit("up");
    reveal_strlit("v");
    reveal_strlit("w");
    reveal_strlit("x");
    reveal_strlit("y");
    reveal_strlit("z");
}

/// Every key is named by its own name: reading `key_name(k)` gives back `k`.
pub proof fn lemma_each_key_named_by_its_name(k: Key)
    ensures
        key_named(key_name(k)) == Some(k),
{
    lemma_key_name_chars();
    match k {
        Key::A => {},
        Key::B => {},
        Key::C => {},
        Key::D => {},
        Key::E => {},
        Key::F => {},
        Key::G => {},
        Key::H => {},
        Key::I => {},
        Key::J => {},
        Key::K => {},
        Key::L => {},
        Key::M => {},
        Key::N => {},
        Key::O => {},
        Key::P => {},
        Key::Q => {},
        Key::R => {},
        Key::S => {},
        Key::T => {},
        Key::U => {},
        Key::V => {},
        Key::W => {},
        Key::X => {},
        Key::Y => {},
        Key::Z => {},
        Key::Num0 => {},
        Key::Num1 => {},
        Key::Num2 => {},
        Key::Num3 => {},
        Key::Num4 => {},
        Key::Num5 => {},
        Key::Num6 => {},
        Key::Num7 => {},
        Key::Num8 => {},
        Key::Num9 => {},
        Key::Comma => {},
        Key::Period => {},
        Key::Equals => {},
        Key::Minus => {},
        Key::Enter => {},
        Key::Escape => {},
        Key::Space => {},
        Key::Tab => {},
        Key::Backspace => {},
        Key::Delete => {},
        Key::ArrowUp => {},
        Key::ArrowDown => {},
        Key::ArrowLeft => {},
        Key::ArrowRight => {},
        Key::Home => {},
        Key::End => {},
        Key::PageUp => {},
        Key::PageDown => {},
        Key::F1 => {},
        Key::F2 => {},
        Key::F3 => {},
        Key::F4 => {},
        Key::F5 => {},
        Key::F6 => {},
        Key::F7 => {},
        Key::F8 => {},
        Key::F9 => {},
        Key::F10 => {},
        Key::F11 => {},
        Key::F12 => {},
    }
}

/// Each small letter names the key of that same letter, and a letter key is named by its
/// letter alone.
pub proof fn lemma_letters_name_their_keys(c: char, name: Seq<char>)
    ensures
        'a' <= c <= 'z' ==> (key_named(seq![c]) matches Some(k) && key_letter(k) == Some(c)),
        letter_key_named(name) matches Some(k) ==> (key_letter(k) matches Some(l) && name == seq![l]),
{
    lemma_key_name_chars();
    if c == 'a' {
        assert(seq![c] =~= "a"@);
    }
    if c == 'b' {
        assert(seq![c] =~= "b"@);
    }
    if c == 'c' {
        assert(seq![c] =~= "c"@);
    }
    if c == 'd' {
        assert(seq![c] =~= "d"@);
    }
    if c == 'e' {
        assert(seq![c] =~= "e"@);
    }
    if c == 'f' {
        assert(seq![c] =~= "f"@);
    }
    if c == 'g' {
        assert(seq![c] =~= "g"@);
    }
    if c == 'h' {
        assert(seq![c] =~= "h"@);
    }
    if c == 'i' {
        assert(seq![c] =~= "i"@);
    }
    if c == 'j' {
        assert(seq![c] =~= "j"@);
    }
    if c == 'k' {
        assert(seq![c] =~= "k"@);
    }
    if c == 'l' {
        assert(seq![c] =~= "l"@);
    }
    if c == 'm' {
        assert(seq![c] =~= "m"@);
    }
    if c == 'n' {
        assert(seq![c] =~= "n"@);
    }
    if c == 'o' {
        assert(seq![c] =~= "o"@);
    }
    if c == 'p' {
        assert(seq![c] =~= "p"@);
    }
    if c == 'q' {
        assert(seq![c] =~= "q"@);
    }
    if c == 'r' {
        assert(seq![c] =~= "r"@);
    }
    if c == 's' {
        assert(seq![c] =~= "s"@);
    }
    if c == 't' {
        assert(seq![c] =~= "t"@);
    }
    if c == 'u' {
        assert(seq![c] =~= "u"@);
    }
    if c == 'v' {
        assert(seq![c] =~= "v"@);
    }
    if c == 'w' {
        assert(seq![c] =~= "w"@);
    }
    if c == 'x' {
        assert(seq![c] =~= "x"@);
    }
    if c == 'y' {
        assert(seq![c] =~= "y"@);
    }
    if c == 'z' {
        assert(seq![c] =~= "z"@);
    }
}

/// The other names keys can be written with, each beside the key's own name.
pub open spec fn key_aliases() -> Seq<(Seq<char>, Seq<char>)> {
    seq![
        ("num0"@, "0"@),
        ("num1"@, "1"@),
        ("num2"@, "2"@),
        ("num3"@, "3"@),
        ("num4"@, "4"@),
        ("num5"@, "5"@),
        ("num6"@, "6"@),
        ("num7"@, "7"@),
        ("num8"@, "8"@),
        ("num9"@, "9"@),
        (","@, "comma"@),
        ("."@, "period"@),
        ("plus"@, "="@),
        ("+"@, "="@),
        ("-"@, "minus"@),
        ("return"@, "enter"@),
        ("esc"@, "escape"@),
        ("del"@, "delete"@),
        ("up"@, "arrowup"@),
        ("down"@, "arrowdown"@),
        ("left"@, "arrowleft"@),
        ("right"@, "arrowright"@),
    ]
}

/// An alias names the same key as the name it stands beside, and a name that reads as a
/// key is that key's own name or one of its aliases.
pub proof fn lemma_key_aliases(i: int, name: Seq<char>)
    ensures
        0 <= i < key_aliases().len() ==> key_named(key_aliases()[i].0) == key_named(
            key_aliases()[i].1,
        ),
        key_named(name) matches Some(k) ==> (name == key_name(k) || key_aliases().contains(
            (name, key_name(k)),
        )),
{
    lemma_key_name_chars();
    assert(key_aliases()[0] == ("num0"@, "0"@));
    assert(key_aliases()[1] == ("num1"@, "1"@));
    assert(key_aliases()[2] == ("num2"@, "2"@));
    assert(key_aliases()[3] == ("num3"@, "3"@));
    assert(key_aliases()[4] == ("num4"@, "4"@));
    assert(key_aliases()[5] == ("num5"@, "5"@));
    assert(key_aliases()[6] == ("num6"@, "6"@));
    assert(key_aliases()[7] == ("num7"@, "7"@));
    assert(key_aliases()[8] == ("num8"@, "8"@));
    assert(key_aliases()[9] == ("num9"@, "9"@));
    assert(key_aliases()[10] == (","@, "comma"@));
    assert(key_aliases()[11] == ("."@, "period"@));
    assert(key_aliases()[12] == ("plus"@, "="@));
    assert(key_aliases()[13] == ("+"@, "="@));
    assert(key_aliases()[14] == ("-"@, "minus"@));
    assert(key_aliases()[15] == ("return"@, "enter"@));
    assert(key_aliases()[16] == ("esc"@, "escape"@));
    assert(key_aliases()[17] == ("del"@, "delete"@));
    assert(key_aliases()[18] == ("up"@, "arrowup"@));
    assert(key_aliases()[19] == ("down"@, "arrowdown"@));
    assert(key_aliases()[20] == ("left"@, "arrowleft"@));
    assert(key_aliases()[21] == ("right"@, "arrowright"@));
}

fn key_of(name: &str) -> (r: Option<Key>)
    ensures
        r == key_named(name@),
{
    match letter_key_of(name) {
        Some(k) => Some(k),
        None => match digit_key_of(name) {
            Some(k) => Some(k),
            None => named_key_of(name),
        },
    }
}

/// The modifier keys held with a shortcut's key.
#[derive(Clone, Copy, Debug, PartialEq, Eq, Structural)]
pub struct Modifiers {
    pub alt: bool,
    pub ctrl: bool,
    pub shift: bool,
    pub mac_cmd: bool,
    /// Control, or Command on macOS.
    pub command: bool,
}

/// No modifier held.
pub open spec fn no_modifiers() -> Modifiers {
    Modifiers { alt: false, ctrl: false, shift: false, mac_cmd: false, command: false }
}

/// A key pressed with modifiers.
#[derive(Clone, Copy, Debug, PartialEq, Eq, Structural)]
pub struct KeyboardShortcut {
    pub modifiers: Modifiers,
    pub logical_key: Key,
}

/// A modifier that a shortcut can name.
#[derive(Clone, Copy, Debug, PartialEq, Eq, Structural)]
pub enum ModifierName {
    Command,
    Shift,
    Alt,
}

/// The modifier that `name` (trimmed and lowercased) names, if any.
pub open spec fn modifier_named(name: Seq<char>) -> Option<ModifierName> {
    if name == "ctrl"@ || name == "cmd"@ || name == "command"@ {
        Some(ModifierName::Command)
    } else if name == "shift"@ {
        Some(ModifierName::Shift)
    } else if name == "alt"@ || name == "option"@ {
        Some(ModifierName::Alt)
    } else {
        None
    }
}

fn modifier_of(name: &str) -> (r: Option<ModifierName>)
    ensures
        r == modifier_named(name@),
{
    if str_eq(name, "ctrl") || str_eq(name, "cmd") || str_eq(name, "command") {
        Some(ModifierName::Command)
    } else if str_eq(name, "shift") {
        Some(ModifierName::Shift)
    } else if str_eq(name, "alt") || str_eq(name, "option") {
        Some(ModifierName::Alt)
    } else {
        None
    }
}

/// The parts of `s` between the separators `sep`, as `str::split` gives them: one part
/// more than there are separators.
pub open spec fn split_on(s: Seq<char>, sep: char) -> Seq<Seq<char>>
    decreases s.len(),
{
    if s.len() == 0 {
        seq![seq![]]
    } else {
        let parts = split_on(s.drop_last(), sep);
        if s.last() == sep {
            parts.push(seq![])
        } else {
            parts.update(parts.len() - 1, parts.last().push(s.last()))
        }
    }
}

/// Splitting always gives at least one part.
pub proof fn lemma_split_nonempty(s: Seq<char>, sep: char)
    ensures
        split_on(s, sep).len() >= 1,
    decreases s.len(),
{
    if s.len() > 0 {
        lemma_split_nonempty(s.drop_last(), sep);
    }
}

/// The parts of `s` between the `sep` characters.
pub fn split_parts(s: &str, sep: char) -> (r: Vec<String>)
    ensures
        r@.map_values(|p: String| p@) == split_on(s@, sep),
{
    let chars = chars_of(s);
    let mut done: Vec<String> = Vec::new();
    let mut current: Vec<char> = Vec::new();
    let mut i: usize = 0;
    assert(chars@.take(0) =~= Seq::<char>::empty());
    while i < chars.len()
        invariant
            i <= chars.len(),
            chars@ == s@,
            done@.map_values(|p: String| p@).push(current@) == split_on(chars@.take(i as int), sep),
        decreases chars.len() - i,
    {
        let ghost prev = chars@.take(i as int);
        let c = chars[i];
        proof {
            let next = chars@.take(i + 1);
            assert(next.drop_last() =~= prev);
            assert(next.last() == c);
            lemma_split_nonempty(prev, sep);
        }
        if c == sep {
            let part = string_from(&current);
            done.push(part);
            current = Vec::new();
            proof {
                assert(done@.map_values(|p: String| p@).push(current@) =~= split_on(
                    chars@.take(i + 1),
                    sep,
                ));
            }
        } else {
            let ghost before = done@.map_values(|p: String| p@).push(current@);
            current.push(c);
            proof {
                assert(done@.map_values(|p: String| p@).push(current@) =~= before.update(
                    before.len() - 1,
                    before.last().push(c),
                ));
            }
        }
        i = i + 1;
    }
    let last = string_from(&current);
    done.push(last);
    proof {
        assert(chars@.take(chars.len() as int) =~= chars@);
        assert(done@.map_values(|p: String| p@) =~= split_on(s@, sep));
    }
    done
}

/// The modifiers and key after reading one more part of a shortcut, or `None` when the
/// part names neither a modifier nor a key.
pub open spec fn read_part(
    mods: Modifiers,
    key: Option<Key>,
    name: Seq<char>,
) -> Option<(Modifiers, Option<Key>)> {
    match modifier_named(name) {
        Some(ModifierName::Command) => Some((Modifiers { command: true, ..mods }, key)),
        Some(ModifierName::Shift) => Some((Modifiers { shift: true, ..mods }, key)),
        Some(ModifierName::Alt) => Some((Modifiers { alt: true, ..mods }, key)),
        None => match key_named(name) {
            Some(k) => Some((mods, Some(k))),
            None => None,
        },
    }
}

/// The modifiers and key that the parts of a shortcut name, each part compared trimmed and
/// lowercased; a later key replaces an earlier one. `None` when a part names neither.
pub open spec fn read_parts(parts: Seq<Seq<char>>) -> Option<(Modifiers, Option<Key>)>
    decreases parts.len(),
{
    if parts.len() == 0 {
        Some((no_modifiers(), None))
    } else {
        match read_parts(parts.drop_last()) {
            Some((mods, key)) => read_part(mods, key, unicode_lowercase(trim(parts.last()))),
            None => None,
        }
    }
}

/// Once a part names nothing, the whole shortcut names nothing.
proof fn lemma_read_parts_stuck(parts: Seq<Seq<char>>, i: int)
    requires
        0 <= i <= parts.len(),
        read_parts(parts.take(i)) is None,
    ensures
        read_parts(parts) is None,
    decreases parts.len() - i,
{
    if i == parts.len() {
        assert(parts.take(i) =~= parts);
    } else {
        assert(parts.take(i + 1).drop_last() =~= parts.take(i));
        lemma_read_parts_stuck(parts, i + 1);
    }
}

/// The shortcut that a text such as `Ctrl+Shift+S` names: its `+`-separated parts name
/// modifiers and a key. `None` when a part names neither or no key is named.
pub open spec fn shortcut_named(input: Seq<char>) -> Option<KeyboardShortcut> {
    match read_parts(split_on(input, '+')) {
        Some((mods, Some(k))) => Some(KeyboardShortcut { modifiers: mods, logical_key: k }),
        _ => None,
    }
}

/// Reads a shortcut written as keys joined by `+`, such as `Ctrl+S` or `Alt+ArrowLeft`.
pub fn parse_shortcut(input: &str) -> (r: Option<KeyboardShortcut>)
    ensures
        r == shortcut_named(input@),
{
    let parts = split_parts(input, '+');
    let ghost names = parts@.map_values(|p: String| p@);
    let mut mods = Modifiers { alt: false, ctrl: false, shift: false, mac_cmd: false, command: false };
    let mut key: Option<Key> = None;
    let mut i: usize = 0;
    while i < parts.len()
        invariant
            i <= parts.len(),
            names == parts@.map_values(|p: String| p@),
            names == split_on(input@, '+'),
            read_parts(names.take(i as int)) == Some((mods, key)),
        decreases parts.len() - i,
    {
        let trimmed = trim_str(parts[i].as_str());
        let name = to_lowercase(trimmed.as_str());
        proof {
            assert(names.take(i + 1).drop_last() =~= names.take(i as int));
            assert(names.take(i + 1).last() == parts@[i as int]@);
        }
        match modifier_of(name.as_str()) {
            Some(ModifierName::Command) => {
                mods.command = true;
            },
            Some(ModifierName::Shift) => {
                mods.shift = true;
            },
            Some(ModifierName::Alt) => {
                mods.alt = true;
            },
            None => match key_of(name.as_str()) {
                Some(k) => {
                    key = Some(k);
                },
                None => {
                    proof {
                        lemma_read_parts_stuck(names, i + 1);
                    }
                    return None;
                },
            },
        }
        i = i + 1;
    }
    proof {
        assert(names.take(parts.len() as int) =~= names);
    }
    match key {
        Some(k) => Some(KeyboardShortcut { modifiers: mods, logical_key: k }),
        None => None,
    }
}

/// What a shortcut asks the studio to do.
#[derive(Clone, Copy, Debug, PartialEq, Eq, Structural)]
pub enum ShortcutAction {
    OpenSettings,
    SaveDeck,
    Undo,
    Redo,
    NextWorkspace,
    PreviousWorkspace,
    /// Go to this workspace, when the workspace bar offers it.
    ShowWorkspace(Workspace),
    ToggleFind,
    ToggleReplace,
    NextItem,
    PreviousItem,
    ExitFullscreen,
    ZoomIn,
    ZoomOut,
    ActualSize,
}

/// The shortcuts the studio listens to, in the order they are checked, each with its
/// action.
pub open spec fn binding_table(s: ShortcutsConfig) -> Seq<(Seq<char>, ShortcutAction)> {
    seq![
        (s.open_settings@, ShortcutAction::OpenSettings),
        (s.save_deck@, ShortcutAction::SaveDeck),
        ("Ctrl+Z"@, ShortcutAction::Undo),
        ("Ctrl+Y"@, ShortcutAction::Redo),
        (s.next_workspace@, ShortcutAction::NextWorkspace),
        (s.prev_workspace@, ShortcutAction::PreviousWorkspace),
        (s.workspace_deck@, ShortcutAction::ShowWorkspace(Workspace::Deck)),
        (s.workspace_browse@, ShortcutAction::ShowWorkspace(Workspace::Browse)),
        (s.workspace_visual_editor@, ShortcutAction::ShowWorkspace(Workspace::VisualEditor)),
        (s.workspace_media@, ShortcutAction::ShowWorkspace(Workspace::Media)),
        (s.workspace_schema_editor@, ShortcutAction::ShowWorkspace(Workspace::SchemaEditor)),
        (s.toggle_find@, ShortcutAction::ToggleFind),
        ("Ctrl+H"@, ShortcutAction::ToggleReplace),
        (s.next_list_item@, ShortcutAction::NextItem),
        (s.prev_list_item@, ShortcutAction::PreviousItem),
        (s.next_card@, ShortcutAction::NextItem),
        (s.prev_card@, ShortcutAction::PreviousItem),
        (s.view_card@, ShortcutAction::ShowWorkspace(Workspace::VisualEditor)),
        (s.back_to_list@, ShortcutAction::ShowWorkspace(Workspace::Browse)),
        (s.exit_fullscreen@, ShortcutAction::ExitFullscreen),
        (s.zoom_in@, ShortcutAction::ZoomIn),
        (s.zoom_out@, ShortcutAction::ZoomOut),
        (s.actual_size@, ShortcutAction::ActualSize),
    ]
}

fn bind(
    v: &mut Vec<(String, ShortcutAction)>,
    shortcut: &str,
    action: ShortcutAction,
)
    ensures
        final(v)@.len() == old(v)@.len() + 1,
        forall|i: int| 0 <= i < old(v)@.len() ==> final(v)@[i] == old(v)@[i],
        final(v)@.last().0@ == shortcut@,
        final(v)@.last().1 == action,
{
    v.push((String::from_str(shortcut), action));
}

/// The shortcuts the studio listens to, in the order they are checked, each with its action.
pub fn shortcut_bindings(s: &ShortcutsConfig) -> (r: Vec<(String, ShortcutAction)>)
    ensures
        r@.map_values(|b: (String, ShortcutAction)| (b.0@, b.1)) == binding_table(*s),
{
    let mut v: Vec<(String, ShortcutAction)> = Vec::new();
    bind(&mut v, s.open_settings.as_str(), ShortcutAction::OpenSettings);
    bind(&mut v, s.save_deck.as_str(), ShortcutAction::SaveDeck);
    bind(&mut v, "Ctrl+Z", ShortcutAction::Undo);
    bind(&mut v, "Ctrl+Y", ShortcutAction::Redo);
    bind(&mut v, s.next_workspace.as_str(), ShortcutAction::NextWorkspace);
    bind(&mut v, s.prev_workspace.as_str(), ShortcutAction::PreviousWorkspace);
    bind(&mut v, s.workspace_deck.as_str(), ShortcutAction::ShowWorkspace(Workspace::Deck));
    bind(&mut v, s.workspace_browse.as_str(), ShortcutAction::ShowWorkspace(Workspace::Browse));
    bind(
        &mut v,
        s.workspace_visual_editor.as_str(),
        ShortcutAction::ShowWorkspace(Workspace::VisualEditor),
    );
    bind(&mut v, s.workspace_media.as_str(), ShortcutAction::ShowWorkspace(Workspace::Media));
    bind(
        &mut v,
        s.workspace_schema_editor.as_str(),
        ShortcutAction::ShowWorkspace(Workspace::SchemaEditor),
    );
    bind(&mut v, s.toggle_find.as_str(), ShortcutAction::ToggleFind);
    bind(&mut v, "Ctrl+H", ShortcutAction::ToggleReplace);
    bind(&mut v, s.next_list_item.as_str(), ShortcutAction::NextItem);
    bind(&mut v, s.prev_list_item.as_str(), ShortcutAction::PreviousItem);
    bind(&mut v, s.next_card.as_str(), ShortcutAction::NextItem);
    bind(&mut v, s.prev_card.as_str(), ShortcutAction::PreviousItem);
    bind(&mut v, s.view_card.as_str(), ShortcutAction::ShowWorkspace(Workspace::VisualEditor));
    bind(&mut v, s.back_to_list.as_str(), ShortcutAction::ShowWorkspace(Workspace::Browse));
    bind(&mut v, s.exit_fullscreen.as_str(), ShortcutAction::ExitFullscreen);
    bind(&mut v, s.zoom_in.as_str(), ShortcutAction::ZoomIn);
    bind(&mut v, s.zoom_out.as_str(), ShortcutAction::ZoomOut);
    bind(&mut v, s.actual_size.as_str(), ShortcutAction::ActualSize);
    assert(v@.map_values(|b: (String, ShortcutAction)| (b.0@, b.1)) =~= binding_table(*s));
    v
}

/// Whether the workspace bar offers `target`.
pub fn is_visible_workspace(app: &MFlashStudioApp, config: &WorkspacesConfig, target: Workspace) -> (r:
    bool)
    ensures
        r == visible_list(*config).contains(target),
{
    let ws = app.visible_workspaces(config);
    let mut i: usize = 0;
    while i < ws.len()
        invariant
            i <= ws@.len(),
            forall|j: int| 0 <= j < i ==> ws@[j] != target,
        ensures
            i < ws@.len() ==> ws@[i as int] == target,
            i == ws@.len() ==> !ws@.contains(target),
        decreases ws@.len() - i,
    {
        if ws[i] == target {
            break;
        }
        i = i + 1;
    }
    i < ws.len()
}

/// What is left for the window to do once a pressed shortcut has been taken into the state.
#[derive(Clone, Copy, Debug, PartialEq, Eq, Structural)]
pub enum ShortcutEffect {
    /// Nothing.
    Done,
    /// The deck, the schema text and the selection came back from the history: the image of
    /// the selected card is loaded again.
    Restored,
    /// The selection moved to another card: its image is loaded and the plugins are told.
    SelectionMoved,
    /// Save the deck.
    Save,
    /// Move to this workspace, as `switch_workspace` does.
    SwitchTo(Workspace),
    ExitFullscreen,
    ZoomIn,
    ZoomOut,
    ActualSize,
}

/// The offered workspace `offset` places away from `current` in bar order, wrapping around.
pub open spec fn workspace_at_offset(workspaces: WorkspacesConfig, current: Workspace, offset: int) -> Workspace {
    let ws = visible_list(workspaces);
    ws[(position_or_first(ws, current) + offset) % (ws.len() as int)]
}

/// `new` and `effect` are what taking the pressed shortcut `action` into `old` gives.
pub open spec fn shortcut_post(
    old: MFlashStudioApp,
    new: MFlashStudioApp,
    workspaces: WorkspacesConfig,
    action: ShortcutAction,
    effect: ShortcutEffect,
) -> bool {
    match action {
        ShortcutAction::OpenSettings => {
            &&& new == (MFlashStudioApp { show_settings: true, ..old })
            &&& effect == ShortcutEffect::Done
        },
        ShortcutAction::SaveDeck => new == old && effect == ShortcutEffect::Save,
        ShortcutAction::Undo => {
            &&& MFlashStudioApp::undo_post(old, new, effect == ShortcutEffect::Restored)
            &&& (effect == ShortcutEffect::Restored || effect == ShortcutEffect::Done)
        },
        ShortcutAction::Redo => {
            &&& MFlashStudioApp::redo_post(old, new, effect == ShortcutEffect::Restored)
            &&& (effect == ShortcutEffect::Restored || effect == ShortcutEffect::Done)
        },
        ShortcutAction::NextWorkspace => {
            &&& new == old
            &&& effect == ShortcutEffect::SwitchTo(workspace_at_offset(workspaces, old.workspace, 1))
        },
        ShortcutAction::PreviousWorkspace => {
            &&& new == old
            &&& effect == ShortcutEffect::SwitchTo(workspace_at_offset(workspaces, old.workspace, -1))
        },
        ShortcutAction::ShowWorkspace(w) => {
            &&& new == old
            &&& effect == if visible_list(workspaces).contains(w) {
                ShortcutEffect::SwitchTo(w)
            } else {
                ShortcutEffect::Done
            }
        },
        ShortcutAction::ToggleFind => toggle_find_post(old, new) && effect == ShortcutEffect::Done,
        ShortcutAction::ToggleReplace => {
            &&& toggle_replace_post(old, new)
            &&& effect == ShortcutEffect::Done
        },
        ShortcutAction::NextItem => {
            &&& MFlashStudioApp::set_index_post(
                old,
                new,
                if old.selected_index < usize::MAX {
                    (old.selected_index + 1) as usize
                } else {
                    usize::MAX
                },
                effect == ShortcutEffect::SelectionMoved,
            )
            &&& (effect == ShortcutEffect::SelectionMoved || effect == ShortcutEffect::Done)
        },
        ShortcutAction::PreviousItem => {
            &&& MFlashStudioApp::set_index_post(
                old,
                new,
                if old.selected_index > 0 {
                    (old.selected_index - 1) as usize
                } else {
                    0
                },
                effect == ShortcutEffect::SelectionMoved,
            )
            &&& (effect == ShortcutEffect::SelectionMoved || effect == ShortcutEffect::Done)
        },
        ShortcutAction::ExitFullscreen => new == old && effect == ShortcutEffect::ExitFullscreen,
        ShortcutAction::ZoomIn => new == old && effect == ShortcutEffect::ZoomIn,
        ShortcutAction::ZoomOut => new == old && effect == ShortcutEffect::ZoomOut,
        ShortcutAction::ActualSize => new == old && effect == ShortcutEffect::ActualSize,
    }
}

/// The bar offers each workspace at most once.
proof fn lemma_visible_list_distinct(c: WorkspacesConfig)
    ensures
        visible_list(c).no_duplicates(),
{
}

/// In a sequence without duplicates, the position of an element is its index.
proof fn lemma_position_of_distinct(ws: Seq<Workspace>, q: int)
    requires
        ws.no_duplicates(),
        0 <= q < ws.len(),
    ensures
        position_or_first(ws, ws[q]) == q,
{
    let w = ws[q];
    assert(exists|i: int| 0 <= i < ws.len() && ws[i] == w);
    let p = position_or_first(ws, w);
    assert(ws[p] == w);
}

/// Moving `k` workspaces along the bar and then `k` back comes back to the workspace one
/// started from, when the bar offers it.
pub proof fn lemma_workspace_offset_round_trip(c: WorkspacesConfig, w: Workspace, k: int)
    requires
        visible_list(c).contains(w),
    ensures
        workspace_at_offset(c, workspace_at_offset(c, w, k), -k) == w,
{
    let ws = visible_list(c);
    let n = ws.len() as int;
    lemma_visible_list_len(c);
    lemma_visible_list_distinct(c);
    let p = position_or_first(ws, w);
    assert(0 <= p < n && ws[p] == w);
    let q = (p + k) % n;
    assert(0 <= q < n);
    lemma_position_of_distinct(ws, q);
    assert(workspace_at_offset(c, w, k) == ws[q]);
    vstd::arithmetic::div_mod::lemma_fundamental_div_mod(p + k, n);
    let t = (p + k) / n;
    assert(q - k == n * (-t) + p) by (nonlinear_arith)
        requires
            p + k == n * t + q,
    ;
    vstd::arithmetic::div_mod::lemma_mod_multiples_vanish(-t, p, n);
    vstd::arithmetic::div_mod::lemma_small_mod(p as nat, n as nat);
    assert((q + (-k)) % n == p);
}

impl MFlashStudioApp {
    /// Takes a pressed shortcut into the state and answers what is left for the window to do:
    /// saving, moving to another workspace (through `switch_workspace`), loading the image of
    /// the selected card, and the window's own commands (full screen, zoom).
    pub fn handle_shortcuts(&mut self, action: ShortcutAction, workspaces: &WorkspacesConfig) -> (effect:
        ShortcutEffect)
        ensures
            shortcut_post(*old(self), *final(self), *workspaces, action, effect),
    {
        match action {
            ShortcutAction::OpenSettings => {
                self.show_settings = true;
                ShortcutEffect::Done
            },
            ShortcutAction::SaveDeck => ShortcutEffect::Save,
            ShortcutAction::Undo => {
                if self.undo() {
                    ShortcutEffect::Restored
                } else {
                    ShortcutEffect::Done
                }
            },
            ShortcutAction::Redo => {
                if self.redo() {
                    ShortcutEffect::Restored
                } else {
                    ShortcutEffect::Done
                }
            },
            ShortcutAction::NextWorkspace => ShortcutEffect::SwitchTo(
                self.workspace_by_offset(workspaces, 1),
            ),
            ShortcutAction::PreviousWorkspace => ShortcutEffect::SwitchTo(
                self.workspace_by_offset(workspaces, -1),
            ),
            ShortcutAction::ShowWorkspace(w) => {
                if is_visible_workspace(self, workspaces, w) {
                    ShortcutEffect::SwitchTo(w)
                } else {
                    ShortcutEffect::Done
                }
            },
            ShortcutAction::ToggleFind => {
                toggle_find(self);
                ShortcutEffect::Done
            },
            ShortcutAction::ToggleReplace => {
                toggle_replace(self);
                ShortcutEffect::Done
            },
            ShortcutAction::NextItem => {
                if self.select_next() {
                    ShortcutEffect::SelectionMoved
                } else {
                    ShortcutEffect::Done
                }
            },
            ShortcutAction::PreviousItem => {
                if self.select_previous() {
                    ShortcutEffect::SelectionMoved
                } else {
                    ShortcutEffect::Done
                }
            },
            ShortcutAction::ExitFullscreen => ShortcutEffect::ExitFullscreen,
            ShortcutAction::ZoomIn => ShortcutEffect::ZoomIn,
            ShortcutAction::ZoomOut => ShortcutEffect::ZoomOut,
            ShortcutAction::ActualSize => ShortcutEffect::ActualSize,
        }
    }
}

} // verus!
