//! The host's keyboard: which keys are keys of the MSX, and which are shortcuts.
pub mod layout_laws;

use vstd::prelude::*;

verus! {

/// A key of the host's keyboard, by its place on a QWERTY layout.
#[derive(Copy, Clone, Debug, PartialEq, Eq, Structural)]
pub enum HostKey {
    Digit0,
    Digit1,
    Digit2,
    Digit3,
    Digit4,
    Digit5,
    Digit6,
    Digit7,
    Digit8,
    Digit9,
    Minus,
    Equal,
    Backslash,
    BracketLeft,
    BracketRight,
    Semicolon,
    Quote,
    Backquote,
    Comma,
    Period,
    Slash,
    KeyA,
    KeyB,
    KeyC,
    KeyD,
    KeyE,
    KeyF,
    KeyG,
    KeyH,
    KeyI,
    KeyJ,
    KeyK,
    KeyL,
    KeyM,
    KeyN,
    KeyO,
    KeyP,
    KeyQ,
    KeyR,
    KeyS,
    KeyT,
    KeyU,
    KeyV,
    KeyW,
    KeyX,
    KeyY,
    KeyZ,
    ShiftLeft,
    ShiftRight,
    ControlLeft,
    ControlRight,
    AltLeft,
    CapsLock,
    AltRight,
    F1,
    F2,
    F3,
    F4,
    F5,
    F9,
    Escape,
    Tab,
    Pause,
    Backspace,
    Enter,
    Space,
    Home,
    Insert,
    Delete,
    ArrowLeft,
    ArrowUp,
    ArrowDown,
    ArrowRight,
    /// Any other key.
    Other,
}

/// Row and column of a key in the keyboard matrix. GRAPH is the left Alt, CODE
/// the right one, STOP is Pause. The dead key, SELECT and the number pad have no
/// key on the host.
pub open spec fn position(key: HostKey) -> Option<(u8, u8)> {
    match key {
        HostKey::Digit0 => Some((0, 0)),
        HostKey::Digit1 => Some((0, 1)),
        HostKey::Digit2 => Some((0, 2)),
        HostKey::Digit3 => Some((0, 3)),
        HostKey::Digit4 => Some((0, 4)),
        HostKey::Digit5 => Some((0, 5)),
        HostKey::Digit6 => Some((0, 6)),
        HostKey::Digit7 => Some((0, 7)),
        HostKey::Digit8 => Some((1, 0)),
        HostKey::Digit9 => Some((1, 1)),
        HostKey::Minus => Some((1, 2)),
        HostKey::Equal => Some((1, 3)),
        HostKey::Backslash => Some((1, 4)),
        HostKey::BracketLeft => Some((1, 5)),
        HostKey::BracketRight => Some((1, 6)),
        HostKey::Semicolon => Some((1, 7)),
        HostKey::Quote => Some((2, 0)),
        HostKey::Backquote => Some((2, 1)),
        HostKey::Comma => Some((2, 2)),
        HostKey::Period => Some((2, 3)),
        HostKey::Slash => Some((2, 4)),
        HostKey::KeyA => Some((2, 6)),
        HostKey::KeyB => Some((2, 7)),
        HostKey::KeyC => Some((3, 0)),
        HostKey::KeyD => Some((3, 1)),
        HostKey::KeyE => Some((3, 2)),
        HostKey::KeyF => Some((3, 3)),
        HostKey::KeyG => Some((3, 4)),
        HostKey::KeyH => Some((3, 5)),
        HostKey::KeyI => Some((3, 6)),
        HostKey::KeyJ => Some((3, 7)),
        HostKey::KeyK => Some((4, 0)),
        HostKey::KeyL => Some((4, 1)),
        HostKey::KeyM => Some((4, 2)),
        HostKey::KeyN => Some((4, 3)),
        HostKey::KeyO => Some((4, 4)),
        HostKey::KeyP => Some((4, 5)),
        HostKey::KeyQ => Some((4, 6)),
        HostKey::KeyR => Some((4, 7)),
        HostKey::KeyS => Some((5, 0)),
        HostKey::KeyT => Some((5, 1)),
        HostKey::KeyU => Some((5, 2)),
        HostKey::KeyV => Some((5, 3)),
        HostKey::KeyW => Some((5, 4)),
        HostKey::KeyX => Some((5, 5)),
        HostKey::KeyY => Some((5, 6)),
        HostKey::KeyZ => Some((5, 7)),
        HostKey::ShiftLeft | HostKey::ShiftRight => Some((6, 0)),
        HostKey::ControlLeft | HostKey::ControlRight => Some((6, 1)),
        HostKey::AltLeft => Some((6, 2)),
        HostKey::CapsLock => Some((6, 3)),
        HostKey::AltRight => Some((6, 4)),
        HostKey::F1 => Some((6, 5)),
        HostKey::F2 => Some((6, 6)),
        HostKey::F3 => Some((6, 7)),
        HostKey::F4 => Some((7, 0)),
        HostKey::F5 => Some((7, 1)),
        HostKey::Escape => Some((7, 2)),
        HostKey::Tab => Some((7, 3)),
        HostKey::Pause => Some((7, 4)),
        HostKey::Backspace => Some((7, 5)),
        HostKey::Enter => Some((7, 7)),
        HostKey::Space => Some((8, 0)),
        HostKey::Home => Some((8, 1)),
        HostKey::Insert => Some((8, 2)),
        HostKey::Delete => Some((8, 3)),
        HostKey::ArrowLeft => Some((8, 4)),
        HostKey::ArrowUp => Some((8, 5)),
        HostKey::ArrowDown => Some((8, 6)),
        HostKey::ArrowRight => Some((8, 7)),
        HostKey::F9 | HostKey::Other => None,
    }
}

/// Row and column of a key in the keyboard matrix.
pub fn map_key(code: HostKey) -> (r: Option<(u8, u8)>)
    ensures
        r == position(code),
{
    match code {
        HostKey::Digit0 => Some((0, 0)),
        HostKey::Digit1 => Some((0, 1)),
        HostKey::Digit2 => Some((0, 2)),
        HostKey::Digit3 => Some((0, 3)),
        HostKey::Digit4 => Some((0, 4)),
        HostKey::Digit5 => Some((0, 5)),
        HostKey::Digit6 => Some((0, 6)),
        HostKey::Digit7 => Some((0, 7)),
        HostKey::Digit8 => Some((1, 0)),
        HostKey::Digit9 => Some((1, 1)),
        HostKey::Minus => Some((1, 2)),
        HostKey::Equal => Some((1, 3)),
        HostKey::Backslash => Some((1, 4)),
        HostKey::BracketLeft => Some((1, 5)),
        HostKey::BracketRight => Some((1, 6)),
        HostKey::Semicolon => Some((1, 7)),
        HostKey::Quote => Some((2, 0)),
        HostKey::Backquote => Some((2, 1)),
        HostKey::Comma => Some((2, 2)),
        HostKey::Period => Some((2, 3)),
        HostKey::Slash => Some((2, 4)),
        HostKey::KeyA => Some((2, 6)),
        HostKey::KeyB => Some((2, 7)),
        HostKey::KeyC => Some((3, 0)),
        HostKey::KeyD => Some((3, 1)),
        HostKey::KeyE => Some((3, 2)),
        HostKey::KeyF => Some((3, 3)),
        HostKey::KeyG => Some((3, 4)),
        HostKey::KeyH => Some((3, 5)),
        HostKey::KeyI => Some((3, 6)),
        HostKey::KeyJ => Some((3, 7)),
        HostKey::KeyK => Some((4, 0)),
        HostKey::KeyL => Some((4, 1)),
        HostKey::KeyM => Some((4, 2)),
        HostKey::KeyN => Some((4, 3)),
        HostKey::KeyO => Some((4, 4)),
        HostKey::KeyP => Some((4, 5)),
        HostKey::KeyQ => Some((4, 6)),
        HostKey::KeyR => Some((4, 7)),
        HostKey::KeyS => Some((5, 0)),
        HostKey::KeyT => Some((5, 1)),
        HostKey::KeyU => Some((5, 2)),
        HostKey::KeyV => Some((5, 3)),
        HostKey::KeyW => Some((5, 4)),
        HostKey::KeyX => Some((5, 5)),
        HostKey::KeyY => Some((5, 6)),
        HostKey::KeyZ => Some((5, 7)),
        HostKey::ShiftLeft | HostKey::ShiftRight => Some((6, 0)),
        HostKey::ControlLeft | HostKey::ControlRight => Some((6, 1)),
        HostKey::AltLeft => Some((6, 2)),
        HostKey::CapsLock => Some((6, 3)),
        HostKey::AltRight => Some((6, 4)),
        HostKey::F1 => Some((6, 5)),
        HostKey::F2 => Some((6, 6)),
        HostKey::F3 => Some((6, 7)),
        HostKey::F4 => Some((7, 0)),
        HostKey::F5 => Some((7, 1)),
        HostKey::Escape => Some((7, 2)),
        HostKey::Tab => Some((7, 3)),
        HostKey::Pause => Some((7, 4)),
        HostKey::Backspace => Some((7, 5)),
        HostKey::Enter => Some((7, 7)),
        HostKey::Space => Some((8, 0)),
        HostKey::Home => Some((8, 1)),
        HostKey::Insert => Some((8, 2)),
        HostKey::Delete => Some((8, 3)),
        HostKey::ArrowLeft => Some((8, 4)),
        HostKey::ArrowUp => Some((8, 5)),
        HostKey::ArrowDown => Some((8, 6)),
        HostKey::ArrowRight => Some((8, 7)),
        HostKey::F9 | HostKey::Other => None,
    }
}

/// What a key does.
#[derive(Copy, Clone, Debug, PartialEq, Eq, Structural)]
pub enum KeyAction {
    /// Enter or leave full screen.
    Fullscreen,
    /// Go to the next shader.
    Shader,
    /// Show or hide the menu bar.
    Menu { shown: bool },
    /// A key of the MSX goes down or up.
    Matrix { row: u8, col: u8, pressed: bool },
    Ignored,
}

/// What a key does, with Alt and Super held or not and the menu bar shown or not.
pub open spec fn action(
    key: HostKey,
    pressed: bool,
    alt: bool,
    meta: bool,
    menu: bool,
) -> KeyAction {
    if pressed && key == HostKey::F9 {
        KeyAction::Menu { shown: !menu }
    } else if pressed && menu && key == HostKey::Escape {
        KeyAction::Menu { shown: false }
    } else if pressed && (alt || meta) && key == HostKey::Enter {
        KeyAction::Fullscreen
    } else if pressed && alt && key == HostKey::KeyS {
        KeyAction::Shader
    } else {
        match position(key) {
            Some((row, col)) => KeyAction::Matrix { row, col, pressed },
            None => KeyAction::Ignored,
        }
    }
}

/// What a key does: F9 shows and hides the menu bar, and Escape hides it; Alt or
/// Super with Enter is full screen, Alt with S the next shader, any other key one
/// of the MSX.
pub fn key_action(
    code: HostKey,
    pressed: bool,
    alt: bool,
    meta: bool,
    menu: bool,
) -> (r: KeyAction)
    ensures
        r == action(code, pressed, alt, meta, menu),
{
    if code == HostKey::F9 && pressed {
        KeyAction::Menu { shown: !menu }
    } else if code == HostKey::Escape && pressed && menu {
        KeyAction::Menu { shown: false }
    } else if (alt || meta) && code == HostKey::Enter && pressed {
        KeyAction::Fullscreen
    } else if alt && code == HostKey::KeyS && pressed {
        KeyAction::Shader
    } else {
        match map_key(code) {
            Some((row, col)) => KeyAction::Matrix { row, col, pressed },
            None => KeyAction::Ignored,
        }
    }
}

/// Every position is in the matrix.
pub proof fn law_positions_in_matrix(key: HostKey)
    ensures
        position(key) matches Some((row, col)) ==> row < 9 && col < 8,
{
}

/// The same side of a pair of modifier keys.
pub open spec fn one_of_pair(key: HostKey) -> HostKey {
    match key {
        HostKey::ShiftRight => HostKey::ShiftLeft,
        HostKey::ControlRight => HostKey::ControlLeft,
        _ => key,
    }
}

/// Two keys share a position only where they are the left and the right Shift or
/// Control.
pub proof fn law_positions_distinct(a: HostKey, b: HostKey)
    requires
        position(a) is Some,
        position(a) == position(b),
    ensures
        one_of_pair(a) == one_of_pair(b),
{
}

/// A key that comes up is never a shortcut, so that no key of the MSX stays down.
pub proof fn law_release_reaches_matrix(key: HostKey, alt: bool, meta: bool, menu: bool)
    requires
        position(key) is Some,
    ensures
        action(key, false, alt, meta, menu) is Matrix,
        !(action(key, false, alt, meta, menu)->pressed),
{
}

} // verus!
