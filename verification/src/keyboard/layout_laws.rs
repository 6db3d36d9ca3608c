//! Where the keys of the host are in the matrix, and what shortcuts there are.
#[allow(unused_imports)]
use crate::keyboard::{action, position, HostKey};
use vstd::prelude::*;

verus! {

/// Nine rows of eight keys, from column 0 on. `Other` stands where the host has no key.
pub open spec fn matrix() -> Seq<HostKey> {
    seq![
        HostKey::Digit0, HostKey::Digit1, HostKey::Digit2, HostKey::Digit3,
        HostKey::Digit4, HostKey::Digit5, HostKey::Digit6, HostKey::Digit7,
        HostKey::Digit8, HostKey::Digit9, HostKey::Minus, HostKey::Equal,
        HostKey::Backslash, HostKey::BracketLeft, HostKey::BracketRight, HostKey::Semicolon,
        HostKey::Quote, HostKey::Backquote, HostKey::Comma, HostKey::Period,
        HostKey::Slash, HostKey::Other, HostKey::KeyA, HostKey::KeyB,
        HostKey::KeyC, HostKey::KeyD, HostKey::KeyE, HostKey::KeyF,
        HostKey::KeyG, HostKey::KeyH, HostKey::KeyI, HostKey::KeyJ,
        HostKey::KeyK, HostKey::KeyL, HostKey::KeyM, HostKey::KeyN,
        HostKey::KeyO, HostKey::KeyP, HostKey::KeyQ, HostKey::KeyR,
        HostKey::KeyS, HostKey::KeyT, HostKey::KeyU, HostKey::KeyV,
        HostKey::KeyW, HostKey::KeyX, HostKey::KeyY, HostKey::KeyZ,
        HostKey::ShiftLeft, HostKey::ControlLeft, HostKey::AltLeft, HostKey::CapsLock,
        HostKey::AltRight, HostKey::F1, HostKey::F2, HostKey::F3,
        HostKey::F4, HostKey::F5, HostKey::Escape, HostKey::Tab,
        HostKey::Pause, HostKey::Backspace, HostKey::Other, HostKey::Enter,
        HostKey::Space, HostKey::Home, HostKey::Insert, HostKey::Delete,
        HostKey::ArrowLeft, HostKey::ArrowUp, HostKey::ArrowDown, HostKey::ArrowRight,
    ]
}

/// Every key is where the matrix has it; the right Shift and Control are where the left ones
/// are, and F9 and the keys that the MSX lacks are nowhere.
pub proof fn law_keys_are_in_place(i: int)
    requires
        0 <= i < 72,
    ensures
        matrix().len() == 72,
        matrix()[i] != HostKey::Other ==> position(matrix()[i]) == Some(
            ((i / 8) as u8, (i % 8) as u8),
        ),
        position(HostKey::ShiftRight) == position(HostKey::ShiftLeft),
        position(HostKey::ControlRight) == position(HostKey::ControlLeft),
        position(HostKey::F9) is None,
        position(HostKey::Other) is None,
{
}

/// Shortcuts are for keys that go down. F9 turns the menu bar over, Escape hides it while it
/// is shown, Enter with Alt or Super is full screen, and S with Alt the next shader.
pub proof fn law_shortcuts(key: HostKey, pressed: bool, alt: bool, meta: bool, menu: bool)
    ensures
        ({
            let a = action(key, pressed, alt, meta, menu);
            &&& a is Menu <==> pressed && (key == HostKey::F9 || (key == HostKey::Escape && menu))
            &&& a is Menu ==> a->shown == !menu
            &&& a is Fullscreen <==> pressed && key == HostKey::Enter && (alt || meta)
            &&& a is Shader <==> pressed && key == HostKey::KeyS && alt
            &&& a is Ignored <==> position(key) is None && !(pressed && key == HostKey::F9)
            &&& a is Matrix ==> position(key) == Some((a->row, a->col)) && a->pressed == pressed
        }),
{
}

} // verus!
