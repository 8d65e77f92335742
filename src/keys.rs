//! Bytes sent to the child process for keys that are not plain text.

use vstd::prelude::*;

verus! {

/// A key with a fixed encoding.
#[derive(Clone, Copy, Debug, PartialEq, Eq, Structural)]
pub enum SpecialKey {
    Enter,
    Backspace,
    Tab,
    Escape,
    ArrowUp,
    ArrowDown,
    ArrowRight,
    ArrowLeft,
    Home,
    End,
    PageUp,
    PageDown,
    Delete,
}

/// What the terminal sends for `k`: a control byte, or a control sequence
/// for the cursor and editing keys.
pub open spec fn key_seq(k: SpecialKey) -> Seq<u8> {
    match k {
        SpecialKey::Enter => seq![0x0du8],
        SpecialKey::Backspace => seq![0x7fu8],
        SpecialKey::Tab => seq![0x09u8],
        SpecialKey::Escape => seq![0x1bu8],
        SpecialKey::ArrowUp => seq![0x1bu8, 0x5bu8, 0x41u8],
        SpecialKey::ArrowDown => seq![0x1bu8, 0x5bu8, 0x42u8],
        SpecialKey::ArrowRight => seq![0x1bu8, 0x5bu8, 0x43u8],
        SpecialKey::ArrowLeft => seq![0x1bu8, 0x5bu8, 0x44u8],
        SpecialKey::Home => seq![0x1bu8, 0x5bu8, 0x48u8],
        SpecialKey::End => seq![0x1bu8, 0x5bu8, 0x46u8],
        SpecialKey::PageUp => seq![0x1bu8, 0x5bu8, 0x35u8, 0x7eu8],
        SpecialKey::PageDown => seq![0x1bu8, 0x5bu8, 0x36u8, 0x7eu8],
        SpecialKey::Delete => seq![0x1bu8, 0x5bu8, 0x33u8, 0x7eu8],
    }
}

/// The bytes to send for `k`.
pub fn key_bytes(k: SpecialKey) -> (r: Vec<u8>)
    ensures
        r@ == key_seq(k),
{
    let r = match k {
        SpecialKey::Enter => vec![0x0du8],
        SpecialKey::Backspace => vec![0x7fu8],
        SpecialKey::Tab => vec![0x09u8],
        SpecialKey::Escape => vec![0x1bu8],
        SpecialKey::ArrowUp => vec![0x1bu8, 0x5bu8, 0x41u8],
        SpecialKey::ArrowDown => vec![0x1bu8, 0x5bu8, 0x42u8],
        SpecialKey::ArrowRight => vec![0x1bu8, 0x5bu8, 0x43u8],
        SpecialKey::ArrowLeft => vec![0x1bu8, 0x5bu8, 0x44u8],
        SpecialKey::Home => vec![0x1bu8, 0x5bu8, 0x48u8],
        SpecialKey::End => vec![0x1bu8, 0x5bu8, 0x46u8],
        SpecialKey::PageUp => vec![0x1bu8, 0x5bu8, 0x35u8, 0x7eu8],
        SpecialKey::PageDown => vec![0x1bu8, 0x5bu8, 0x36u8, 0x7eu8],
        SpecialKey::Delete => vec![0x1bu8, 0x5bu8, 0x33u8, 0x7eu8],
    };
    assert(r@ =~= key_seq(k));
    r
}

} // verus!
