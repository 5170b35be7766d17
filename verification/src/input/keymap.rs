//! Maps a `KeyboardEvent.code` (the physical key a browser reports, such as
//! `"KeyA"` or `"ArrowLeft"`) to the raw keycode of the host's platform: a
//! `kVK_*` code on macOS, a Scan Code Set 1 scancode on Windows. Which character
//! a key produces is left to the layout that is active on the host.

use vstd::prelude::*;

use crate::proto::HostOs;
use crate::text::str_eq;

verus! {

/// The `kVK_*` codes of macOS, in ascending order. Its keyboards have no true
/// Insert key, so `Insert` is `kVK_Help`; `Delete` is `kVK_ForwardDelete`.
pub const MACOS_KEYCODES: [(&'static str, u16); 104] = [
    ("KeyA", 0x00),
    ("KeyS", 0x01),
    ("KeyD", 0x02),
    ("KeyF", 0x03),
    ("KeyH", 0x04),
    ("KeyG", 0x05),
    ("KeyZ", 0x06),
    ("KeyX", 0x07),
    ("KeyC", 0x08),
    ("KeyV", 0x09),
    ("IntlBackslash", 0x0A),
    ("KeyB", 0x0B),
    ("KeyQ", 0x0C),
    ("KeyW", 0x0D),
    ("KeyE", 0x0E),
    ("KeyR", 0x0F),
    ("KeyY", 0x10),
    ("KeyT", 0x11),
    ("Digit1", 0x12),
    ("Digit2", 0x13),
    ("Digit3", 0x14),
    ("Digit4", 0x15),
    ("Digit6", 0x16),
    ("Digit5", 0x17),
    ("Equal", 0x18),
    ("Digit9", 0x19),
    ("Digit7", 0x1A),
    ("Minus", 0x1B),
    ("Digit8", 0x1C),
    ("Digit0", 0x1D),
    ("BracketRight", 0x1E),
    ("KeyO", 0x1F),
    ("KeyU", 0x20),
    ("BracketLeft", 0x21),
    ("KeyI", 0x22),
    ("KeyP", 0x23),
    ("Enter", 0x24),
    ("KeyL", 0x25),
    ("KeyJ", 0x26),
    ("Quote", 0x27),
    ("KeyK", 0x28),
    ("Semicolon", 0x29),
    ("Backslash", 0x2A),
    ("Comma", 0x2B),
    ("Slash", 0x2C),
    ("KeyN", 0x2D),
    ("KeyM", 0x2E),
    ("Period", 0x2F),
    ("Tab", 0x30),
    ("Space", 0x31),
    ("Backquote", 0x32),
    ("Backspace", 0x33),
    ("Escape", 0x35),
    ("MetaRight", 0x36),
    ("MetaLeft", 0x37),
    ("ShiftLeft", 0x38),
    ("CapsLock", 0x39),
    ("AltLeft", 0x3A),
    ("ControlLeft", 0x3B),
    ("ShiftRight", 0x3C),
    ("AltRight", 0x3D),
    ("ControlRight", 0x3E),
    ("NumpadDecimal", 0x41),
    ("NumpadMultiply", 0x43),
    ("NumpadAdd", 0x45),
    ("NumpadDivide", 0x4B),
    ("NumpadEnter", 0x4C),
    ("NumpadSubtract", 0x4E),
    ("Numpad0", 0x52),
    ("Numpad1", 0x53),
    ("Numpad2", 0x54),
    ("Numpad3", 0x55),
    ("Numpad4", 0x56),
    ("Numpad5", 0x57),
    ("Numpad6", 0x58),
    ("Numpad7", 0x59),
    ("Numpad8", 0x5B),
    ("Numpad9", 0x5C),
    ("F5", 0x60),
    ("F6", 0x61),
    ("F7", 0x62),
    ("F3", 0x63),
    ("F8", 0x64),
    ("F9", 0x65),
    ("F11", 0x67),
    ("F13", 0x69),
    ("F16", 0x6A),
    ("F14", 0x6B),
    ("F10", 0x6D),
    ("F12", 0x6F),
    ("F15", 0x71),
    ("Insert", 0x72),
    ("Home", 0x73),
    ("PageUp", 0x74),
    ("Delete", 0x75),
    ("F4", 0x76),
    ("End", 0x77),
    ("F2", 0x78),
    ("PageDown", 0x79),
    ("F1", 0x7A),
    ("ArrowLeft", 0x7B),
    ("ArrowRight", 0x7C),
    ("ArrowDown", 0x7D),
    ("ArrowUp", 0x7E),
];

/// The scancodes of Windows, in ascending order. Some navigation and modifier
/// keys share their code with a numpad key (`ArrowLeft` and `Numpad4` are both
/// `0x4B`).
pub const WINDOWS_SCANCODES: [(&'static str, u16); 100] = [
    ("Escape", 0x01),
    ("Digit1", 0x02),
    ("Digit2", 0x03),
    ("Digit3", 0x04),
    ("Digit4", 0x05),
    ("Digit5", 0x06),
    ("Digit6", 0x07),
    ("Digit7", 0x08),
    ("Digit8", 0x09),
    ("Digit9", 0x0A),
    ("Digit0", 0x0B),
    ("Minus", 0x0C),
    ("Equal", 0x0D),
    ("Backspace", 0x0E),
    ("Tab", 0x0F),
    ("KeyQ", 0x10),
    ("KeyW", 0x11),
    ("KeyE", 0x12),
    ("KeyR", 0x13),
    ("KeyT", 0x14),
    ("KeyY", 0x15),
    ("KeyU", 0x16),
    ("KeyI", 0x17),
    ("KeyO", 0x18),
    ("KeyP", 0x19),
    ("BracketLeft", 0x1A),
    ("BracketRight", 0x1B),
    ("Enter", 0x1C),
    ("NumpadEnter", 0x1C),
    ("ControlLeft", 0x1D),
    ("ControlRight", 0x1D),
    ("KeyA", 0x1E),
    ("KeyS", 0x1F),
    ("KeyD", 0x20),
    ("KeyF", 0x21),
    ("KeyG", 0x22),
    ("KeyH", 0x23),
    ("KeyJ", 0x24),
    ("KeyK", 0x25),
    ("KeyL", 0x26),
    ("Semicolon", 0x27),
    ("Quote", 0x28),
    ("Backquote", 0x29),
    ("ShiftLeft", 0x2A),
    ("Backslash", 0x2B),
    ("KeyZ", 0x2C),
    ("KeyX", 0x2D),
    ("KeyC", 0x2E),
    ("KeyV", 0x2F),
    ("KeyB", 0x30),
    ("KeyN", 0x31),
    ("KeyM", 0x32),
    ("Comma", 0x33),
    ("Period", 0x34),
    ("Slash", 0x35),
    ("NumpadDivide", 0x35),
    ("ShiftRight", 0x36),
    ("NumpadMultiply", 0x37),
    ("AltLeft", 0x38),
    ("AltRight", 0x38),
    ("Space", 0x39),
    ("CapsLock", 0x3A),
    ("F1", 0x3B),
    ("F2", 0x3C),
    ("F3", 0x3D),
    ("F4", 0x3E),
    ("F5", 0x3F),
    ("F6", 0x40),
    ("F7", 0x41),
    ("F8", 0x42),
    ("F9", 0x43),
    ("F10", 0x44),
    ("Home", 0x47),
    ("Numpad7", 0x47),
    ("ArrowUp", 0x48),
    ("Numpad8", 0x48),
    ("PageUp", 0x49),
    ("Numpad9", 0x49),
    ("NumpadSubtract", 0x4A),
    ("ArrowLeft", 0x4B),
    ("Numpad4", 0x4B),
    ("Numpad5", 0x4C),
    ("ArrowRight", 0x4D),
    ("Numpad6", 0x4D),
    ("NumpadAdd", 0x4E),
    ("End", 0x4F),
    ("Numpad1", 0x4F),
    ("ArrowDown", 0x50),
    ("Numpad2", 0x50),
    ("PageDown", 0x51),
    ("Numpad3", 0x51),
    ("Insert", 0x52),
    ("Numpad0", 0x52),
    ("Delete", 0x53),
    ("NumpadDecimal", 0x53),
    ("IntlBackslash", 0x56),
    ("F11", 0x57),
    ("F12", 0x58),
    ("MetaLeft", 0x5B),
    ("MetaRight", 0x5C),
];

/// The keycode that `table` gives to `code`: that of the first row so named.
pub open spec fn lookup(table: Seq<(&'static str, u16)>, code: Seq<char>) -> Option<u16>
    decreases table.len(),
{
    if table.len() == 0 {
        None
    } else if table[0].0@ == code {
        Some(table[0].1)
    } else {
        lookup(table.drop_first(), code)
    }
}

/// The raw keycode of `code` on `os`. Platforms without an injector map nothing.
pub open spec fn keycode(os: HostOs, code: Seq<char>) -> Option<u16> {
    match os {
        HostOs::Macos => lookup(MACOS_KEYCODES@, code),
        HostOs::Windows => lookup(WINDOWS_SCANCODES@, code),
        HostOs::Other => None,
    }
}

fn find(table: &[(&'static str, u16)], code: &str) -> (r: Option<u16>)
    ensures
        r == lookup(table@, code@),
{
    let mut i: usize = 0;
    proof {
        assert(table@.skip(0) =~= table@);
    }
    while i < table.len()
        invariant
            i <= table.len(),
            lookup(table@, code@) == lookup(table@.skip(i as int), code@),
        decreases table.len() - i,
    {
        proof {
            assert(table@.skip(i as int).drop_first() =~= table@.skip(i + 1));
        }
        if str_eq(table[i].0, code) {
            return Some(table[i].1);
        }
        i = i + 1;
    }
    None
}

/// Translates a `KeyboardEvent.code` to the raw keycode of `os`; `None` for a
/// code without a mapping there.
pub fn to_keycode(os: HostOs, code: &str) -> (r: Option<u16>)
    ensures
        r == keycode(os, code@),
{
    match os {
        HostOs::Macos => find(&MACOS_KEYCODES, code),
        HostOs::Windows => find(&WINDOWS_SCANCODES, code),
        HostOs::Other => None,
    }
}

/// Splits a scancode into its low byte and whether it carries the extended-key
/// prefix `0xE0`.
pub fn scan_parts(scan: u16) -> (r: (u16, bool))
    ensures
        r.0 == scan % 256,
        r.1 == (scan / 256 == 0xE0),
{
    (scan % 256, scan / 256 == 0xE0)
}

/// A row that a lookup finds holds the code asked for.
proof fn lemma_lookup_row(table: Seq<(&'static str, u16)>, code: Seq<char>) -> (i: int)
    requires
        lookup(table, code) is Some,
    ensures
        0 <= i < table.len(),
        table[i].0@ == code,
        lookup(table, code) == Some(table[i].1),
    decreases table.len(),
{
    if table[0].0@ == code {
        0
    } else {
        let j = lemma_lookup_row(table.drop_first(), code);
        assert(table.drop_first()[j] == table[j + 1]);
        j + 1
    }
}

spec fn ascending(table: Seq<(&'static str, u16)>) -> bool {
    forall|i: int, j: int| 0 <= i < j < table.len() ==> table[i].1 < table[j].1
}

proof fn lemma_macos_ascending()
    ensures
        ascending(MACOS_KEYCODES@),
{
}

/// An ascending table gives no keycode twice.
proof fn lemma_ascending_is_injective(
    table: Seq<(&'static str, u16)>,
    a: Seq<char>,
    b: Seq<char>,
)
    requires
        ascending(table),
        lookup(table, a) is Some,
        lookup(table, a) == lookup(table, b),
    ensures
        a == b,
{
    lemma_lookup_row(table, a);
    lemma_lookup_row(table, b);
}

/// On macOS no two keys share a keycode.
pub proof fn law_macos_keycodes_are_distinct(a: Seq<char>, b: Seq<char>)
    requires
        keycode(HostOs::Macos, a) is Some,
        keycode(HostOs::Macos, a) == keycode(HostOs::Macos, b),
    ensures
        a == b,
{
    lemma_macos_ascending();
    lemma_ascending_is_injective(MACOS_KEYCODES@, a, b);
}

/// The keys of letters and digits have the codes that Apple gave them, which follow
/// the rows of the keyboard with leaps.
pub proof fn law_macos_letters_and_digits(code: Seq<char>, c: u16)
    requires
        keycode(HostOs::Macos, code) == Some(c),
    ensures
        0x00 <= c <= 0x09 ==> code == "Key"@.push("ASDFHGZXCV"@[c - 0x00]),
        0x0b <= c <= 0x11 ==> code == "Key"@.push("BQWERYT"@[c - 0x0b]),
        0x1f <= c <= 0x20 ==> code == "Key"@.push("OU"@[c - 0x1f]),
        0x22 <= c <= 0x23 ==> code == "Key"@.push("IP"@[c - 0x22]),
        0x25 <= c <= 0x26 ==> code == "Key"@.push("LJ"@[c - 0x25]),
        c == 0x28 ==> code == "Key"@.push('K'),
        0x2d <= c <= 0x2e ==> code == "Key"@.push("NM"@[c - 0x2d]),
        0x12 <= c <= 0x17 ==> code == "Digit"@.push("123465"@[c - 0x12]),
        0x19 <= c <= 0x1a ==> code == "Digit"@.push("97"@[c - 0x19]),
        0x1c <= c <= 0x1d ==> code == "Digit"@.push("80"@[c - 0x1c]),
        0x52 <= c <= 0x59 ==> code == "Numpad"@.push("01234567"@[c - 0x52]),
        0x5b <= c <= 0x5c ==> code == "Numpad"@.push("89"@[c - 0x5b]),
{
    let table = MACOS_KEYCODES@;
    reveal_strlit("01234567");
    reveal_strlit("123465");
    reveal_strlit("80");
    reveal_strlit("89");
    reveal_strlit("97");
    reveal_strlit("ASDFHGZXCV");
    reveal_strlit("BQWERYT");
    reveal_strlit("Digit");
    reveal_strlit("Digit0");
    reveal_strlit("Digit1");
    reveal_strlit("Digit2");
    reveal_strlit("Digit3");
    reveal_strlit("Digit4");
    reveal_strlit("Digit5");
    reveal_strlit("Digit6");
    reveal_strlit("Digit7");
    reveal_strlit("Digit8");
    reveal_strlit("Digit9");
    reveal_strlit("IP");
    reveal_strlit("Key");
    reveal_strlit("KeyA");
    reveal_strlit("KeyB");
    reveal_strlit("KeyC");
    reveal_strlit("KeyD");
    reveal_strlit("KeyE");
    reveal_strlit("KeyF");
    reveal_strlit("KeyG");
    reveal_strlit("KeyH");
    reveal_strlit("KeyI");
    reveal_strlit("KeyJ");
    reveal_strlit("KeyK");
    reveal_strlit("KeyL");
    reveal_strlit("KeyM");
    reveal_strlit("KeyN");
    reveal_strlit("KeyO");
    reveal_strlit("KeyP");
    reveal_strlit("KeyQ");
    reveal_strlit("KeyR");
    reveal_strlit("KeyS");
    reveal_strlit("KeyT");
    reveal_strlit("KeyU");
    reveal_strlit("KeyV");
    reveal_strlit("KeyW");
    reveal_strlit("KeyX");
    reveal_strlit("KeyY");
    reveal_strlit("KeyZ");
    reveal_strlit("LJ");
    reveal_strlit("NM");
    reveal_strlit("Numpad");
    reveal_strlit("Numpad0");
    reveal_strlit("Numpad1");
    reveal_strlit("Numpad2");
    reveal_strlit("Numpad3");
    reveal_strlit("Numpad4");
    reveal_strlit("Numpad5");
    reveal_strlit("Numpad6");
    reveal_strlit("Numpad7");
    reveal_strlit("Numpad8");
    reveal_strlit("Numpad9");
    reveal_strlit("OU");
    assert(table[0].1 == 0x00 && table[0].0@ =~= "Key"@.push('A'));
    assert(table[1].1 == 0x01 && table[1].0@ =~= "Key"@.push('S'));
    assert(table[2].1 == 0x02 && table[2].0@ =~= "Key"@.push('D'));
    assert(table[3].1 == 0x03 && table[3].0@ =~= "Key"@.push('F'));
    assert(table[4].1 == 0x04 && table[4].0@ =~= "Key"@.push('H'));
    assert(table[5].1 == 0x05 && table[5].0@ =~= "Key"@.push('G'));
    assert(table[6].1 == 0x06 && table[6].0@ =~= "Key"@.push('Z'));
    assert(table[7].1 == 0x07 && table[7].0@ =~= "Key"@.push('X'));
    assert(table[8].1 == 0x08 && table[8].0@ =~= "Key"@.push('C'));
    assert(table[9].1 == 0x09 && table[9].0@ =~= "Key"@.push('V'));
    assert(table[11].1 == 0x0b && table[11].0@ =~= "Key"@.push('B'));
    assert(table[12].1 == 0x0c && table[12].0@ =~= "Key"@.push('Q'));
    assert(table[13].1 == 0x0d && table[13].0@ =~= "Key"@.push('W'));
    assert(table[14].1 == 0x0e && table[14].0@ =~= "Key"@.push('E'));
    assert(table[15].1 == 0x0f && table[15].0@ =~= "Key"@.push('R'));
    assert(table[16].1 == 0x10 && table[16].0@ =~= "Key"@.push('Y'));
    assert(table[17].1 == 0x11 && table[17].0@ =~= "Key"@.push('T'));
    assert(table[31].1 == 0x1f && table[31].0@ =~= "Key"@.push('O'));
    assert(table[32].1 == 0x20 && table[32].0@ =~= "Key"@.push('U'));
    assert(table[34].1 == 0x22 && table[34].0@ =~= "Key"@.push('I'));
    assert(table[35].1 == 0x23 && table[35].0@ =~= "Key"@.push('P'));
    assert(table[37].1 == 0x25 && table[37].0@ =~= "Key"@.push('L'));
    assert(table[38].1 == 0x26 && table[38].0@ =~= "Key"@.push('J'));
    assert(table[40].1 == 0x28 && table[40].0@ =~= "Key"@.push('K'));
    assert(table[45].1 == 0x2d && table[45].0@ =~= "Key"@.push('N'));
    assert(table[46].1 == 0x2e && table[46].0@ =~= "Key"@.push('M'));
    assert(table[18].1 == 0x12 && table[18].0@ =~= "Digit"@.push('1'));
    assert(table[19].1 == 0x13 && table[19].0@ =~= "Digit"@.push('2'));
    assert(table[20].1 == 0x14 && table[20].0@ =~= "Digit"@.push('3'));
    assert(table[21].1 == 0x15 && table[21].0@ =~= "Digit"@.push('4'));
    assert(table[22].1 == 0x16 && table[22].0@ =~= "Digit"@.push('6'));
    assert(table[23].1 == 0x17 && table[23].0@ =~= "Digit"@.push('5'));
    assert(table[25].1 == 0x19 && table[25].0@ =~= "Digit"@.push('9'));
    assert(table[26].1 == 0x1a && table[26].0@ =~= "Digit"@.push('7'));
    assert(table[28].1 == 0x1c && table[28].0@ =~= "Digit"@.push('8'));
    assert(table[29].1 == 0x1d && table[29].0@ =~= "Digit"@.push('0'));
    assert(table[68].1 == 0x52 && table[68].0@ =~= "Numpad"@.push('0'));
    assert(table[69].1 == 0x53 && table[69].0@ =~= "Numpad"@.push('1'));
    assert(table[70].1 == 0x54 && table[70].0@ =~= "Numpad"@.push('2'));
    assert(table[71].1 == 0x55 && table[71].0@ =~= "Numpad"@.push('3'));
    assert(table[72].1 == 0x56 && table[72].0@ =~= "Numpad"@.push('4'));
    assert(table[73].1 == 0x57 && table[73].0@ =~= "Numpad"@.push('5'));
    assert(table[74].1 == 0x58 && table[74].0@ =~= "Numpad"@.push('6'));
    assert(table[75].1 == 0x59 && table[75].0@ =~= "Numpad"@.push('7'));
    assert(table[76].1 == 0x5b && table[76].0@ =~= "Numpad"@.push('8'));
    assert(table[77].1 == 0x5c && table[77].0@ =~= "Numpad"@.push('9'));
    lemma_macos_ascending();
    let i = lemma_lookup_row(table, code);
}

proof fn lemma_windows_names(i: int)
    ensures
        ({
            let table = WINDOWS_SCANCODES@;
            &&& 1 <= i <= 10 ==> table[i].0@ == "Digit"@.push("1234567890"@[i - 1])
            &&& 15 <= i <= 24 ==> table[i].0@ == "Key"@.push("QWERTYUIOP"@[i - 15])
            &&& 31 <= i <= 39 ==> table[i].0@ == "Key"@.push("ASDFGHJKL"@[i - 31])
            &&& 45 <= i <= 51 ==> table[i].0@ == "Key"@.push("ZXCVBNM"@[i - 45])
        }),
{
    let table = WINDOWS_SCANCODES@;
    reveal_strlit("1234567890");
    reveal_strlit("ASDFGHJKL");
    reveal_strlit("Digit");
    reveal_strlit("Digit0");
    reveal_strlit("Digit1");
    reveal_strlit("Digit2");
    reveal_strlit("Digit3");
    reveal_strlit("Digit4");
    reveal_strlit("Digit5");
    reveal_strlit("Digit6");
    reveal_strlit("Digit7");
    reveal_strlit("Digit8");
    reveal_strlit("Digit9");
    reveal_strlit("Key");
    reveal_strlit("KeyA");
    reveal_strlit("KeyB");
    reveal_strlit("KeyC");
    reveal_strlit("KeyD");
    reveal_strlit("KeyE");
    reveal_strlit("KeyF");
    reveal_strlit("KeyG");
    reveal_strlit("KeyH");
    reveal_strlit("KeyI");
    reveal_strlit("KeyJ");
    reveal_strlit("KeyK");
    reveal_strlit("KeyL");
    reveal_strlit("KeyM");
    reveal_strlit("KeyN");
    reveal_strlit("KeyO");
    reveal_strlit("KeyP");
    reveal_strlit("KeyQ");
    reveal_strlit("KeyR");
    reveal_strlit("KeyS");
    reveal_strlit("KeyT");
    reveal_strlit("KeyU");
    reveal_strlit("KeyV");
    reveal_strlit("KeyW");
    reveal_strlit("KeyX");
    reveal_strlit("KeyY");
    reveal_strlit("KeyZ");
    reveal_strlit("QWERTYUIOP");
    reveal_strlit("ZXCVBNM");
    assert(table[15].0@ =~= "Key"@.push('Q'));
    assert(table[16].0@ =~= "Key"@.push('W'));
    assert(table[17].0@ =~= "Key"@.push('E'));
    assert(table[18].0@ =~= "Key"@.push('R'));
    assert(table[19].0@ =~= "Key"@.push('T'));
    assert(table[20].0@ =~= "Key"@.push('Y'));
    assert(table[21].0@ =~= "Key"@.push('U'));
    assert(table[22].0@ =~= "Key"@.push('I'));
    assert(table[23].0@ =~= "Key"@.push('O'));
    assert(table[24].0@ =~= "Key"@.push('P'));
    assert(table[31].0@ =~= "Key"@.push('A'));
    assert(table[32].0@ =~= "Key"@.push('S'));
    assert(table[33].0@ =~= "Key"@.push('D'));
    assert(table[34].0@ =~= "Key"@.push('F'));
    assert(table[35].0@ =~= "Key"@.push('G'));
    assert(table[36].0@ =~= "Key"@.push('H'));
    assert(table[37].0@ =~= "Key"@.push('J'));
    assert(table[38].0@ =~= "Key"@.push('K'));
    assert(table[39].0@ =~= "Key"@.push('L'));
    assert(table[45].0@ =~= "Key"@.push('Z'));
    assert(table[46].0@ =~= "Key"@.push('X'));
    assert(table[47].0@ =~= "Key"@.push('C'));
    assert(table[48].0@ =~= "Key"@.push('V'));
    assert(table[49].0@ =~= "Key"@.push('B'));
    assert(table[50].0@ =~= "Key"@.push('N'));
    assert(table[51].0@ =~= "Key"@.push('M'));
    assert(table[1].0@ =~= "Digit"@.push('1'));
    assert(table[2].0@ =~= "Digit"@.push('2'));
    assert(table[3].0@ =~= "Digit"@.push('3'));
    assert(table[4].0@ =~= "Digit"@.push('4'));
    assert(table[5].0@ =~= "Digit"@.push('5'));
    assert(table[6].0@ =~= "Digit"@.push('6'));
    assert(table[7].0@ =~= "Digit"@.push('7'));
    assert(table[8].0@ =~= "Digit"@.push('8'));
    assert(table[9].0@ =~= "Digit"@.push('9'));
    assert(table[10].0@ =~= "Digit"@.push('0'));
}

proof fn lemma_windows_places(i: int)
    requires
        0 <= i < 100,
    ensures
        ({
            let c = WINDOWS_SCANCODES@[i].1;
            &&& 0x02 <= c <= 0x0b ==> i == c - 1
            &&& 0x10 <= c <= 0x19 ==> i == c - 1
            &&& 0x1e <= c <= 0x26 ==> i == c + 1
            &&& 0x2c <= c <= 0x32 ==> i == c + 1
        }),
{
}

/// Scancodes count the keys of letters and digits row by row, from left to right.
pub proof fn law_windows_letters_and_digits(code: Seq<char>, c: u16)
    requires
        keycode(HostOs::Windows, code) == Some(c),
    ensures
        0x02 <= c <= 0x0b ==> code == "Digit"@.push("1234567890"@[c - 0x02]),
        0x10 <= c <= 0x19 ==> code == "Key"@.push("QWERTYUIOP"@[c - 0x10]),
        0x1e <= c <= 0x26 ==> code == "Key"@.push("ASDFGHJKL"@[c - 0x1e]),
        0x2c <= c <= 0x32 ==> code == "Key"@.push("ZXCVBNM"@[c - 0x2c]),
{
    let i = lemma_lookup_row(WINDOWS_SCANCODES@, code);
    lemma_windows_places(i);
    lemma_windows_names(i);
}

} // verus!
