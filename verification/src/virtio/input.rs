//! virtio-input: keyboard and pointer events for the guest. Keys arrive as
//! web `KeyboardEvent.code` values and leave as X11 keysyms (as RFB uses).
//! The pointer is never captured: positions over the canvas are scaled to the
//! guest framebuffer by the caller.

use vstd::prelude::*;
use vstd::string::StrSliceExecFns;
use crate::text::str_eq;

verus! {

/// What the guest is sent.
#[derive(Clone, Copy, Debug)]
pub enum VmInputKind {
    /// X11 keysym.
    KeyDown(u32),
    /// X11 keysym.
    KeyUp(u32),
    MouseMove(i32, i32),
    MouseButton { x: i32, y: i32, button: u8, pressed: bool },
    MouseWheel { dx: i32, dy: i32 },
}

#[derive(Clone, Copy, Debug)]
pub struct VmInputEvent {
    pub kind: VmInputKind,
}

/// The guest framebuffer size that pointer positions are scaled to.
pub struct InputDevice {
    pub fb_w: u32,
    pub fb_h: u32,
}

impl InputDevice {
    pub fn new(fb_w: u32, fb_h: u32) -> (d: Self)
        ensures
            d.fb_w == fb_w,
            d.fb_h == fb_h,
    {
        InputDevice { fb_w, fb_h }
    }
}

/// The keys that have a keysym of their own: control keys, function keys and
/// the numeric keypad, by their `KeyboardEvent.code`, in alphabetical order.
pub open spec fn keysym_table() -> Seq<(Seq<char>, u32)> {
    seq![
        ("AltLeft"@, 0xFFE9u32),
        ("AltRight"@, 0xFFEAu32),
        ("ArrowDown"@, 0xFF54u32),
        ("ArrowLeft"@, 0xFF51u32),
        ("ArrowRight"@, 0xFF53u32),
        ("ArrowUp"@, 0xFF52u32),
        ("Backspace"@, 0xFF08u32),
        ("CapsLock"@, 0xFFE5u32),
        ("ControlLeft"@, 0xFFE3u32),
        ("ControlRight"@, 0xFFE4u32),
        ("Delete"@, 0xFFFFu32),
        ("End"@, 0xFF57u32),
        ("Enter"@, 0xFF0Du32),
        ("Escape"@, 0xFF1Bu32),
        ("F1"@, 0xFFBEu32),
        ("F10"@, 0xFFC7u32),
        ("F11"@, 0xFFC8u32),
        ("F12"@, 0xFFC9u32),
        ("F2"@, 0xFFBFu32),
        ("F3"@, 0xFFC0u32),
        ("F4"@, 0xFFC1u32),
        ("F5"@, 0xFFC2u32),
        ("F6"@, 0xFFC3u32),
        ("F7"@, 0xFFC4u32),
        ("F8"@, 0xFFC5u32),
        ("F9"@, 0xFFC6u32),
        ("Home"@, 0xFF50u32),
        ("Insert"@, 0xFF63u32),
        ("MetaLeft"@, 0xFFEBu32),
        ("MetaRight"@, 0xFFECu32),
        ("NumLock"@, 0xFF7Fu32),
        ("Numpad0"@, 0xFFB0u32),
        ("Numpad1"@, 0xFFB1u32),
        ("Numpad2"@, 0xFFB2u32),
        ("Numpad3"@, 0xFFB3u32),
        ("Numpad4"@, 0xFFB4u32),
        ("Numpad5"@, 0xFFB5u32),
        ("Numpad6"@, 0xFFB6u32),
        ("Numpad7"@, 0xFFB7u32),
        ("Numpad8"@, 0xFFB8u32),
        ("Numpad9"@, 0xFFB9u32),
        ("NumpadAdd"@, 0xFFABu32),
        ("NumpadDecimal"@, 0xFFAEu32),
        ("NumpadDivide"@, 0xFFAFu32),
        ("NumpadEnter"@, 0xFF8Du32),
        ("NumpadMultiply"@, 0xFFAAu32),
        ("NumpadSubtract"@, 0xFFADu32),
        ("PageDown"@, 0xFF56u32),
        ("PageUp"@, 0xFF55u32),
        ("Pause"@, 0xFF13u32),
        ("PrintScreen"@, 0xFF61u32),
        ("ScrollLock"@, 0xFF14u32),
        ("ShiftLeft"@, 0xFFE1u32),
        ("ShiftRight"@, 0xFFE2u32),
        ("Space"@, 0x0020u32),
        ("Tab"@, 0xFF09u32),
    ]
}

/// The keysym of the first entry of `t` named `code`.
pub open spec fn table_lookup(t: Seq<(Seq<char>, u32)>, code: Seq<char>) -> Option<u32>
    decreases t.len(),
{
    if t.len() == 0 {
        None
    } else if t[0].0 == code {
        Some(t[0].1)
    } else {
        table_lookup(t.drop_first(), code)
    }
}

/// The X11 keysym of a character: Latin-1 characters are their own keysym,
/// every other character is `0x0100_0000` plus its code point.
pub open spec fn char_keysym(c: char) -> u32 {
    if (c as u32) <= 0xFF {
        c as u32
    } else {
        (0x0100_0000 + c as u32) as u32
    }
}

/// The keysym for a key: from the table by its code, or else the keysym of a
/// key value that is a single character; `None` for other keys.
pub open spec fn keysym_of(code: Seq<char>, key: Seq<char>) -> Option<u32> {
    match table_lookup(keysym_table(), code) {
        Some(k) => Some(k),
        None => if key.len() == 1 {
            Some(char_keysym(key[0]))
        } else {
            None
        },
    }
}

fn keysym_entries() -> (t: Vec<(&'static str, u32)>)
    ensures
        t@.map_values(|e: (&str, u32)| (e.0@, e.1)) == keysym_table(),
{
    let mut t: Vec<(&'static str, u32)> = Vec::new();
    t.push(("AltLeft", 0xFFE9));
    t.push(("AltRight", 0xFFEA));
    t.push(("ArrowDown", 0xFF54));
    t.push(("ArrowLeft", 0xFF51));
    t.push(("ArrowRight", 0xFF53));
    t.push(("ArrowUp", 0xFF52));
    t.push(("Backspace", 0xFF08));
    t.push(("CapsLock", 0xFFE5));
    t.push(("ControlLeft", 0xFFE3));
    t.push(("ControlRight", 0xFFE4));
    t.push(("Delete", 0xFFFF));
    t.push(("End", 0xFF57));
    t.push(("Enter", 0xFF0D));
    t.push(("Escape", 0xFF1B));
    t.push(("F1", 0xFFBE));
    t.push(("F10", 0xFFC7));
    t.push(("F11", 0xFFC8));
    t.push(("F12", 0xFFC9));
    t.push(("F2", 0xFFBF));
    t.push(("F3", 0xFFC0));
    t.push(("F4", 0xFFC1));
    t.push(("F5", 0xFFC2));
    t.push(("F6", 0xFFC3));
    t.push(("F7", 0xFFC4));
    t.push(("F8", 0xFFC5));
    t.push(("F9", 0xFFC6));
    t.push(("Home", 0xFF50));
    t.push(("Insert", 0xFF63));
    t.push(("MetaLeft", 0xFFEB));
    t.push(("MetaRight", 0xFFEC));
    t.push(("NumLock", 0xFF7F));
    t.push(("Numpad0", 0xFFB0));
    t.push(("Numpad1", 0xFFB1));
    t.push(("Numpad2", 0xFFB2));
    t.push(("Numpad3", 0xFFB3));
    t.push(("Numpad4", 0xFFB4));
    t.push(("Numpad5", 0xFFB5));
    t.push(("Numpad6", 0xFFB6));
    t.push(("Numpad7", 0xFFB7));
    t.push(("Numpad8", 0xFFB8));
    t.push(("Numpad9", 0xFFB9));
    t.push(("NumpadAdd", 0xFFAB));
    t.push(("NumpadDecimal", 0xFFAE));
    t.push(("NumpadDivide", 0xFFAF));
    t.push(("NumpadEnter", 0xFF8D));
    t.push(("NumpadMultiply", 0xFFAA));
    t.push(("NumpadSubtract", 0xFFAD));
    t.push(("PageDown", 0xFF56));
    t.push(("PageUp", 0xFF55));
    t.push(("Pause", 0xFF13));
    t.push(("PrintScreen", 0xFF61));
    t.push(("ScrollLock", 0xFF14));
    t.push(("ShiftLeft", 0xFFE1));
    t.push(("ShiftRight", 0xFFE2));
    t.push(("Space", 0x0020));
    t.push(("Tab", 0xFF09));
    assert(t@.map_values(|e: (&str, u32)| (e.0@, e.1)) =~= keysym_table());
    t
}

/// Web `KeyboardEvent.code` (with its `key` value) to X11 keysym.
pub fn web_code_to_keysym(code: &str, key: &str) -> (ks: Option<u32>)
    ensures
        ks == keysym_of(code@, key@),
{
    let t = keysym_entries();
    let ghost spec_t = keysym_table();
    let mut i: usize = 0;
    assert(spec_t.skip(0) =~= spec_t);
    while i < t.len()
        invariant
            i <= t@.len(),
            spec_t == t@.map_values(|e: (&str, u32)| (e.0@, e.1)),
            spec_t == keysym_table(),
            table_lookup(spec_t, code@) == table_lookup(spec_t.skip(i as int), code@),
        decreases t@.len() - i,
    {
        let (name, sym) = t[i];
        assert(spec_t.skip(i as int)[0] == (name@, sym));
        assert(spec_t.skip(i as int).drop_first() =~= spec_t.skip(i + 1));
        if str_eq(code, name) {
            assert(table_lookup(spec_t.skip(i as int), code@) == Some(sym));
            return Some(sym);
        }
        i = i + 1;
    }
    assert(spec_t.skip(i as int).len() == 0);
    if key.unicode_len() == 1 {
        let c = key.get_char(0) as u32;
        if c <= 0xFF {
            Some(c)
        } else {
            Some(0x0100_0000 + c)
        }
    } else {
        None
    }
}

/// The character at `k` as a number, 0 past the end.
spec fn code_char(s: Seq<char>, k: int) -> int {
    if 0 <= k < s.len() {
        s[k] as int
    } else {
        0
    }
}

/// The first `k` characters read as a number in base 128.
spec fn rank_upto(s: Seq<char>, k: int) -> int
    decreases k,
{
    if k <= 0 {
        0
    } else {
        rank_upto(s, k - 1) * 128 + code_char(s, k - 1)
    }
}

/// A number that orders ASCII key codes of at most 14 characters
/// alphabetically.
spec fn code_rank(s: Seq<char>) -> int {
    rank_upto(s, 14)
}

/// The codes of `t` from position `k` on have increasing ranks.
spec fn ranks_increase_from(t: Seq<(Seq<char>, u32)>, k: int) -> bool
    decreases t.len() - k,
{
    if k < 0 || k + 1 >= t.len() {
        true
    } else {
        code_rank(t[k].0) < code_rank(t[k + 1].0) && ranks_increase_from(t, k + 1)
    }
}

/// The table's codes have increasing ranks, checked a few at a time.
proof fn lemma_ranks_increase_0_7()
    requires
        ranks_increase_from(keysym_table(), 7),
    ensures
        ranks_increase_from(keysym_table(), 0),
{
    let t = keysym_table();
    assert(t.len() == 56);
    reveal_strlit("AltLeft");
    reveal_strlit("AltRight");
    reveal_strlit("ArrowDown");
    reveal_strlit("ArrowLeft");
    reveal_strlit("ArrowRight");
    reveal_strlit("ArrowUp");
    reveal_strlit("Backspace");
    reveal_strlit("CapsLock");
    reveal_with_fuel(rank_upto, 15);
    assert(ranks_increase_from(t, 6));
    assert(ranks_increase_from(t, 5));
    assert(ranks_increase_from(t, 4));
    assert(ranks_increase_from(t, 3));
    assert(ranks_increase_from(t, 2));
    assert(ranks_increase_from(t, 1));
    assert(ranks_increase_from(t, 0));
}

proof fn lemma_ranks_increase_7_14()
    requires
        ranks_increase_from(keysym_table(), 14),
    ensures
        ranks_increase_from(keysym_table(), 7),
{
    let t = keysym_table();
    assert(t.len() == 56);
    reveal_strlit("CapsLock");
    reveal_strlit("ControlLeft");
    reveal_strlit("ControlRight");
    reveal_strlit("Delete");
    reveal_strlit("End");
    reveal_strlit("Enter");
    reveal_strlit("Escape");
    reveal_strlit("F1");
    reveal_with_fuel(rank_upto, 15);
    assert(ranks_increase_from(t, 13));
    assert(ranks_increase_from(t, 12));
    assert(ranks_increase_from(t, 11));
    assert(ranks_increase_from(t, 10));
    assert(ranks_increase_from(t, 9));
    assert(ranks_increase_from(t, 8));
    assert(ranks_increase_from(t, 7));
}

proof fn lemma_ranks_increase_14_21()
    requires
        ranks_increase_from(keysym_table(), 21),
    ensures
        ranks_increase_from(keysym_table(), 14),
{
    let t = keysym_table();
    assert(t.len() == 56);
    reveal_strlit("F1");
    reveal_strlit("F10");
    reveal_strlit("F11");
    reveal_strlit("F12");
    reveal_strlit("F2");
    reveal_strlit("F3");
    reveal_strlit("F4");
    reveal_strlit("F5");
    reveal_with_fuel(rank_upto, 15);
    assert(ranks_increase_from(t, 20));
    assert(ranks_increase_from(t, 19));
    assert(ranks_increase_from(t, 18));
    assert(ranks_increase_from(t, 17));
    assert(ranks_increase_from(t, 16));
    assert(ranks_increase_from(t, 15));
    assert(ranks_increase_from(t, 14));
}

proof fn lemma_ranks_increase_21_28()
    requires
        ranks_increase_from(keysym_table(), 28),
    ensures
        ranks_increase_from(keysym_table(), 21),
{
    let t = keysym_table();
    assert(t.len() == 56);
    reveal_strlit("F5");
    reveal_strlit("F6");
    reveal_strlit("F7");
    reveal_strlit("F8");
    reveal_strlit("F9");
    reveal_strlit("Home");
    reveal_strlit("Insert");
    reveal_strlit("MetaLeft");
    reveal_with_fuel(rank_upto, 15);
    assert(ranks_increase_from(t, 27));
    assert(ranks_increase_from(t, 26));
    assert(ranks_increase_from(t, 25));
    assert(ranks_increase_from(t, 24));
    assert(ranks_increase_from(t, 23));
    assert(ranks_increase_from(t, 22));
    assert(ranks_increase_from(t, 21));
}

proof fn lemma_ranks_increase_28_35()
    requires
        ranks_increase_from(keysym_table(), 35),
    ensures
        ranks_increase_from(keysym_table(), 28),
{
    let t = keysym_table();
    assert(t.len() == 56);
    reveal_strlit("MetaLeft");
    reveal_strlit("MetaRight");
    reveal_strlit("NumLock");
    reveal_strlit("Numpad0");
    reveal_strlit("Numpad1");
    reveal_strlit("Numpad2");
    reveal_strlit("Numpad3");
    reveal_strlit("Numpad4");
    reveal_with_fuel(rank_upto, 15);
    assert(ranks_increase_from(t, 34));
    assert(ranks_increase_from(t, 33));
    assert(ranks_increase_from(t, 32));
    assert(ranks_increase_from(t, 31));
    assert(ranks_increase_from(t, 30));
    assert(ranks_increase_from(t, 29));
    assert(ranks_increase_from(t, 28));
}

proof fn lemma_ranks_increase_35_42()
    requires
        ranks_increase_from(keysym_table(), 42),
    ensures
        ranks_increase_from(keysym_table(), 35),
{
    let t = keysym_table();
    assert(t.len() == 56);
    reveal_strlit("Numpad4");
    reveal_strlit("Numpad5");
    reveal_strlit("Numpad6");
    reveal_strlit("Numpad7");
    reveal_strlit("Numpad8");
    reveal_strlit("Numpad9");
    reveal_strlit("NumpadAdd");
    reveal_strlit("NumpadDecimal");
    reveal_with_fuel(rank_upto, 15);
    assert(ranks_increase_from(t, 41));
    assert(ranks_increase_from(t, 40));
    assert(ranks_increase_from(t, 39));
    assert(ranks_increase_from(t, 38));
    assert(ranks_increase_from(t, 37));
    assert(ranks_increase_from(t, 36));
    assert(ranks_increase_from(t, 35));
}

proof fn lemma_ranks_increase_42_49()
    requires
        ranks_increase_from(keysym_table(), 49),
    ensures
        ranks_increase_from(keysym_table(), 42),
{
    let t = keysym_table();
    assert(t.len() == 56);
    reveal_strlit("NumpadDecimal");
    reveal_strlit("NumpadDivide");
    reveal_strlit("NumpadEnter");
    reveal_strlit("NumpadMultiply");
    reveal_strlit("NumpadSubtract");
    reveal_strlit("PageDown");
    reveal_strlit("PageUp");
    reveal_strlit("Pause");
    reveal_with_fuel(rank_upto, 15);
    assert(ranks_increase_from(t, 48));
    assert(ranks_increase_from(t, 47));
    assert(ranks_increase_from(t, 46));
    assert(ranks_increase_from(t, 45));
    assert(ranks_increase_from(t, 44));
    assert(ranks_increase_from(t, 43));
    assert(ranks_increase_from(t, 42));
}

proof fn lemma_ranks_increase_49_55()
    ensures
        ranks_increase_from(keysym_table(), 49),
{
    let t = keysym_table();
    assert(t.len() == 56);
    reveal_strlit("Pause");
    reveal_strlit("PrintScreen");
    reveal_strlit("ScrollLock");
    reveal_strlit("ShiftLeft");
    reveal_strlit("ShiftRight");
    reveal_strlit("Space");
    reveal_strlit("Tab");
    reveal_with_fuel(rank_upto, 15);
    assert(ranks_increase_from(t, 55));
    assert(ranks_increase_from(t, 54));
    assert(ranks_increase_from(t, 53));
    assert(ranks_increase_from(t, 52));
    assert(ranks_increase_from(t, 51));
    assert(ranks_increase_from(t, 50));
    assert(ranks_increase_from(t, 49));
}

proof fn lemma_table_ranks_increase()
    ensures
        ranks_increase_from(keysym_table(), 0),
{
    lemma_ranks_increase_49_55();
    lemma_ranks_increase_42_49();
    lemma_ranks_increase_35_42();
    lemma_ranks_increase_28_35();
    lemma_ranks_increase_21_28();
    lemma_ranks_increase_14_21();
    lemma_ranks_increase_7_14();
    lemma_ranks_increase_0_7();
}

proof fn lemma_ranks_tail(t: Seq<(Seq<char>, u32)>, k: int, j: int)
    requires
        0 <= k <= j,
        ranks_increase_from(t, k),
    ensures
        ranks_increase_from(t, j),
    decreases j - k,
{
    if k < j && k + 1 < t.len() {
        lemma_ranks_tail(t, k + 1, j);
    }
}

proof fn lemma_ranks_strict(t: Seq<(Seq<char>, u32)>, j: int, i: int)
    requires
        0 <= j < i < t.len(),
        ranks_increase_from(t, j),
    ensures
        code_rank(t[j].0) < code_rank(t[i].0),
    decreases i - j,
{
    if j + 1 < i {
        lemma_ranks_strict(t, j + 1, i);
    }
}

proof fn lemma_lookup_at(t: Seq<(Seq<char>, u32)>, code: Seq<char>, i: int)
    requires
        0 <= i < t.len(),
        t[i].0 == code,
        forall|j: int| 0 <= j < i ==> t[j].0 != code,
    ensures
        table_lookup(t, code) == Some(t[i].1),
    decreases i,
{
    if i > 0 {
        assert(t[0].0 != code);
        lemma_lookup_at(t.drop_first(), code, i - 1);
    }
}

/// Entry `i` of the table is the one a lookup of its code finds.
proof fn lemma_table_entry(i: int)
    requires
        0 <= i < 56,
    ensures
        table_lookup(keysym_table(), keysym_table()[i].0) == Some(keysym_table()[i].1),
{
    let t = keysym_table();
    lemma_table_ranks_increase();
    assert forall|j: int| 0 <= j < i implies t[j].0 != t[i].0 by {
        lemma_ranks_tail(t, 0, j);
        lemma_ranks_strict(t, j, i);
    }
    lemma_lookup_at(t, t[i].0, i);
}

/// Every key with a keysym of its own gets the keysym that X11's
/// keysymdef.h gives it, whatever its key value.
pub proof fn lemma_named_keys_keysyms(key: Seq<char>)
    ensures
        keysym_of("Escape"@, key) == Some(0xFF1Bu32),
        keysym_of("Backspace"@, key) == Some(0xFF08u32),
        keysym_of("Tab"@, key) == Some(0xFF09u32),
        keysym_of("Enter"@, key) == Some(0xFF0Du32),
        keysym_of("CapsLock"@, key) == Some(0xFFE5u32),
        keysym_of("ShiftLeft"@, key) == Some(0xFFE1u32),
        keysym_of("ShiftRight"@, key) == Some(0xFFE2u32),
        keysym_of("ControlLeft"@, key) == Some(0xFFE3u32),
        keysym_of("ControlRight"@, key) == Some(0xFFE4u32),
        keysym_of("AltLeft"@, key) == Some(0xFFE9u32),
        keysym_of("AltRight"@, key) == Some(0xFFEAu32),
        keysym_of("MetaLeft"@, key) == Some(0xFFEBu32),
        keysym_of("MetaRight"@, key) == Some(0xFFECu32),
        keysym_of("Space"@, key) == Some(0x0020u32),
        keysym_of("Delete"@, key) == Some(0xFFFFu32),
        keysym_of("Insert"@, key) == Some(0xFF63u32),
        keysym_of("Home"@, key) == Some(0xFF50u32),
        keysym_of("End"@, key) == Some(0xFF57u32),
        keysym_of("PageUp"@, key) == Some(0xFF55u32),
        keysym_of("PageDown"@, key) == Some(0xFF56u32),
        keysym_of("ArrowLeft"@, key) == Some(0xFF51u32),
        keysym_of("ArrowUp"@, key) == Some(0xFF52u32),
        keysym_of("ArrowRight"@, key) == Some(0xFF53u32),
        keysym_of("ArrowDown"@, key) == Some(0xFF54u32),
        keysym_of("PrintScreen"@, key) == Some(0xFF61u32),
        keysym_of("ScrollLock"@, key) == Some(0xFF14u32),
        keysym_of("Pause"@, key) == Some(0xFF13u32),
        keysym_of("NumLock"@, key) == Some(0xFF7Fu32),
        keysym_of("F1"@, key) == Some(0xFFBEu32),
        keysym_of("F2"@, key) == Some(0xFFBFu32),
        keysym_of("F3"@, key) == Some(0xFFC0u32),
        keysym_of("F4"@, key) == Some(0xFFC1u32),
        keysym_of("F5"@, key) == Some(0xFFC2u32),
        keysym_of("F6"@, key) == Some(0xFFC3u32),
        keysym_of("F7"@, key) == Some(0xFFC4u32),
        keysym_of("F8"@, key) == Some(0xFFC5u32),
        keysym_of("F9"@, key) == Some(0xFFC6u32),
        keysym_of("F10"@, key) == Some(0xFFC7u32),
        keysym_of("F11"@, key) == Some(0xFFC8u32),
        keysym_of("F12"@, key) == Some(0xFFC9u32),
        keysym_of("Numpad0"@, key) == Some(0xFFB0u32),
        keysym_of("Numpad1"@, key) == Some(0xFFB1u32),
        keysym_of("Numpad2"@, key) == Some(0xFFB2u32),
        keysym_of("Numpad3"@, key) == Some(0xFFB3u32),
        keysym_of("Numpad4"@, key) == Some(0xFFB4u32),
        keysym_of("Numpad5"@, key) == Some(0xFFB5u32),
        keysym_of("Numpad6"@, key) == Some(0xFFB6u32),
        keysym_of("Numpad7"@, key) == Some(0xFFB7u32),
        keysym_of("Numpad8"@, key) == Some(0xFFB8u32),
        keysym_of("Numpad9"@, key) == Some(0xFFB9u32),
        keysym_of("NumpadDecimal"@, key) == Some(0xFFAEu32),
        keysym_of("NumpadEnter"@, key) == Some(0xFF8Du32),
        keysym_of("NumpadAdd"@, key) == Some(0xFFABu32),
        keysym_of("NumpadSubtract"@, key) == Some(0xFFADu32),
        keysym_of("NumpadMultiply"@, key) == Some(0xFFAAu32),
        keysym_of("NumpadDivide"@, key) == Some(0xFFAFu32),
{
    lemma_table_entry(13);
    lemma_table_entry(6);
    lemma_table_entry(55);
    lemma_table_entry(12);
    lemma_table_entry(7);
    lemma_table_entry(52);
    lemma_table_entry(53);
    lemma_table_entry(8);
    lemma_table_entry(9);
    lemma_table_entry(0);
    lemma_table_entry(1);
    lemma_table_entry(28);
    lemma_table_entry(29);
    lemma_table_entry(54);
    lemma_table_entry(10);
    lemma_table_entry(27);
    lemma_table_entry(26);
    lemma_table_entry(11);
    lemma_table_entry(48);
    lemma_table_entry(47);
    lemma_table_entry(3);
    lemma_table_entry(5);
    lemma_table_entry(4);
    lemma_table_entry(2);
    lemma_table_entry(50);
    lemma_table_entry(51);
    lemma_table_entry(49);
    lemma_table_entry(30);
    lemma_table_entry(14);
    lemma_table_entry(18);
    lemma_table_entry(19);
    lemma_table_entry(20);
    lemma_table_entry(21);
    lemma_table_entry(22);
    lemma_table_entry(23);
    lemma_table_entry(24);
    lemma_table_entry(25);
    lemma_table_entry(15);
    lemma_table_entry(16);
    lemma_table_entry(17);
    lemma_table_entry(31);
    lemma_table_entry(32);
    lemma_table_entry(33);
    lemma_table_entry(34);
    lemma_table_entry(35);
    lemma_table_entry(36);
    lemma_table_entry(37);
    lemma_table_entry(38);
    lemma_table_entry(39);
    lemma_table_entry(40);
    lemma_table_entry(42);
    lemma_table_entry(44);
    lemma_table_entry(41);
    lemma_table_entry(46);
    lemma_table_entry(45);
    lemma_table_entry(43);
}

} // verus!
