//! PS/2 keyboard input: turning scan-code set 1 bytes into characters.

use vstd::prelude::*;

verus! {

/// Number of scan codes that have a character.
pub const SCANCODE_MAP_LEN: usize = 59;

/// Character of each scan code without shift; `?` marks a code with no character.
pub open spec fn scancode_map_lower() -> Seq<u8> {
    seq![
        63u8, 63u8, 49u8, 50u8, 51u8, 52u8, 53u8, 54u8, 55u8, 56u8,
        57u8, 48u8, 45u8, 61u8, 8u8, 9u8, 113u8, 119u8, 101u8, 114u8,
        116u8, 121u8, 117u8, 105u8, 111u8, 112u8, 91u8, 93u8, 10u8, 63u8,
        97u8, 115u8, 100u8, 102u8, 103u8, 104u8, 106u8, 107u8, 108u8, 59u8,
        39u8, 96u8, 63u8, 92u8, 122u8, 120u8, 99u8, 118u8, 98u8, 110u8,
        109u8, 44u8, 46u8, 47u8, 63u8, 42u8, 63u8, 32u8, 63u8,
    ]
}

/// Character of each scan code with shift held; `?` marks a code with no character.
pub open spec fn scancode_map_upper() -> Seq<u8> {
    seq![
        63u8, 63u8, 33u8, 64u8, 35u8, 36u8, 37u8, 94u8, 38u8, 42u8,
        40u8, 41u8, 95u8, 43u8, 8u8, 9u8, 81u8, 87u8, 69u8, 82u8,
        84u8, 89u8, 85u8, 73u8, 79u8, 80u8, 123u8, 125u8, 10u8, 63u8,
        65u8, 83u8, 68u8, 70u8, 71u8, 72u8, 74u8, 75u8, 76u8, 58u8,
        34u8, 126u8, 63u8, 92u8, 90u8, 88u8, 67u8, 86u8, 66u8, 78u8,
        77u8, 60u8, 62u8, 63u8, 63u8, 42u8, 63u8, 32u8, 63u8,
    ]
}

/// The byte that marks a scan code with no character.
pub const NO_CHAR: u8 = 0x3f;

/// What a scan code does: the shift state afterwards and the character typed, if any.
pub open spec fn scancode_spec(shift_pressed: bool, scancode: u8) -> (bool, Option<u8>) {
    if scancode == 0x2a || scancode == 0x36 {
        (true, None)
    } else if scancode == 0xaa || scancode == 0xb6 {
        (false, None)
    } else if scancode < 0x80 && (scancode as int) < SCANCODE_MAP_LEN {
        let c = if shift_pressed {
            scancode_map_upper()[scancode as int]
        } else {
            scancode_map_lower()[scancode as int]
        };
        (shift_pressed, if c != NO_CHAR { Some(c) } else { None })
    } else {
        (shift_pressed, None)
    }
}

fn map_lower(idx: usize) -> (r: u8)
    requires
        idx < SCANCODE_MAP_LEN,
    ensures
        r == scancode_map_lower()[idx as int],
{
    let map: [u8; 59] = [
        63u8, 63u8, 49u8, 50u8, 51u8, 52u8, 53u8, 54u8, 55u8, 56u8,
        57u8, 48u8, 45u8, 61u8, 8u8, 9u8, 113u8, 119u8, 101u8, 114u8,
        116u8, 121u8, 117u8, 105u8, 111u8, 112u8, 91u8, 93u8, 10u8, 63u8,
        97u8, 115u8, 100u8, 102u8, 103u8, 104u8, 106u8, 107u8, 108u8, 59u8,
        39u8, 96u8, 63u8, 92u8, 122u8, 120u8, 99u8, 118u8, 98u8, 110u8,
        109u8, 44u8, 46u8, 47u8, 63u8, 42u8, 63u8, 32u8, 63u8,
    ];
    assert(map@ =~= scancode_map_lower());
    map[idx]
}

fn map_upper(idx: usize) -> (r: u8)
    requires
        idx < SCANCODE_MAP_LEN,
    ensures
        r == scancode_map_upper()[idx as int],
{
    let map: [u8; 59] = [
        63u8, 63u8, 33u8, 64u8, 35u8, 36u8, 37u8, 94u8, 38u8, 42u8,
        40u8, 41u8, 95u8, 43u8, 8u8, 9u8, 81u8, 87u8, 69u8, 82u8,
        84u8, 89u8, 85u8, 73u8, 79u8, 80u8, 123u8, 125u8, 10u8, 63u8,
        65u8, 83u8, 68u8, 70u8, 71u8, 72u8, 74u8, 75u8, 76u8, 58u8,
        34u8, 126u8, 63u8, 92u8, 90u8, 88u8, 67u8, 86u8, 66u8, 78u8,
        77u8, 60u8, 62u8, 63u8, 63u8, 42u8, 63u8, 32u8, 63u8,
    ];
    assert(map@ =~= scancode_map_upper());
    map[idx]
}

/// Interprets one scan code given whether shift is held: shift presses and releases
/// (left or right) change the shift state; a key press with a character yields it.
pub fn translate_scancode(shift_pressed: bool, scancode: u8) -> (r: (bool, Option<u8>))
    ensures
        r == scancode_spec(shift_pressed, scancode),
        (scancode as int) < SCANCODE_MAP_LEN && !shift_pressed ==> {
            let lower = "??1234567890-=\x08\tqwertyuiop[]\n?asdfghjkl;'`?\\zxcvbnm,./?*? ?"@;
            r.1 == (if lower[scancode as int] == '?' { None } else { Some(lower[scancode as int] as u8) })
        },
        (scancode as int) < SCANCODE_MAP_LEN && shift_pressed ==> {
            let upper = "??!@#$%^&*()_+\x08\tQWERTYUIOP{}\n?ASDFGHJKL:\"~?\\ZXCVBNM<>??*? ?"@;
            r.1 == (if upper[scancode as int] == '?' { None } else { Some(upper[scancode as int] as u8) })
        },
{
    proof {
        if (scancode as int) < SCANCODE_MAP_LEN {
            lemma_us_layout(scancode);
        }
    }
    if scancode == 0x2a || scancode == 0x36 {
        (true, None)
    } else if scancode == 0xaa || scancode == 0xb6 {
        (false, None)
    } else if scancode < 0x80 {
        let idx = scancode as usize;
        if idx < SCANCODE_MAP_LEN {
            let c = if shift_pressed { map_upper(idx) } else { map_lower(idx) };
            if c != NO_CHAR { (shift_pressed, Some(c)) } else { (shift_pressed, None) }
        } else {
            (shift_pressed, None)
        }
    } else {
        (shift_pressed, None)
    }
}

/// The keyboard driver's state: whether shift is held.
pub struct KeyboardDriver {
    pub shift_pressed: bool,
}

impl KeyboardDriver {
    /// A driver with shift released.
    pub fn new() -> (r: Self)
        ensures
            !r.shift_pressed,
    {
        KeyboardDriver { shift_pressed: false }
    }

    /// Handles one scan code read from the keyboard; returns the character to print, if any.
    pub fn handle_scancode(&mut self, scancode: u8) -> (r: Option<u8>)
        ensures
            (final(self).shift_pressed, r) == scancode_spec(old(self).shift_pressed, scancode),
    {
        let (shift, c) = translate_scancode(self.shift_pressed, scancode);
        self.shift_pressed = shift;
        c
    }
}


/// Holding shift selects the shifted character set and releasing it the plain one; keys that
/// type a character leave the shift state as it was.
pub proof fn lemma_shift_selects_map(shift_pressed: bool, scancode: u8)
    requires
        (scancode as int) < SCANCODE_MAP_LEN,
    ensures
        scancode_spec(shift_pressed, 0x2a).0,
        scancode_spec(shift_pressed, 0x36).0,
        !scancode_spec(shift_pressed, 0xaa).0,
        !scancode_spec(shift_pressed, 0xb6).0,
        scancode != 0x2a && scancode != 0x36 ==> {
            &&& scancode_spec(true, scancode).0
            &&& !scancode_spec(false, scancode).0
            &&& (scancode_map_upper()[scancode as int] != NO_CHAR ==> scancode_spec(true, scancode).1 == Some(scancode_map_upper()[scancode as int]))
            &&& (scancode_map_lower()[scancode as int] != NO_CHAR ==> scancode_spec(false, scancode).1 == Some(scancode_map_lower()[scancode as int]))
        },
{
}

/// The character a scan code types is that of the US layout for scan-code set 1: without
/// shift, code `c` (below 59) types the character at index `c` of
/// "??1234567890-=\x08\tqwertyuiop[]\n?asdfghjkl;'`?\\zxcvbnm,./?*? ?" and with shift the one
/// at index `c` of "??!@#$%^&*()_+\x08\tQWERTYUIOP{}\n?ASDFGHJKL:\"~?\\ZXCVBNM<>??*? ?",
/// where `?` stands for a key that types nothing.
pub proof fn lemma_us_layout(scancode: u8)
    requires
        (scancode as int) < SCANCODE_MAP_LEN,
    ensures
        ({
            let lower = "??1234567890-=\x08\tqwertyuiop[]\n?asdfghjkl;'`?\\zxcvbnm,./?*? ?"@;
            let upper = "??!@#$%^&*()_+\x08\tQWERTYUIOP{}\n?ASDFGHJKL:\"~?\\ZXCVBNM<>??*? ?"@;
            &&& lower.len() == SCANCODE_MAP_LEN
            &&& upper.len() == SCANCODE_MAP_LEN
            &&& scancode_spec(false, scancode).1
                == (if lower[scancode as int] == '?' { None } else { Some(lower[scancode as int] as u8) })
            &&& scancode_spec(true, scancode).1
                == (if upper[scancode as int] == '?' { None } else { Some(upper[scancode as int] as u8) })
        }),
{
    reveal_strlit("??1234567890-=\x08\tqwertyuiop[]\n?asdfghjkl;'`?\\zxcvbnm,./?*? ?");
    reveal_strlit("??!@#$%^&*()_+\x08\tQWERTYUIOP{}\n?ASDFGHJKL:\"~?\\ZXCVBNM<>??*? ?");
}

} // verus!
