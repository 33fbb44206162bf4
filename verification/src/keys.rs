//! The closed key alphabet and the total mapping from raw key codes.
//!
//! Raw records carry keys as single byte codes. Rather than mapping them to
//! a platform key type ad hoc, the library owns a closed enumeration with a
//! defined fallback variant: a code nobody can map becomes `Unmapped`, which
//! the compiler flags instead of silently substituting a key.

use vstd::prelude::*;

verus! {

/// A key the library can schedule, inject or capture.
#[derive(Clone, Copy, Debug, PartialEq, Eq, Structural)]
pub enum KeyCode {
    /// A printable key reached through the keyboard layout.
    Layout(char),
    Shift,
    Control,
    Return,
    Backspace,
    Space,
    Escape,
    Delete,
    Num0,
    /// Fallback for a raw code with no mapping; flagged as
    /// `SimError::UnmappableKeyCode` wherever one is compiled.
    Unmapped,
}

/// The key whose press tells the page under test to export its data.
/// It produces no input character of its own.
pub const DOWNLOAD_KEY: KeyCode = KeyCode::Escape;

/// What `map_u8_key` returns for each raw byte code.
pub open spec fn spec_map_u8_key(c: u8) -> KeyCode {
    if 65 <= c && c <= 90 {
        // uppercase letters fold to their lowercase layout key
        KeyCode::Layout(((c + 32) as u8) as char)
    } else if 97 <= c && c <= 122 {
        KeyCode::Layout(c as char)
    } else if 48 <= c && c <= 57 {
        KeyCode::Layout(c as char)
    } else if c == 8 {
        KeyCode::Backspace
    } else if c == 13 {
        KeyCode::Layout(c as char)
    } else if c == 32 {
        KeyCode::Space
    } else if c == 44 {
        KeyCode::Layout(',')
    } else if c == 45 {
        KeyCode::Layout('-')
    } else if c == 46 {
        KeyCode::Layout('.')
    } else {
        KeyCode::Unmapped
    }
}

/// Total mapping from a raw byte code to a key: letters fold to lowercase
/// layout keys, digits and a handful of punctuation codes map to their
/// characters, and every other code lands on the fallback variant.
pub fn map_u8_key(c: u8) -> (r: KeyCode)
    ensures
        r == spec_map_u8_key(c),
{
    if 65 <= c && c <= 90 {
        KeyCode::Layout((c + 32) as char)
    } else if 97 <= c && c <= 122 {
        KeyCode::Layout(c as char)
    } else if 48 <= c && c <= 57 {
        KeyCode::Layout(c as char)
    } else if c == 8 {
        KeyCode::Backspace
    } else if c == 13 {
        KeyCode::Layout(c as char)
    } else if c == 32 {
        KeyCode::Space
    } else if c == 44 {
        KeyCode::Layout(',')
    } else if c == 45 {
        KeyCode::Layout('-')
    } else if c == 46 {
        KeyCode::Layout('.')
    } else {
        KeyCode::Unmapped
    }
}

/// What `sampler_key` returns: the timer sampler cycles through the 26
/// lowercase letters, then `Delete`, then `'.'`.
pub open spec fn spec_sampler_key(i: int) -> KeyCode
    recommends
        0 <= i,
{
    let j = i % 28;
    if j < 26 {
        KeyCode::Layout(((97 + j) as u8) as char)
    } else if j == 26 {
        KeyCode::Delete
    } else {
        KeyCode::Layout('.')
    }
}

/// The key the browser-timer sampler injects on its `i`-th iteration.
pub fn sampler_key(i: usize) -> (r: KeyCode)
    ensures
        r == spec_sampler_key(i as int),
{
    let j: usize = i % 28;
    if j < 26 {
        KeyCode::Layout((97 + j as u8) as char)
    } else if j == 26 {
        KeyCode::Delete
    } else {
        KeyCode::Layout('.')
    }
}

} // verus!
