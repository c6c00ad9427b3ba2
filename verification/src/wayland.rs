//! Keyboard input from the compositor: the key names widgets expect.
use vstd::prelude::*;

use crate::text::{hex_padded, push_hex_padded};

verus! {

broadcast use vstd::string::group_string_axioms;

/// Why the window could not be shown or kept running.
#[derive(Debug)]
pub enum WaylandError {
    NoWayland,
    Init(String),
    Dispatch(String),
}

/// The key name for an XKB keysym: the names of the editing and navigation
/// keys, or `0x` and eight lower-case hexadecimal digits.
pub open spec fn spec_keysym_name(raw: u32) -> Seq<char> {
    if raw == 0xff08 {
        "BackSpace"@
    } else if raw == 0xffff {
        "Delete"@
    } else if raw == 0xff51 {
        "Left"@
    } else if raw == 0xff52 {
        "Up"@
    } else if raw == 0xff53 {
        "Right"@
    } else if raw == 0xff54 {
        "Down"@
    } else if raw == 0xff50 {
        "Home"@
    } else if raw == 0xff57 {
        "End"@
    } else if raw == 0xff0d || raw == 0xff8d {
        "Return"@
    } else if raw == 0xff1b {
        "Escape"@
    } else if raw == 0xff09 {
        "Tab"@
    } else {
        "0x"@ + hex_padded(raw as nat, 8)
    }
}

pub fn keysym_name(raw: u32) -> (r: String)
    ensures
        r@ == spec_keysym_name(raw),
{
    if raw == 0xff08 {
        "BackSpace".to_string()
    } else if raw == 0xffff {
        "Delete".to_string()
    } else if raw == 0xff51 {
        "Left".to_string()
    } else if raw == 0xff52 {
        "Up".to_string()
    } else if raw == 0xff53 {
        "Right".to_string()
    } else if raw == 0xff54 {
        "Down".to_string()
    } else if raw == 0xff50 {
        "Home".to_string()
    } else if raw == 0xff57 {
        "End".to_string()
    } else if raw == 0xff0d || raw == 0xff8d {
        "Return".to_string()
    } else if raw == 0xff1b {
        "Escape".to_string()
    } else if raw == 0xff09 {
        "Tab".to_string()
    } else {
        let mut s = "0x".to_string();
        push_hex_padded(&mut s, raw as u64, 8);
        s
    }
}

/// The keysym that closes the window.
pub fn is_escape(raw: u32) -> (r: bool)
    ensures
        r == (raw == 0xff1b),
{
    raw == 0xff1b
}

} // verus!
