//! Native input injection. The key names map to macOS virtual key codes.
//! Injecting events needs the macOS event API (core-graphics), which this
//! library does not link, so every injection reports that it is unsupported,
//! on every system.
use vstd::prelude::*;

use crate::text::{chars_of, eq_str, extend_vec, lower_seq, owned, string_of, to_ascii_lower};

verus! {

/// The message of an input call where native injection is unsupported.
pub open spec fn unsupported() -> Seq<char> {
    "原生输入注入目前仅支持 macOS"@
}

/// The macOS virtual key code of a named key (case-insensitive): enter or
/// return, tab, backspace or delete, escape or esc, and the four arrows.
pub open spec fn key_code_of(k: Seq<char>) -> Option<u16> {
    if k == "enter"@ || k == "return"@ {
        Some(36)
    } else if k == "tab"@ {
        Some(48)
    } else if k == "backspace"@ || k == "delete"@ {
        Some(51)
    } else if k == "escape"@ || k == "esc"@ {
        Some(53)
    } else if k == "left"@ {
        Some(123)
    } else if k == "right"@ {
        Some(124)
    } else if k == "down"@ {
        Some(125)
    } else if k == "up"@ {
        Some(126)
    } else {
        None
    }
}

/// The key code of a named key (see [`key_code_of`], on the key in lower
/// case); an unknown key names itself and the supported ones.
pub fn key_code(key: &str) -> (r: Result<u16, String>)
    ensures
        match key_code_of(lower_seq(key@)) {
            Some(c) => r == Ok::<u16, String>(c),
            None => r matches Err(m)
                && m@ == "不支持的按键："@ + lower_seq(key@) + "（支持 enter/tab/escape/backspace/left/right/up/down）"@,
        },
{
    let k = to_ascii_lower(&chars_of(key));
    if eq_str(&k, "enter") || eq_str(&k, "return") {
        Ok(36)
    } else if eq_str(&k, "tab") {
        Ok(48)
    } else if eq_str(&k, "backspace") || eq_str(&k, "delete") {
        Ok(51)
    } else if eq_str(&k, "escape") || eq_str(&k, "esc") {
        Ok(53)
    } else if eq_str(&k, "left") {
        Ok(123)
    } else if eq_str(&k, "right") {
        Ok(124)
    } else if eq_str(&k, "down") {
        Ok(125)
    } else if eq_str(&k, "up") {
        Ok(126)
    } else {
        let mut m = chars_of("不支持的按键：");
        extend_vec(&mut m, &k);
        let tail = chars_of("（支持 enter/tab/escape/backspace/left/right/up/down）");
        extend_vec(&mut m, &tail);
        Err(string_of(&m))
    }
}

/// Scrolls by lines; unsupported here.
pub fn post_scroll(dx: i32, dy: i32) -> (r: Result<(), String>)
    ensures
        r matches Err(m) && m@ == unsupported(),
{
    Err(owned("原生输入注入目前仅支持 macOS"))
}

/// Types a text; unsupported here.
pub fn post_text(text: &str) -> (r: Result<(), String>)
    ensures
        r matches Err(m) && m@ == unsupported(),
{
    Err(owned("原生输入注入目前仅支持 macOS"))
}

/// Presses a named key; unsupported here.
pub fn post_key(key: &str) -> (r: Result<(), String>)
    ensures
        r matches Err(m) && m@ == unsupported(),
{
    Err(owned("原生输入注入目前仅支持 macOS"))
}

/// Selects all (command-A); unsupported here.
pub fn post_select_all() -> (r: Result<(), String>)
    ensures
        r matches Err(m) && m@ == unsupported(),
{
    Err(owned("原生输入注入目前仅支持 macOS"))
}

} // verus!
