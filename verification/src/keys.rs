//! The key codes the Android side sends for the on-screen keypad.
//!
//! The Kotlin side and this table must stay in sync: codes 0 to 23 each name
//! one handset key, every other code names none.

use vstd::prelude::*;

verus! {

/// A handset key, as the emulator core knows it.
#[allow(non_camel_case_types)]
#[derive(Clone, Copy, Debug, PartialEq, Eq, Structural)]
pub enum KeyCode {
    UP,
    DOWN,
    LEFT,
    RIGHT,
    OK,
    LEFT_SOFT_KEY,
    RIGHT_SOFT_KEY,
    CLEAR,
    CALL,
    HANGUP,
    VOLUME_UP,
    VOLUME_DOWN,
    NUM0,
    NUM1,
    NUM2,
    NUM3,
    NUM4,
    NUM5,
    NUM6,
    NUM7,
    NUM8,
    NUM9,
    HASH,
    STAR,
}

/// The code the Android side sends for each key.
pub open spec fn code_of_key(key: KeyCode) -> int {
    match key {
        KeyCode::UP => 0,
        KeyCode::DOWN => 1,
        KeyCode::LEFT => 2,
        KeyCode::RIGHT => 3,
        KeyCode::OK => 4,
        KeyCode::LEFT_SOFT_KEY => 5,
        KeyCode::RIGHT_SOFT_KEY => 6,
        KeyCode::CLEAR => 7,
        KeyCode::CALL => 8,
        KeyCode::HANGUP => 9,
        KeyCode::VOLUME_UP => 10,
        KeyCode::VOLUME_DOWN => 11,
        KeyCode::NUM0 => 12,
        KeyCode::NUM1 => 13,
        KeyCode::NUM2 => 14,
        KeyCode::NUM3 => 15,
        KeyCode::NUM4 => 16,
        KeyCode::NUM5 => 17,
        KeyCode::NUM6 => 18,
        KeyCode::NUM7 => 19,
        KeyCode::NUM8 => 20,
        KeyCode::NUM9 => 21,
        KeyCode::HASH => 22,
        KeyCode::STAR => 23,
    }
}

/// The key a code names, if any.
pub open spec fn key_for_code(code: int) -> Option<KeyCode> {
    if 0 <= code <= 23 {
        Some(choose|key: KeyCode| code_of_key(key) == code)
    } else {
        None
    }
}

/// Maps a code from the Android side to the key it names; `None` for codes
/// outside the table.
pub fn convert_key_code(code: i32) -> (key: Option<KeyCode>)
    ensures
        match key {
            Some(k) => code_of_key(k) == code,
            None => !(0 <= code <= 23),
        },
        key == key_for_code(code as int),
{
    let key = match code {
        0 => Some(KeyCode::UP),
        1 => Some(KeyCode::DOWN),
        2 => Some(KeyCode::LEFT),
        3 => Some(KeyCode::RIGHT),
        4 => Some(KeyCode::OK),
        5 => Some(KeyCode::LEFT_SOFT_KEY),
        6 => Some(KeyCode::RIGHT_SOFT_KEY),
        7 => Some(KeyCode::CLEAR),
        8 => Some(KeyCode::CALL),
        9 => Some(KeyCode::HANGUP),
        10 => Some(KeyCode::VOLUME_UP),
        11 => Some(KeyCode::VOLUME_DOWN),
        12 => Some(KeyCode::NUM0),
        13 => Some(KeyCode::NUM1),
        14 => Some(KeyCode::NUM2),
        15 => Some(KeyCode::NUM3),
        16 => Some(KeyCode::NUM4),
        17 => Some(KeyCode::NUM5),
        18 => Some(KeyCode::NUM6),
        19 => Some(KeyCode::NUM7),
        20 => Some(KeyCode::NUM8),
        21 => Some(KeyCode::NUM9),
        22 => Some(KeyCode::HASH),
        23 => Some(KeyCode::STAR),
        _ => None,
    };
    proof {
        if let Some(k) = key {
            lemma_every_key_has_a_code(k);
        }
    }
    key
}

/// No two keys share a code, and every code in the table is in `0..=23`.
pub proof fn lemma_key_codes_distinct(a: KeyCode, b: KeyCode)
    ensures
        code_of_key(a) == code_of_key(b) ==> a == b,
        0 <= code_of_key(a) <= 23,
{
}

/// Every key can be sent: its code converts back to it.
pub proof fn lemma_every_key_has_a_code(key: KeyCode)
    ensures
        key_for_code(code_of_key(key)) == Some(key),
{
    let k = choose|k: KeyCode| code_of_key(k) == code_of_key(key);
    lemma_key_codes_distinct(k, key);
}

} // verus!
