//! The names that generated players go by.

use vstd::prelude::*;
use vstd::string::*;

verus! {

/// A digit as it is written, and a question mark for what is no digit.
pub open spec fn digit_label(digit: int) -> Seq<char> {
    if digit == 0 {
        "0"@
    } else if digit == 1 {
        "1"@
    } else if digit == 2 {
        "2"@
    } else if digit == 3 {
        "3"@
    } else if digit == 4 {
        "4"@
    } else if digit == 5 {
        "5"@
    } else if digit == 6 {
        "6"@
    } else if digit == 7 {
        "7"@
    } else if digit == 8 {
        "8"@
    } else if digit == 9 {
        "9"@
    } else {
        "?"@
    }
}

/// A number as it is written in decimal digits, without leading zeros.
pub open spec fn decimal(number: int) -> Seq<char>
    decreases number,
{
    if number < 10 {
        digit_label(number)
    } else {
        decimal(number / 10) + digit_label(number % 10)
    }
}

/// The name of the player in `slot` of a roster generated under `prefix`,
/// the slots counted from 0: the prefix, then `Player`, then the slot's
/// number counted from 1.
pub open spec fn roster_name(prefix: Seq<char>, slot: int) -> Seq<char> {
    prefix + "Player"@ + decimal(slot + 1)
}

/// The name of the scouted player in `slot` who drew `number`: `Scout`, the
/// slot's number counted from 1, and `number`.
pub open spec fn scout_name(slot: int, number: int) -> Seq<char> {
    "Scout"@ + decimal(slot + 1) + decimal(number)
}

/// A digit as it is written, and a question mark for what is no digit.
pub fn digit_str(digit: u32) -> (label: &'static str)
    ensures
        label@ == digit_label(digit as int),
{
    if digit == 0 {
        "0"
    } else if digit == 1 {
        "1"
    } else if digit == 2 {
        "2"
    } else if digit == 3 {
        "3"
    } else if digit == 4 {
        "4"
    } else if digit == 5 {
        "5"
    } else if digit == 6 {
        "6"
    } else if digit == 7 {
        "7"
    } else if digit == 8 {
        "8"
    } else if digit == 9 {
        "9"
    } else {
        "?"
    }
}

/// A number as it is written in decimal digits, without leading zeros.
pub fn decimal_string(number: u64) -> (written: String)
    ensures
        written@ == decimal(number as int),
    decreases number,
{
    if number < 10 {
        String::from_str(digit_str(number as u32))
    } else {
        let mut written = decimal_string(number / 10);
        written.append(digit_str((number % 10) as u32));
        written
    }
}

/// The name of the player in `slot` of a roster generated under `prefix`.
pub fn roster_name_for(prefix: &str, slot: u32) -> (name: String)
    ensures
        name@ == roster_name(prefix@, slot as int),
{
    let mut name = String::from_str(prefix);
    name.append("Player");
    let number = decimal_string(slot as u64 + 1);
    name.append(number.as_str());
    name
}

/// The name of the scouted player in `slot` who drew `number`.
pub fn scout_name_for(slot: u32, number: u32) -> (name: String)
    ensures
        name@ == scout_name(slot as int, number as int),
{
    let mut name = String::from_str("Scout");
    let place = decimal_string(slot as u64 + 1);
    name.append(place.as_str());
    let drawn = decimal_string(number as u64);
    name.append(drawn.as_str());
    name
}

} // verus!
