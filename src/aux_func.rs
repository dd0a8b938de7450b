use vstd::prelude::*;

verus! {

/// Column number of a file letter: 'A' is 1, 'H' is 8.
pub fn letter_to_int(ch: char) -> (r: i32)
    ensures
        r == ch as int - 64,
{
    ch as i32 - 64
}

/// File letter of a column number: 1 is 'A', 8 is 'H'.
pub fn int_to_letter(num: i32) -> (r: char)
    requires
        -64 <= num <= 191,
    ensures
        r as int == num + 64,
{
    ((num + 64) as u8) as char
}

} // verus!
