//! The letter on a player's avatar.

use vstd::prelude::*;

verus! {

/// The first character of the name, or `.` for an empty name.
pub fn avatar_initial(name: &str) -> (c: char)
    ensures
        c == (if name@.len() > 0 { name@[0] } else { '.' }),
{
    let v = crate::text::chars_of(name);
    if v.len() > 0 {
        v[0]
    } else {
        '.'
    }
}

} // verus!
