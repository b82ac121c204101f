//! Deleting a snapshot: whether the answer to the question confirms it.

use vstd::prelude::*;
use crate::commands::ignore::{trim, trimmed};
use crate::text::chars_of;

verus! {

/// The lower-case form of an ASCII letter; any other character as it is.
pub open spec fn ascii_lower(c: char) -> char {
    if 'A' <= c && c <= 'Z' {
        ((c as u8 + 32) as u8) as char
    } else {
        c
    }
}

/// Whether an answer says yes: `y` or `yes`, in any case of the letters,
/// white space around it set aside.
pub open spec fn says_yes(answer: Seq<char>) -> bool {
    let lowered = trimmed(answer).map_values(|c: char| ascii_lower(c));
    lowered == seq!['y'] || lowered == seq!['y', 'e', 's']
}

fn lower_of(c: char) -> (l: char)
    ensures
        l == ascii_lower(c),
{
    if 'A' <= c && c <= 'Z' {
        ((c as u8) + 32) as char
    } else {
        c
    }
}

/// Whether the answer to the question confirms the deletion.
pub fn cmd_delete(answer: &str) -> (yes: bool)
    ensures
        yes == says_yes(answer@),
{
    let bare = trim(answer);
    let chars = chars_of(bare.as_str());
    let ghost lowered = trimmed(answer@).map_values(|c: char| ascii_lower(c));
    assert(lowered.len() == chars@.len());
    assert(seq!['y'].len() == 1 && seq!['y'][0] == 'y');
    assert(seq!['y', 'e', 's'].len() == 3 && seq!['y', 'e', 's'][0] == 'y' && seq![
        'y',
        'e',
        's',
    ][1] == 'e' && seq!['y', 'e', 's'][2] == 's');
    if chars.len() == 1 {
        let yes = lower_of(chars[0]) == 'y';
        assert(lowered[0] == ascii_lower(chars@[0]));
        if yes {
            assert(lowered =~= seq!['y']);
        }
        yes
    } else if chars.len() == 3 {
        let yes = lower_of(chars[0]) == 'y' && lower_of(chars[1]) == 'e' && lower_of(chars[2])
            == 's';
        assert(lowered[0] == ascii_lower(chars@[0]));
        assert(lowered[1] == ascii_lower(chars@[1]));
        assert(lowered[2] == ascii_lower(chars@[2]));
        if yes {
            assert(lowered =~= seq!['y', 'e', 's']);
        }
        yes
    } else {
        false
    }
}

} // verus!
