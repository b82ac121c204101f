//! Moving an old repository into the configuration directory: the name
//! that the project gets.

use vstd::prelude::*;
use crate::config::{is_name_char, is_name_char_exec};
use crate::text::chars_of;

verus! {

/// A character as it stands in a project name: one that a name may not
/// hold becomes `_`.
pub open spec fn name_char_for(c: char) -> char {
    if is_name_char(c) {
        c
    } else {
        '_'
    }
}

/// A decimal digit.
pub open spec fn is_digit(c: char) -> bool {
    '0' <= c && c <= '9'
}

/// The project name made of a directory name: every character that a name
/// may not hold becomes `_`; an `m` is put before a name that is empty or
/// begins with a digit; the name is cut after 255 characters.
pub open spec fn sanitized(name: Seq<char>) -> Seq<char> {
    let mapped = name.map_values(|c: char| name_char_for(c));
    let led = if mapped.len() == 0 || is_digit(mapped[0]) {
        seq!['m'] + mapped
    } else {
        mapped
    };
    if led.len() > 255 {
        led.take(255)
    } else {
        led
    }
}

/// The project name made of a directory name.
pub fn sanitize_project_name(name: &str) -> (out: String)
    ensures
        out@ == sanitized(name@),
{
    let chars = chars_of(name);
    let mut out = String::new();
    let mut count: usize = 0;
    let ghost mapped = name@.map_values(|c: char| name_char_for(c));
    let ghost led = if mapped.len() == 0 || is_digit(mapped[0]) {
        seq!['m'] + mapped
    } else {
        mapped
    };
    let first_digit = chars.len() > 0 && is_name_char_exec(chars[0]) && '0' <= chars[0] && chars[0]
        <= '9';
    if chars.len() == 0 || first_digit {
        out.push('m');
        count = 1;
    }
    let ghost lead = count;
    assert(out@ =~= led.take(count as int));
    let mut i: usize = 0;
    while i < chars.len() && count < 255
        invariant
            i <= chars.len(),
            chars@ == name@,
            mapped == name@.map_values(|c: char| name_char_for(c)),
            led.len() == lead + mapped.len(),
            forall|j: int| 0 <= j < mapped.len() ==> led[lead + j] == mapped[j],
            lead <= 1,
            count == lead + i,
            count <= 255,
            out@ == led.take(count as int),
        decreases chars.len() - i,
    {
        let c = chars[i];
        let kept = if is_name_char_exec(c) {
            c
        } else {
            '_'
        };
        assert(kept == mapped[i as int]);
        assert(led[lead + i] == mapped[i as int]);
        out.push(kept);
        i += 1;
        count += 1;
        assert(led.take(count as int) =~= led.take(count - 1).push(led[count - 1]));
        assert(out@ =~= led.take(count as int));
    }
    proof {
        if led.len() <= 255 {
            assert(led.take(led.len() as int) =~= led);
        }
    }
    out
}

} // verus!
