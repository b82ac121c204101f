//! Commands on contexts: which names a new context may have.

use vstd::prelude::*;
use crate::config::{
    ascii_upper,
    has_char,
    is_name_char,
    is_name_start,
    is_reserved,
    is_reserved_word,
    upper_text,
};
use crate::error::MoteError;
use crate::text::{chars_of, concat3, contains_chars, has_substring};

verus! {

/// A control character: below the space, or from DEL to U+009F.
pub open spec fn is_control_char(c: char) -> bool {
    c <= '\u{1f}' || ('\u{7f}' <= c && c <= '\u{9f}')
}

/// What the name of a context may hold: what a name may hold, and `.`.
pub open spec fn is_context_char(c: char) -> bool {
    is_name_char(c) || c == '.'
}

/// Why `name` cannot be the name of a new context, if it cannot: the rule
/// that it breaks, the rules being tried in this order. Not empty; at most
/// 255 bytes; not `.` or `..`; first an ASCII letter or `_`; no control
/// character; no `..`, `/` or `\`; no space or `.` at the end; only ASCII
/// letters, digits, `-`, `_` and `.`; none of the device names that
/// Windows reserves.
pub open spec fn context_name_fault(name: Seq<char>) -> Option<Seq<char>> {
    if name.len() == 0 {
        Some("Context name cannot be empty"@)
    } else if vstd::utf8::encode_utf8(name).len() > 255 {
        Some("Context name must be 255 characters or less"@)
    } else if name == "."@ || name == ".."@ {
        Some("Context name cannot be '.' or '..'"@)
    } else if !is_name_start(name[0]) {
        Some(named(name, "must start with ASCII letter or underscore"@))
    } else if exists|i: int| 0 <= i < name.len() && is_control_char(#[trigger] name[i]) {
        Some(named(name, "cannot contain control characters"@))
    } else if has_substring(name, ".."@) || name.contains('/') || name.contains('\\') {
        Some(named(name, "cannot contain path separators or '..'"@))
    } else if name.last() == ' ' || name.last() == '.' {
        Some(named(name, "cannot end with space or dot"@))
    } else if exists|i: int| 0 <= i < name.len() && !is_context_char(#[trigger] name[i]) {
        Some(
            named(
                name,
                "only ASCII letters, digits, hyphen, underscore, and dot allowed"@,
            ),
        )
    } else if is_reserved_word(name.map_values(|c: char| ascii_upper(c))) {
        Some(named(name, "reserved device name on Windows"@))
    } else {
        None
    }
}

/// The complaint about a context name with its reason.
pub open spec fn named(name: Seq<char>, reason: Seq<char>) -> Seq<char> {
    "Invalid context name '"@ + name + "': "@ + reason
}

fn complaint(name: &str, reason: &str) -> (r: Result<(), MoteError>)
    ensures
        r matches Err(MoteError::InvalidName(said)) && said@ == named(name@, reason@),
{
    let mut said = concat3("Invalid context name '", name, "': ");
    said.append(reason);
    Err(MoteError::InvalidName(said))
}

fn any_control(chars: &Vec<char>) -> (r: bool)
    ensures
        r == exists|i: int| 0 <= i < chars@.len() && is_control_char(#[trigger] chars@[i]),
{
    let mut i: usize = 0;
    while i < chars.len()
        invariant
            i <= chars.len(),
            forall|j: int| 0 <= j < i ==> !is_control_char(#[trigger] chars@[j]),
        decreases chars.len() - i,
    {
        let c = chars[i];
        if c <= '\u{1f}' || ('\u{7f}' <= c && c <= '\u{9f}') {
            return true;
        }
        i += 1;
    }
    false
}

fn any_foreign(chars: &Vec<char>) -> (r: bool)
    ensures
        r == exists|i: int| 0 <= i < chars@.len() && !is_context_char(#[trigger] chars@[i]),
{
    let mut i: usize = 0;
    while i < chars.len()
        invariant
            i <= chars.len(),
            forall|j: int| 0 <= j < i ==> is_context_char(#[trigger] chars@[j]),
        decreases chars.len() - i,
    {
        let c = chars[i];
        if !(crate::config::is_name_char_exec(c) || c == '.') {
            return true;
        }
        i += 1;
    }
    false
}

/// Checks the name of a new context.
pub fn validate_context_name(name: &str) -> (r: Result<(), MoteError>)
    ensures
        match context_name_fault(name@) {
            None => r is Ok,
            Some(text) => r matches Err(MoteError::InvalidName(said)) && said@ == text,
        },
{
    let chars = chars_of(name);
    if chars.len() == 0 {
        return Err(MoteError::InvalidName(String::from_str("Context name cannot be empty")));
    }
    if name.as_bytes().len() > 255 {
        return Err(
            MoteError::InvalidName(
                String::from_str("Context name must be 255 characters or less"),
            ),
        );
    }
    proof {
        reveal_strlit(".");
        reveal_strlit("..");
    }
    let is_dot = chars.len() == 1 && chars[0] == '.';
    let is_dots = chars.len() == 2 && chars[0] == '.' && chars[1] == '.';
    assert(is_dot == (name@ == "."@)) by {
        if is_dot {
            assert(name@ =~= "."@);
        }
    }
    assert(is_dots == (name@ == ".."@)) by {
        if is_dots {
            assert(name@ =~= ".."@);
        }
    }
    if is_dot || is_dots {
        return Err(
            MoteError::InvalidName(String::from_str("Context name cannot be '.' or '..'")),
        );
    }
    let first = chars[0];
    if !(('a' <= first && first <= 'z') || ('A' <= first && first <= 'Z') || first == '_') {
        return complaint(name, "must start with ASCII letter or underscore");
    }
    if any_control(&chars) {
        return complaint(name, "cannot contain control characters");
    }
    let dots = chars_of("..");
    if contains_chars(&chars, &dots) || has_char(&chars, '/') || has_char(&chars, '\\') {
        return complaint(name, "cannot contain path separators or '..'");
    }
    let last = chars[chars.len() - 1];
    if last == ' ' || last == '.' {
        return complaint(name, "cannot end with space or dot");
    }
    if any_foreign(&chars) {
        return complaint(
            name,
            "only ASCII letters, digits, hyphen, underscore, and dot allowed",
        );
    }
    let upper = upper_text(&chars);
    if is_reserved(upper.as_str()) {
        return complaint(name, "reserved device name on Windows");
    }
    Ok(())
}

/// Whether a context may be deleted: every one but `default`.
pub fn may_delete(name: &str) -> (r: Result<(), MoteError>)
    ensures
        name@ == "default"@ ==> (r matches Err(MoteError::ConfigRead(said)) && said@
            == "Cannot delete default context"@),
        name@ != "default"@ ==> r is Ok,
{
    if crate::text::str_eq(name, "default") {
        Err(MoteError::ConfigRead(String::from_str("Cannot delete default context")))
    } else {
        Ok(())
    }
}

} // verus!
