//! Commands on the ignore file: adding and removing a pattern, and the
//! editor to call. The editor's command line is split as a shell does, by
//! the `shell-words` crate.

use vstd::prelude::*;
use crate::error::MoteError;
use crate::ignore::{lines_of, split_lines};
use crate::text::texts;
use crate::text::{chars_of, string_of_range};

verus! {

/// The words of a command line, as `shell_words::split` gives them;
/// nothing where a quote is not closed.
pub uninterp spec fn shell_split(line: Seq<char>) -> Option<Seq<Seq<char>>>;

/// `shell_words::split`: the words of `line`, or the text of its one
/// error, which says that a quote is not closed.
#[verifier::external_body]
fn split_words(line: &str) -> (r: Result<Vec<String>, String>)
    ensures
        match r {
            Ok(words) => shell_split(line@) == Some(texts(words@)),
            Err(why) => shell_split(line@) is None && why@ == "missing closing quote"@,
        },
{
    shell_words::split(line).map_err(|e| e.to_string())
}

/// White space, as Unicode defines it.
pub open spec fn is_space(c: char) -> bool {
    ('\u{9}' <= c && c <= '\u{d}') || c == ' ' || c == '\u{85}' || c == '\u{a0}' || c
        == '\u{1680}' || ('\u{2000}' <= c && c <= '\u{200a}') || c == '\u{2028}' || c
        == '\u{2029}' || c == '\u{202f}' || c == '\u{205f}' || c == '\u{3000}'
}

/// A text without the white space that it begins with.
pub open spec fn trimmed_start(s: Seq<char>) -> Seq<char>
    decreases s.len(),
{
    if s.len() > 0 && is_space(s[0]) {
        trimmed_start(s.drop_first())
    } else {
        s
    }
}

/// A text without the white space that it ends with.
pub open spec fn trimmed_end(s: Seq<char>) -> Seq<char>
    decreases s.len(),
{
    if s.len() > 0 && is_space(s.last()) {
        trimmed_end(s.drop_last())
    } else {
        s
    }
}

/// A text without the white space around it.
pub open spec fn trimmed(s: Seq<char>) -> Seq<char> {
    trimmed_end(trimmed_start(s))
}

fn space(c: char) -> (r: bool)
    ensures
        r == is_space(c),
{
    ('\u{9}' <= c && c <= '\u{d}') || c == ' ' || c == '\u{85}' || c == '\u{a0}' || c
        == '\u{1680}' || ('\u{2000}' <= c && c <= '\u{200a}') || c == '\u{2028}' || c
        == '\u{2029}' || c == '\u{202f}' || c == '\u{205f}' || c == '\u{3000}'
}

/// `s` without the white space around it.
pub fn trim(s: &str) -> (out: String)
    ensures
        out@ == trimmed(s@),
{
    let chars = chars_of(s);
    let mut start: usize = 0;
    assert(chars@.skip(0) =~= chars@);
    while start < chars.len() && space(chars[start])
        invariant
            start <= chars.len(),
            trimmed_start(chars@.skip(start as int)) == trimmed_start(chars@),
        decreases chars.len() - start,
    {
        proof {
            let rest = chars@.skip(start as int);
            assert(rest[0] == chars@[start as int]);
            assert(rest.drop_first() =~= chars@.skip(start + 1));
        }
        start += 1;
    }
    proof {
        let rest = chars@.skip(start as int);
        if rest.len() > 0 {
            assert(rest[0] == chars@[start as int]);
        }
        assert(trimmed_start(chars@) == rest);
    }
    let ghost body = chars@.skip(start as int);
    let mut end: usize = chars.len();
    assert(chars@.subrange(start as int, end as int) =~= body);
    while end > start && space(chars[end - 1])
        invariant
            start <= end <= chars.len(),
            trimmed_end(chars@.subrange(start as int, end as int)) == trimmed_end(body),
        decreases end - start,
    {
        proof {
            let part = chars@.subrange(start as int, end as int);
            assert(part.last() == chars@[end - 1]);
            assert(part.drop_last() =~= chars@.subrange(start as int, end - 1));
        }
        end -= 1;
    }
    proof {
        let part = chars@.subrange(start as int, end as int);
        if part.len() > 0 {
            assert(part.last() == chars@[end - 1]);
        }
    }
    string_of_range(&chars, start, end)
}

/// The content of the ignore file with one more pattern: the pattern is
/// put on a line of its own after what the file holds.
pub open spec fn with_pattern(content: Seq<char>, pattern: Seq<char>) -> Seq<char> {
    if content.len() > 0 && content.last() != '\n' {
        content + seq!['\n'] + pattern + seq!['\n']
    } else {
        content + pattern + seq!['\n']
    }
}

/// The content of the ignore file with one more pattern.
pub fn add_pattern(content: &str, pattern: &str) -> (out: String)
    ensures
        out@ == with_pattern(content@, pattern@),
{
    let chars = chars_of(content);
    let mut out = String::from_str(content);
    if chars.len() > 0 && chars[chars.len() - 1] != '\n' {
        out.push('\n');
    }
    out.append(pattern);
    out.push('\n');
    out
}

/// Whether a line is kept when `pattern` is removed: it is another
/// pattern, white space around both set aside.
pub open spec fn is_kept(line: Seq<char>, pattern: Seq<char>) -> bool {
    trimmed(line) != trimmed(pattern)
}

/// The lines with a line feed between them.
pub open spec fn joined(lines: Seq<Seq<char>>) -> Seq<char>
    decreases lines.len(),
{
    if lines.len() == 0 {
        Seq::empty()
    } else if lines.len() == 1 {
        lines[0]
    } else {
        joined(lines.drop_last()) + seq!['\n'] + lines.last()
    }
}

/// The content of the ignore file without a pattern: its lines but those
/// that hold the pattern, each ended by a line feed.
pub open spec fn without_pattern(content: Seq<char>, pattern: Seq<char>) -> Seq<char> {
    joined(lines_of(content).filter(|line: Seq<char>| is_kept(line, pattern))) + seq!['\n']
}

/// The content of the ignore file without a pattern.
pub fn remove_pattern(content: &str, pattern: &str) -> (out: String)
    ensures
        out@ == without_pattern(content@, pattern@),
{
    let lines = split_lines(content);
    let wanted = trim(pattern);
    let mut out = String::new();
    let mut kept: usize = 0;
    let ghost all = texts(lines@);
    let ghost pred = |line: Seq<char>| is_kept(line, pattern@);
    let mut i: usize = 0;
    assert(all.take(0) =~= Seq::<Seq<char>>::empty());
    assert(all.take(0).filter(pred) =~= Seq::<Seq<char>>::empty()) by {
        reveal(Seq::filter);
    }
    while i < lines.len()
        invariant
            i <= lines.len(),
            all == texts(lines@),
            wanted@ == trimmed(pattern@),
            pred == |line: Seq<char>| is_kept(line, pattern@),
            kept == all.take(i as int).filter(pred).len(),
            out@ == joined(all.take(i as int).filter(pred)),
        decreases lines.len() - i,
    {
        let line = &lines[i];
        let bare = trim(line.as_str());
        let ghost before = all.take(i as int).filter(pred);
        proof {
            assert(all.take(i + 1) =~= all.take(i as int).push(all[i as int]));
            all.take(i as int).lemma_filter_push(all[i as int], pred);
            assert(all[i as int] == line@);
        }
        if !crate::text::str_eq(bare.as_str(), wanted.as_str()) {
            if kept > 0 {
                out.push('\n');
            }
            out.append(line.as_str());
            kept += 1;
            proof {
                let now = before.push(line@);
                assert(now.drop_last() =~= before);
                assert(now.last() == line@);
                if before.len() == 0 {
                    assert(out@ =~= now[0]);
                }
            }
        }
        i += 1;
    }
    assert(all.take(all.len() as int) =~= all);
    out.push('\n');
    out
}

/// The program of the editor and the arguments that stand before the file.
#[derive(Debug, Clone, PartialEq, Eq)]
pub struct EditorCommand {
    pub program: String,
    pub args: Vec<String>,
}

/// The editor to call from the words of its command line.
pub fn editor_from_words(words: Result<Vec<String>, String>) -> (r: Result<EditorCommand, MoteError>)
    ensures
        match words {
            Err(why) => r matches Err(MoteError::ConfigRead(said)) && said@
                == "Failed to parse EDITOR: "@ + why@,
            Ok(parts) => if parts@.len() == 0 {
                r matches Err(MoteError::ConfigRead(said)) && said@ == "EDITOR variable is empty"@
            } else {
                r matches Ok(command) && command.program == parts@[0] && command.args@
                    == parts@.skip(1)
            },
        },
{
    match words {
        Err(why) => Err(
            MoteError::ConfigRead(crate::text::concat("Failed to parse EDITOR: ", why.as_str())),
        ),
        Ok(parts) => {
            let mut parts = parts;
            if parts.len() == 0 {
                return Err(MoteError::ConfigRead(String::from_str("EDITOR variable is empty")));
            }
            let ghost all = parts@;
            let program = parts.remove(0);
            assert(parts@ =~= all.skip(1));
            Ok(EditorCommand { program, args: parts })
        },
    }
}

/// The editor to call: the words of `editor`, split as a shell splits
/// them; the first is the program.
pub fn editor_command(editor: &str) -> (r: Result<EditorCommand, MoteError>)
    ensures
        match shell_split(editor@) {
            None => r matches Err(MoteError::ConfigRead(said)) && said@
                == "Failed to parse EDITOR: "@ + "missing closing quote"@,
            Some(words) => if words.len() == 0 {
                r matches Err(MoteError::ConfigRead(said)) && said@ == "EDITOR variable is empty"@
            } else {
                r matches Ok(command) && command.program@ == words[0] && texts(command.args@)
                    == words.skip(1)
            },
        },
{
    let words = split_words(editor);
    let r = editor_from_words(words);
    proof {
        if r is Ok {
            assert(texts(r->Ok_0.args@) =~= shell_split(editor@)->0.skip(1));
        }
    }
    r
}

} // verus!
