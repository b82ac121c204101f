//! Which paths of the tree a scan passes over: three directories always,
//! and whatever the patterns of the ignore file match. The patterns follow
//! gitignore; matching them is the work of the `ignore` crate.

use vstd::prelude::*;
use crate::text::texts;
use crate::text::{chars_of, matches_at, string_of_range};

verus! {

/// The matcher of the `ignore` crate, carried through as it is.
#[verifier::external_type_specification]
#[verifier::external_body]
pub struct ExGitignore(::ignore::gitignore::Gitignore);

/// The patterns that a matcher holds, in their order: of each, the text
/// that was kept of its line.
pub uninterp spec fn gitignore_patterns(matcher: ::ignore::gitignore::Gitignore) -> Seq<
    Seq<char>,
>;

/// The directory that the patterns of a matcher are relative to.
pub uninterp spec fn gitignore_root(matcher: ::ignore::gitignore::Gitignore) -> Seq<char>;

/// Whether the patterns `patterns`, read relative to `root`, say that
/// `path` is ignored: the verdict of `Gitignore::matched` is `Ignore`.
pub uninterp spec fn gitignore_verdict(
    root: Seq<char>,
    patterns: Seq<Seq<char>>,
    path: Seq<char>,
    is_dir: bool,
) -> bool;

/// What `GitignoreBuilder::add_line` keeps of a line: the text of the
/// pattern, or nothing for a comment, a blank line and a line that it
/// refuses.
pub uninterp spec fn pattern_kept(line: Seq<char>) -> Option<Seq<char>>;

/// Whether `GitignoreBuilder::build` makes a matcher of these patterns.
pub uninterp spec fn matcher_builds(patterns: Seq<Seq<char>>) -> bool;

/// The builder of matchers of the `ignore` crate, carried through as it
/// is.
#[verifier::external_type_specification]
#[verifier::external_body]
pub struct ExGitignoreBuilder(::ignore::gitignore::GitignoreBuilder);

/// The patterns that a builder holds, in their order: of each, the text
/// that was kept of its line.
pub uninterp spec fn builder_patterns(builder: ::ignore::gitignore::GitignoreBuilder) -> Seq<
    Seq<char>,
>;

/// The directory that the patterns of a builder are relative to.
pub uninterp spec fn builder_root(builder: ::ignore::gitignore::GitignoreBuilder) -> Seq<char>;

/// The root as a builder keeps it: without one `./` that it begins with.
pub open spec fn kept_root(root: Seq<char>) -> Seq<char> {
    if root.len() >= 2 && root[0] == '.' && root[1] == '/' {
        root.skip(2)
    } else {
        root
    }
}

/// The patterns that a builder keeps of `lines`, in their order.
pub open spec fn kept_patterns(lines: Seq<Seq<char>>) -> Seq<Seq<char>>
    decreases lines.len(),
{
    if lines.len() == 0 {
        Seq::empty()
    } else {
        match pattern_kept(lines.last()) {
            Some(pattern) => kept_patterns(lines.drop_last()).push(pattern),
            None => kept_patterns(lines.drop_last()),
        }
    }
}

/// `GitignoreBuilder::new`: a builder without patterns; as its root it
/// keeps `root` without one leading `./`.
#[verifier::external_body]
fn new_builder(root: &str) -> (builder: ::ignore::gitignore::GitignoreBuilder)
    ensures
        builder_root(builder) == kept_root(root@),
        builder_patterns(builder) == Seq::<Seq<char>>::empty(),
{
    ::ignore::gitignore::GitignoreBuilder::new(root)
}

/// `GitignoreBuilder::add_line`: where it keeps a pattern of the line, the
/// builder holds one pattern more; for a comment, a blank line and a line
/// that it refuses the builder stays as it was.
#[verifier::external_body]
fn add_line(builder: &mut ::ignore::gitignore::GitignoreBuilder, line: &str)
    ensures
        builder_root(*final(builder)) == builder_root(*old(builder)),
        match pattern_kept(line@) {
            Some(pattern) => builder_patterns(*final(builder)) == builder_patterns(
                *old(builder),
            ).push(pattern),
            None => builder_patterns(*final(builder)) == builder_patterns(*old(builder)),
        },
{
    let _ = builder.add_line(None, line);
}

/// `GitignoreBuilder::build`: the matcher for the patterns of the builder;
/// nothing where the patterns cannot be built into a matcher. Building
/// fails only in compiling patterns, so a builder without patterns always
/// gives a matcher.
#[verifier::external_body]
fn build_matcher(builder: &::ignore::gitignore::GitignoreBuilder) -> (built: Option<
    ::ignore::gitignore::Gitignore,
>)
    ensures
        built is Some == matcher_builds(builder_patterns(*builder)),
        builder_patterns(*builder).len() == 0 ==> built is Some,
        built matches Some(matcher) ==> gitignore_root(matcher) == builder_root(*builder)
            && gitignore_patterns(matcher) == builder_patterns(*builder),
{
    builder.build().ok()
}

/// The matcher for `lines`, relative to `root`: every line is handed to
/// the builder, in order, which keeps the patterns among them. Whether a
/// matcher can be built of the patterns is for the builder to say; of none
/// it always can.
fn build_gitignore(root: &str, lines: &Vec<String>) -> (built: Option<
    ::ignore::gitignore::Gitignore,
>)
    ensures
        built is Some == matcher_builds(kept_patterns(texts(lines@))),
        kept_patterns(texts(lines@)).len() == 0 ==> built is Some,
        built matches Some(matcher) ==> gitignore_root(matcher) == kept_root(root@)
            && gitignore_patterns(matcher) == kept_patterns(texts(lines@)),
{
    let mut builder = new_builder(root);
    let mut i: usize = 0;
    assert(texts(lines@).take(0) =~= Seq::<Seq<char>>::empty());
    while i < lines.len()
        invariant
            i <= lines.len(),
            builder_root(builder) == kept_root(root@),
            builder_patterns(builder) == kept_patterns(texts(lines@).take(i as int)),
        decreases lines.len() - i,
    {
        add_line(&mut builder, lines[i].as_str());
        i += 1;
        proof {
            let upto = texts(lines@).take(i as int);
            assert(upto.drop_last() =~= texts(lines@).take(i - 1));
            assert(upto.last() == lines@[i - 1]@);
        }
    }
    assert(texts(lines@).take(lines@.len() as int) =~= texts(lines@));
    build_matcher(&builder)
}

/// `Gitignore::matched` and `Match::is_ignore`: whether the patterns of the
/// matcher say that `path` is ignored.
#[verifier::external_body]
fn gitignore_ignores(matcher: &::ignore::gitignore::Gitignore, path: &str, is_dir: bool) -> (r: bool)
    ensures
        r == gitignore_verdict(
            gitignore_root(*matcher),
            gitignore_patterns(*matcher),
            path@,
            is_dir,
        ),
{
    matcher.matched(path, is_dir).is_ignore()
}

/// A line without the carriage return that stands at its end.
pub open spec fn without_cr(line: Seq<char>) -> Seq<char> {
    if line.len() > 0 && line.last() == '\r' {
        line.drop_last()
    } else {
        line
    }
}

/// The lines of a text: it is cut after each line feed; a carriage return
/// before a line feed goes with it; what follows the last line feed is a
/// line if it is not empty.
pub open spec fn lines_of(text: Seq<char>) -> Seq<Seq<char>>
    decreases text.len(),
{
    if text.len() == 0 {
        Seq::empty()
    } else {
        match crate::text::first_index_of(text, '\n') {
            None => seq![text],
            Some(i) => if 0 <= i < text.len() {
                seq![without_cr(text.take(i))] + lines_of(text.skip(i + 1))
            } else {
                seq![text]
            },
        }
    }
}

/// The byte order mark.
pub open spec fn bom() -> char {
    '\u{feff}'
}

/// A text without the byte order marks that it begins with.
pub open spec fn without_bom(text: Seq<char>) -> Seq<char>
    decreases text.len(),
{
    if text.len() > 0 && text[0] == bom() {
        without_bom(text.drop_first())
    } else {
        text
    }
}

/// The pattern lines of an ignore file: its lines, the first one without a
/// byte order mark.
pub open spec fn pattern_lines(content: Seq<char>) -> Seq<Seq<char>> {
    let lines = lines_of(content);
    if lines.len() == 0 {
        lines
    } else {
        lines.update(0, without_bom(lines[0]))
    }
}

/// Whether `name` is the first component of `path`.
pub open spec fn is_under(path: Seq<char>, name: Seq<char>) -> bool {
    path == name || (path.len() > name.len() && path.take(name.len() as int) == name
        && path[name.len() as int] == '/')
}

/// The directories that no scan enters, whatever the ignore file says:
/// `.mote`, `.git` and `.jj` in the root of the tree.
pub open spec fn is_hard_skipped(path: Seq<char>) -> bool {
    is_under(path, ".mote"@) || is_under(path, ".git"@) || is_under(path, ".jj"@)
}

/// The rules that the ignore file with this content gives, relative to
/// `root`: none without a file; with a file the patterns that are kept of
/// its lines, where a matcher can be built of them.
pub open spec fn rules_for(root: Seq<char>, content: Option<Seq<char>>) -> Option<
    (Seq<char>, Seq<Seq<char>>),
> {
    match content {
        None => None,
        Some(text) => {
            let patterns = kept_patterns(pattern_lines(text));
            if matcher_builds(patterns) {
                Some((kept_root(root), patterns))
            } else {
                None
            }
        },
    }
}

/// The patterns of an ignore file, ready to be matched.
pub struct IgnoreFilter {
    gitignore: Option<::ignore::gitignore::Gitignore>,
}

impl IgnoreFilter {
    /// The root and the patterns of the filter, where it has a matcher.
    pub closed spec fn rules(self) -> Option<(Seq<char>, Seq<Seq<char>>)> {
        match self.gitignore {
            Some(matcher) => Some((gitignore_root(matcher), gitignore_patterns(matcher))),
            None => None,
        }
    }

    /// Whether the patterns say that `path` is ignored.
    pub open spec fn ignores(self, path: Seq<char>, is_dir: bool) -> bool {
        match self.rules() {
            Some((root, patterns)) => gitignore_verdict(root, patterns, path, is_dir),
            None => false,
        }
    }

    /// Whether a scan passes over `path`.
    pub open spec fn passes_over(self, path: Seq<char>, is_dir: bool) -> bool {
        is_hard_skipped(path) || self.ignores(path, is_dir)
    }

    /// The filter that matches with `matcher`; without a matcher nothing
    /// is ignored.
    pub fn from_matcher(matcher: Option<::ignore::gitignore::Gitignore>) -> (filter: Self)
        ensures
            filter.rules() == match matcher {
                Some(m) => Some((gitignore_root(m), gitignore_patterns(m))),
                None => None,
            },
    {
        IgnoreFilter { gitignore: matcher }
    }

    /// The filter for the ignore file with this content, its patterns
    /// relative to `root`, the directory that holds the file. Without a
    /// file nothing is ignored. With a file the rules are the patterns
    /// among its lines, where a matcher can be built of them, which is so
    /// at least where there are none; where no matcher can be built,
    /// nothing is ignored.
    pub fn new(root: &str, content: Option<&str>) -> (filter: Self)
        ensures
            filter.rules() == rules_for(root@, crate::storage::location::option_text(content)),
            content is Some && kept_patterns(pattern_lines(content->0@)).len() == 0
                ==> filter.rules() is Some,
    {
        match content {
            None => Self::from_matcher(None),
            Some(text) => {
                let lines = read_patterns(text);
                Self::from_matcher(build_gitignore(root, &lines))
            },
        }
    }

    /// Whether the patterns say that `path`, relative to the root of the
    /// tree, is ignored.
    pub fn is_ignored(&self, path: &str, is_dir: bool) -> (r: bool)
        ensures
            r == self.ignores(path@, is_dir),
    {
        match &self.gitignore {
            Some(matcher) => gitignore_ignores(matcher, path, is_dir),
            None => false,
        }
    }

    /// Whether the walk visits `path`, relative to the root of the tree: a
    /// directory that is passed over is not entered.
    pub fn walk_files(&self, path: &str, is_dir: bool) -> (visit: bool)
        ensures
            visit == !self.passes_over(path@, is_dir),
    {
        !hard_skipped(path) && !self.is_ignored(path, is_dir)
    }
}

fn under(chars: &Vec<char>, name: &str) -> (r: bool)
    ensures
        r == is_under(chars@, name@),
{
    let name_chars = chars_of(name);
    if !matches_at(chars, &name_chars, 0) {
        assert(!is_under(chars@, name@)) by {
            if is_under(chars@, name@) {
                assert(chars@.take(name@.len() as int) =~= chars@.subrange(0, name@.len() as int));
                if chars@ == name@ {
                    assert(chars@.subrange(0, name@.len() as int) =~= name@);
                }
            }
        }
        return false;
    }
    assert(chars@.take(name@.len() as int) =~= chars@.subrange(0, name@.len() as int));
    if chars.len() == name_chars.len() {
        assert(chars@ =~= chars@.subrange(0, name@.len() as int));
        return true;
    }
    chars[name_chars.len()] == '/'
}

/// Whether `path` lies in one of the directories that no scan enters.
pub fn hard_skipped(path: &str) -> (r: bool)
    ensures
        r == is_hard_skipped(path@),
{
    let chars = chars_of(path);
    under(&chars, ".mote") || under(&chars, ".git") || under(&chars, ".jj")
}

/// The lines of `text`.
pub fn split_lines(text: &str) -> (lines: Vec<String>)
    ensures
        texts(lines@) == lines_of(text@),
{
    let chars = chars_of(text);
    let mut lines: Vec<String> = Vec::new();
    let mut start: usize = 0;
    let mut i: usize = 0;
    assert(chars@.skip(0) =~= chars@);
    assert(texts(lines@) =~= Seq::<Seq<char>>::empty());
    while i < chars.len()
        invariant
            start <= i <= chars.len(),
            chars@ == text@,
            forall|j: int| start <= j < i ==> chars@[j] != '\n',
            texts(lines@) + lines_of(chars@.skip(start as int)) == lines_of(chars@),
        decreases chars.len() - i,
    {
        if chars[i] == '\n' {
            let end = if i > start && chars[i - 1] == '\r' {
                i - 1
            } else {
                i
            };
            let line = string_of_range(&chars, start, end);
            proof {
                let rest = chars@.skip(start as int);
                lemma_first_line_feed(rest, i - start);
                assert(rest.take(i - start) =~= chars@.subrange(start as int, i as int));
                assert(line@ =~= without_cr(rest.take(i - start)));
                assert(rest.skip(i - start + 1) =~= chars@.skip(i + 1));
                assert(texts(lines@.push(line)) =~= texts(lines@) + seq![line@]);
            }
            lines.push(line);
            start = i + 1;
        }
        i += 1;
    }
    if start < chars.len() {
        let line = string_of_range(&chars, start, chars.len());
        proof {
            let rest = chars@.skip(start as int);
            lemma_no_line_feed(rest);
            assert(line@ =~= rest);
            assert(texts(lines@.push(line)) =~= texts(lines@) + seq![line@]);
        }
        lines.push(line);
    } else {
        assert(chars@.skip(start as int) =~= Seq::<char>::empty());
        assert(texts(lines@) + Seq::<Seq<char>>::empty() =~= texts(lines@));
    }
    lines
}

proof fn lemma_first_line_feed(text: Seq<char>, at: int)
    requires
        0 <= at < text.len(),
        text[at] == '\n',
        forall|j: int| 0 <= j < at ==> text[j] != '\n',
    ensures
        lines_of(text) == seq![without_cr(text.take(at))] + lines_of(text.skip(at + 1)),
{
    crate::text::lemma_first_index_of(text, '\n');
    assert(text.contains('\n'));
    let found = crate::text::first_index_of(text, '\n')->0;
    if found < at {
        assert(text[found] != '\n');
    }
}

proof fn lemma_no_line_feed(text: Seq<char>)
    requires
        text.len() > 0,
        forall|j: int| 0 <= j < text.len() ==> text[j] != '\n',
    ensures
        lines_of(text) == seq![text],
{
    crate::text::lemma_first_index_of(text, '\n');
    if crate::text::first_index_of(text, '\n') is Some {
        let found = crate::text::first_index_of(text, '\n')->0;
        assert(text[found] == '\n');
    }
}

fn strip_bom(line: &str) -> (out: String)
    ensures
        out@ == without_bom(line@),
{
    let chars = chars_of(line);
    let mut start: usize = 0;
    assert(chars@.skip(0) =~= chars@);
    while start < chars.len() && chars[start] == '\u{feff}'
        invariant
            start <= chars.len(),
            without_bom(chars@.skip(start as int)) == without_bom(chars@),
        decreases chars.len() - start,
    {
        proof {
            let rest = chars@.skip(start as int);
            assert(rest[0] == bom());
            assert(rest.drop_first() =~= chars@.skip(start + 1));
        }
        start += 1;
    }
    let out = string_of_range(&chars, start, chars.len());
    proof {
        let rest = chars@.skip(start as int);
        assert(out@ =~= rest);
        if rest.len() > 0 {
            assert(rest[0] == chars@[start as int]);
        }
    }
    out
}

/// The pattern lines of an ignore file with this content.
pub fn read_patterns(content: &str) -> (lines: Vec<String>)
    ensures
        texts(lines@) == pattern_lines(content@),
{
    let mut lines = split_lines(content);
    if lines.len() > 0 {
        let ghost before = lines@;
        let first = strip_bom(lines[0].as_str());
        lines[0] = first;
        assert(texts(lines@) =~= texts(before).update(0, first@));
    }
    lines
}

/// Where the last line ends that ends in a line feed: the position after
/// that line feed, or 0 where there is none.
pub open spec fn after_last_line_feed(bytes: Seq<u8>) -> int
    decreases bytes.len(),
{
    if bytes.len() == 0 {
        0
    } else if bytes.last() == 10u8 {
        bytes.len() as int
    } else {
        after_last_line_feed(bytes.drop_last())
    }
}

/// How much of the bytes of an ignore file is read, `valid` being the
/// place of the first byte that is no UTF-8, or the length where all of it
/// is text: all of a file that is text; else the whole lines before the
/// line with that byte.
pub fn readable_end(bytes: &[u8], valid: usize) -> (end: usize)
    requires
        valid <= bytes@.len(),
    ensures
        valid == bytes@.len() ==> end == valid,
        valid < bytes@.len() ==> end == after_last_line_feed(bytes@.take(valid as int)),
{
    if valid == bytes.len() {
        return valid;
    }
    let mut end: usize = valid;
    assert(bytes@.take(valid as int).take(end as int) =~= bytes@.take(valid as int));
    while end > 0 && bytes[end - 1] != 10u8
        invariant
            end <= valid <= bytes@.len(),
            after_last_line_feed(bytes@.take(end as int)) == after_last_line_feed(
                bytes@.take(valid as int),
            ),
        decreases end,
    {
        proof {
            let upto = bytes@.take(end as int);
            assert(upto.last() == bytes@[end - 1]);
            assert(upto.drop_last() =~= bytes@.take(end - 1));
        }
        end -= 1;
    }
    proof {
        let upto = bytes@.take(end as int);
        if end > 0 {
            assert(upto.last() == bytes@[end - 1]);
        }
    }
    end
}

/// What to write to make sure that an ignore file is there: its default
/// content, or nothing where a file exists, which is not overwritten.
pub fn create_ignore_file(exists: bool) -> (content: Option<String>)
    ensures
        exists ==> content is None,
        !exists ==> (content matches Some(text) && text@ == default_ignore_text()),
{
    if exists {
        None
    } else {
        Some(default_ignore_content())
    }
}

/// What a new ignore file holds.
pub fn default_ignore_content() -> (content: String)
    ensures
        content@ == default_ignore_text(),
{
    String::from_str(
        "# Mote ignore file\n# Uses gitignore syntax\n\n# Dependencies\nnode_modules/\nvendor/\n.venv/\nvenv/\n__pycache__/\n\n# Build outputs\ntarget/\ndist/\nbuild/\n*.o\n*.a\n*.so\n*.dylib\n\n# IDE and editor\n.idea/\n.vscode/\n*.swp\n*.swo\n*~\n\n# OS files\n.DS_Store\nThumbs.db\n\n# Logs\n*.log\nlogs/\n\n# Temporary files\n*.tmp\n*.temp\n.cache/\n",
    )
}

/// What a new ignore file holds.
pub open spec fn default_ignore_text() -> Seq<char> {
    "# Mote ignore file\n# Uses gitignore syntax\n\n# Dependencies\nnode_modules/\nvendor/\n.venv/\nvenv/\n__pycache__/\n\n# Build outputs\ntarget/\ndist/\nbuild/\n*.o\n*.a\n*.so\n*.dylib\n\n# IDE and editor\n.idea/\n.vscode/\n*.swp\n*.swo\n*~\n\n# OS files\n.DS_Store\nThumbs.db\n\n# Logs\n*.log\nlogs/\n\n# Temporary files\n*.tmp\n*.temp\n.cache/\n"@
}

} // verus!
