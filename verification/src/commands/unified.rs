//! Unified diffs: the content of the two sides of a change is read back
//! and compared as text. The line differences are the work of the
//! `similar` crate.

use vstd::prelude::*;
use crate::commands::diff::{change_views, Change, ChangeView};
use crate::error::MoteError;
use crate::storage::objects::{option_bytes, retrieve_failure, retrieved, ObjectStore};

verus! {

/// What a line of a hunk is: taken away, put in, or left as it was.
#[derive(Debug, Clone, Copy, PartialEq, Eq, Structural)]
pub enum LineTag {
    Delete,
    Insert,
    Equal,
}

/// One line of a hunk.
#[derive(Debug, Clone, PartialEq, Eq)]
pub struct DiffLine {
    pub tag: LineTag,
    /// The line with its line ending, where it has one.
    pub text: String,
    /// Whether the line has no line ending.
    pub missing_newline: bool,
}

/// One hunk of a unified diff.
#[derive(Debug, Clone, PartialEq, Eq)]
pub struct Hunk {
    /// The `@@ -a,b +c,d @@` of the hunk.
    pub header: String,
    pub lines: Vec<DiffLine>,
}

/// What a `DiffLine` says.
pub struct DiffLineView {
    pub tag: LineTag,
    pub text: Seq<char>,
    pub missing_newline: bool,
}

/// What a `Hunk` says.
pub struct HunkView {
    pub header: Seq<char>,
    pub lines: Seq<DiffLineView>,
}

impl View for DiffLine {
    type V = DiffLineView;

    open spec fn view(&self) -> DiffLineView {
        DiffLineView { tag: self.tag, text: self.text@, missing_newline: self.missing_newline }
    }
}

impl View for Hunk {
    type V = HunkView;

    open spec fn view(&self) -> HunkView {
        HunkView { header: self.header@, lines: self.lines@.map_values(|l: DiffLine| l@) }
    }
}

/// What a sequence of hunks says.
pub open spec fn hunk_views(hunks: Seq<Hunk>) -> Seq<HunkView> {
    hunks.map_values(|h: Hunk| h@)
}

/// The text that `String::from_utf8_lossy` gives for a byte sequence.
pub uninterp spec fn utf8_lossy(bytes: Seq<u8>) -> Seq<char>;

/// The hunks of the line diff of two texts with `radius` lines of context,
/// as `similar::TextDiff::from_lines` and its unified diff give them.
pub uninterp spec fn line_hunks(old: Seq<char>, new: Seq<char>, radius: int) -> Seq<HunkView>;

/// `String::from_utf8_lossy`: the text of `bytes`, with the replacement
/// character for what is no UTF-8.
#[verifier::external_body]
fn lossy_text(bytes: &[u8]) -> (text: String)
    ensures
        text@ == utf8_lossy(bytes@),
{
    String::from_utf8_lossy(bytes).into_owned()
}

/// `similar::TextDiff::from_lines`, `unified_diff`, `context_radius` and
/// `iter_hunks`: the hunks of the line diff of `old` and `new`, each with
/// its header and its lines. The radius is doubled inside, so it is bounded.
#[verifier::external_body]
fn similar_hunks(old: &str, new: &str, radius: usize) -> (hunks: Vec<Hunk>)
    requires
        radius <= usize::MAX / 2,
    ensures
        hunk_views(hunks@) == line_hunks(old@, new@, radius as int),
{
    let diff = similar::TextDiff::from_lines(old, new);
    let mut hunks = Vec::new();
    for hunk in diff.unified_diff().context_radius(radius).iter_hunks() {
        let mut lines = Vec::new();
        for change in hunk.iter_changes() {
            let (text, missing_newline) = (change.value().to_string(), change.missing_newline());
            lines.push(match change.tag() {
                similar::ChangeTag::Delete => DiffLine { tag: LineTag::Delete, text, missing_newline },
                similar::ChangeTag::Insert => DiffLine { tag: LineTag::Insert, text, missing_newline },
                similar::ChangeTag::Equal => DiffLine { tag: LineTag::Equal, text, missing_newline },
            });
        }
        hunks.push(Hunk { header: hunk.header().to_string(), lines });
    }
    hunks
}

/// The sign of a line of a hunk.
pub open spec fn tag_sign(tag: LineTag) -> char {
    match tag {
        LineTag::Delete => '-',
        LineTag::Insert => '+',
        LineTag::Equal => ' ',
    }
}

/// A line of a hunk as it is shown: its sign, then the line; a line
/// without a line ending is closed, and a note says that it had none.
pub open spec fn shown_line(line: DiffLineView) -> Seq<char> {
    if line.missing_newline {
        seq![tag_sign(line.tag)] + line.text + "\n\\ No newline at end of file\n"@
    } else {
        seq![tag_sign(line.tag)] + line.text
    }
}

/// The lines of a hunk as they are shown.
pub open spec fn shown_lines(lines: Seq<DiffLineView>) -> Seq<char>
    decreases lines.len(),
{
    if lines.len() == 0 {
        Seq::empty()
    } else {
        shown_lines(lines.drop_last()) + shown_line(lines.last())
    }
}

/// A hunk as it is shown: its header on a line, then its lines.
pub open spec fn shown_hunk(hunk: HunkView) -> Seq<char> {
    hunk.header + seq!['\n'] + shown_lines(hunk.lines)
}

/// The hunks as they are shown, one after the other.
pub open spec fn shown_hunks(hunks: Seq<HunkView>) -> Seq<char>
    decreases hunks.len(),
{
    if hunks.len() == 0 {
        Seq::empty()
    } else {
        shown_hunks(hunks.drop_last()) + shown_hunk(hunks.last())
    }
}

/// The three lines that stand before the hunks of a path.
pub open spec fn file_heading(path: Seq<char>) -> Seq<char> {
    "diff --mote a/"@ + path + " b/"@ + path + "\n--- a/"@ + path + "\n+++ b/"@ + path + "\n"@
}

/// The unified diff of one path, from the texts of its two sides: nothing
/// where both are empty; else the heading of the path, the hunks, and an
/// empty line.
pub open spec fn file_diff_text(
    path: Seq<char>,
    old_text: Seq<char>,
    new_text: Seq<char>,
    radius: int,
) -> Seq<char> {
    if old_text.len() == 0 && new_text.len() == 0 {
        Seq::empty()
    } else {
        file_heading(path) + shown_hunks(line_hunks(old_text, new_text, radius)) + seq!['\n']
    }
}

/// The hunks as they are shown.
pub fn render_hunks(hunks: &Vec<Hunk>) -> (out: String)
    ensures
        out@ == shown_hunks(hunk_views(hunks@)),
{
    let mut out = String::new();
    let mut h: usize = 0;
    assert(hunk_views(hunks@).take(0) =~= Seq::<HunkView>::empty());
    while h < hunks.len()
        invariant
            h <= hunks.len(),
            out@ == shown_hunks(hunk_views(hunks@).take(h as int)),
        decreases hunks.len() - h,
    {
        let ghost was = out@;
        let hunk = &hunks[h];
        out.append(hunk.header.as_str());
        out.push('\n');
        let ghost head = out@;
        let mut l: usize = 0;
        assert(hunk@.lines.take(0) =~= Seq::<DiffLineView>::empty());
        assert(out@ =~= head + shown_lines(hunk@.lines.take(0)));
        while l < hunk.lines.len()
            invariant
                l <= hunk.lines.len(),
                out@ == head + shown_lines(hunk@.lines.take(l as int)),
            decreases hunk.lines.len() - l,
        {
            let ghost before = out@;
            let line = &hunk.lines[l];
            let sign = match line.tag {
                LineTag::Delete => '-',
                LineTag::Insert => '+',
                LineTag::Equal => ' ',
            };
            out.push(sign);
            out.append(line.text.as_str());
            if line.missing_newline {
                out.append("\n\\ No newline at end of file\n");
            }
            l += 1;
            proof {
                let lines = hunk@.lines;
                assert(lines.take(l as int).drop_last() =~= lines.take(l - 1));
                assert(lines.take(l as int).last() == line@);
                assert(out@ =~= before + shown_line(line@));
            }
        }
        h += 1;
        proof {
            let views = hunk_views(hunks@);
            assert(hunk@.lines.take(hunk@.lines.len() as int) =~= hunk@.lines);
            assert(views.take(h as int).drop_last() =~= views.take(h - 1));
            assert(views.take(h as int).last() == hunk@);
            assert(out@ =~= was + shown_hunk(hunk@));
        }
    }
    assert(hunk_views(hunks@).take(hunks@.len() as int) =~= hunk_views(hunks@));
    out
}

/// The unified diff of one path, from the bytes of its two sides, read as
/// text. A side that the path does not have is empty.
pub fn generate_unified_diff_with_content(path: &str, old: &[u8], new: &[u8], radius: usize) -> (out: String)
    requires
        radius <= usize::MAX / 2,
    ensures
        out@ == file_diff_text(path@, utf8_lossy(old@), utf8_lossy(new@), radius as int),
{
    let old_text = lossy_text(old);
    let new_text = lossy_text(new);
    let hunks = similar_hunks(old_text.as_str(), new_text.as_str(), radius);
    unified_text_diff(path, old_text.as_str(), new_text.as_str(), &hunks)
}

/// The unified diff of one path from the texts of its sides and the hunks
/// of their line diff.
pub fn unified_text_diff(path: &str, old_text: &str, new_text: &str, hunks: &Vec<Hunk>) -> (out:
    String)
    ensures
        old_text@.len() == 0 && new_text@.len() == 0 ==> out@ == Seq::<char>::empty(),
        !(old_text@.len() == 0 && new_text@.len() == 0) ==> out@ == file_heading(path@)
            + shown_hunks(hunk_views(hunks@)) + seq!['\n'],
{
    if old_text.is_empty() && new_text.is_empty() {
        return String::new();
    }
    let mut out = String::from_str("diff --mote a/");
    out.append(path);
    out.append(" b/");
    out.append(path);
    out.append("\n--- a/");
    out.append(path);
    out.append("\n+++ b/");
    out.append(path);
    out.append("\n");
    let shown = render_hunks(hunks);
    out.append(shown.as_str());
    out.push('\n');
    out
}

/// The frames found at the object paths of the two sides of a change:
/// nothing where the object is not there, or where the side does not
/// hold the path.
#[derive(Debug, Clone, PartialEq, Eq)]
pub struct Fetched {
    pub old: Option<Vec<u8>>,
    pub new: Option<Vec<u8>>,
}

/// The bytes of an optional vector.
pub open spec fn vec_bytes(stored: Option<Vec<u8>>) -> Option<Seq<u8>> {
    match stored {
        Some(bytes) => Some(bytes@),
        None => None,
    }
}

/// The content of one side of a change: empty where the side does not
/// hold the path or its object is not there; else what the object gives.
/// Nothing where the object cannot be read back.
pub open spec fn side_bytes(hash: Option<Seq<char>>, stored: Option<Seq<u8>>) -> Option<Seq<u8>> {
    match hash {
        None => Some(Seq::empty()),
        Some(h) => match stored {
            None => Some(Seq::empty()),
            Some(frame) => retrieved(h, Some(frame)),
        },
    }
}

/// Whether the object of a side is not there.
pub open spec fn side_missing(hash: Option<Seq<char>>, stored: Option<Seq<u8>>) -> bool {
    hash is Some && stored is None
}

/// The content of one side of a change.
#[derive(Debug, Clone, PartialEq, Eq)]
pub struct SideContent {
    pub bytes: Vec<u8>,
    /// Whether the object of the side was not there; its content then
    /// counts as empty.
    pub missing: bool,
}

/// The content of one side of a change. An object that is not there
/// counts as empty content; one that cannot be read back is a failure.
pub fn side_content(hash: Option<&str>, stored: Option<&[u8]>) -> (r: Result<
    SideContent,
    MoteError,
>)
    ensures
        match side_bytes(crate::storage::location::option_text(hash), option_bytes(stored)) {
            Some(bytes) => r matches Ok(side) && side.bytes@ == bytes && side.missing
                == side_missing(crate::storage::location::option_text(hash), option_bytes(stored)),
            None => r matches Err(e) && retrieve_failure(hash->0@, option_bytes(stored), e),
        },
{
    match hash {
        None => Ok(SideContent { bytes: Vec::new(), missing: false }),
        Some(h) => match stored {
            None => Ok(SideContent { bytes: Vec::new(), missing: true }),
            Some(frame) => match ObjectStore::retrieve(h, Some(frame)) {
                Ok(bytes) => Ok(SideContent { bytes, missing: false }),
                Err(e) => Err(e),
            },
        },
    }
}

/// What a comparison gives: the text to show, and the hashes whose objects
/// were not there, in the order in which they were asked for.
#[derive(Debug, Clone, PartialEq, Eq)]
pub struct DiffReport {
    pub text: String,
    pub missing: Vec<String>,
}

/// The unified diff of one change between two snapshots, if both sides can
/// be read back.
pub open spec fn change_text(change: ChangeView, fetched: Fetched, radius: int) -> Option<
    Seq<char>,
> {
    match side_bytes(change.new_hash, vec_bytes(fetched.new)) {
        None => None,
        Some(new) => match side_bytes(change.old_hash, vec_bytes(fetched.old)) {
            None => None,
            Some(old) => Some(file_diff_text(change.path, utf8_lossy(old), utf8_lossy(new), radius)),
        },
    }
}

/// The side of a change that cannot be read back, the new one before the
/// old one: its hash and what lies at its object path.
pub open spec fn change_fault(change: ChangeView, fetched: Fetched) -> (
    Seq<char>,
    Option<Seq<u8>>,
) {
    if side_bytes(change.new_hash, vec_bytes(fetched.new)) is None {
        (change.new_hash->0, vec_bytes(fetched.new))
    } else {
        (change.old_hash->0, vec_bytes(fetched.old))
    }
}

/// The first of the first `n` changes of which a side cannot be read back.
pub open spec fn first_unreadable(
    changes: Seq<ChangeView>,
    fetched: Seq<Fetched>,
    radius: int,
    n: int,
) -> int
    decreases n,
{
    if n <= 0 {
        0
    } else if changes_text(changes, fetched, radius, n - 1) is None {
        first_unreadable(changes, fetched, radius, n - 1)
    } else {
        n - 1
    }
}

/// Whether `e` is the failure that stops the comparison of the first `n`
/// changes: that of the first side that cannot be read back.
pub open spec fn stops_at(
    changes: Seq<ChangeView>,
    fetched: Seq<Fetched>,
    radius: int,
    n: int,
    e: MoteError,
) -> bool {
    let k = first_unreadable(changes, fetched, radius, n);
    let fault = change_fault(changes[k], fetched[k]);
    retrieve_failure(fault.0, fault.1, e)
}

/// The hashes of a change whose objects were not there: of the new side,
/// then of the old one.
pub open spec fn change_missing(change: ChangeView, fetched: Fetched) -> Seq<Seq<char>> {
    let new = if side_missing(change.new_hash, vec_bytes(fetched.new)) {
        seq![change.new_hash->0]
    } else {
        Seq::empty()
    };
    if side_missing(change.old_hash, vec_bytes(fetched.old)) {
        new.push(change.old_hash->0)
    } else {
        new
    }
}

/// The unified diffs of the first `n` changes in a row, if all their sides
/// can be read back.
pub open spec fn changes_text(
    changes: Seq<ChangeView>,
    fetched: Seq<Fetched>,
    radius: int,
    n: int,
) -> Option<Seq<char>>
    decreases n,
{
    if n <= 0 {
        Some(Seq::empty())
    } else {
        match changes_text(changes, fetched, radius, n - 1) {
            None => None,
            Some(before) => match change_text(changes[n - 1], fetched[n - 1], radius) {
                None => None,
                Some(text) => Some(before + text),
            },
        }
    }
}

/// The hashes of the first `n` changes whose objects were not there.
pub open spec fn changes_missing(changes: Seq<ChangeView>, fetched: Seq<Fetched>, n: int) -> Seq<
    Seq<char>,
>
    decreases n,
{
    if n <= 0 {
        Seq::empty()
    } else {
        changes_missing(changes, fetched, n - 1) + change_missing(changes[n - 1], fetched[n - 1])
    }
}

pub(crate) fn hash_of(hash: &Option<String>) -> (out: Option<&str>)
    ensures
        crate::storage::location::option_text(out) == crate::commands::owned_text(*hash),
{
    match hash {
        Some(h) => Some(h.as_str()),
        None => None,
    }
}

pub(crate) fn frame_of(stored: &Option<Vec<u8>>) -> (out: Option<&[u8]>)
    ensures
        option_bytes(out) == vec_bytes(*stored),
{
    match stored {
        Some(bytes) => Some(bytes.as_slice()),
        None => None,
    }
}

/// What the comparison of one change gives: the text, and the hashes of
/// its sides whose objects were not there.
#[derive(Debug, Clone, PartialEq, Eq)]
pub struct ChangeDiff {
    pub text: String,
    pub missing: Vec<String>,
}

/// The unified diff of one change: the content of its new side and of its
/// old side is read back from what lies at their object paths, a missing
/// object counting as empty content, and the two are compared as text.
pub fn generate_unified_diff(change: &Change, fetched: &Fetched, radius: usize) -> (r: Result<
    ChangeDiff,
    MoteError,
>)
    requires
        radius <= usize::MAX / 2,
    ensures
        match change_text(change@, *fetched, radius as int) {
            Some(text) => r matches Ok(diff) && diff.text@ == text && crate::text::texts(
                diff.missing@,
            ) == change_missing(change@, *fetched),
            None => r matches Err(e) && retrieve_failure(
                change_fault(change@, *fetched).0,
                change_fault(change@, *fetched).1,
                e,
            ),
        },
{
    let mut missing: Vec<String> = Vec::new();
    let new = match side_content(hash_of(&change.new_hash), frame_of(&fetched.new)) {
        Ok(side) => side,
        Err(e) => {
            return Err(e);
        },
    };
    if new.missing {
        match &change.new_hash {
            Some(h) => {
                missing.push(h.clone());
            },
            None => {},
        }
    }
    let ghost mid = missing@;
    let old = match side_content(hash_of(&change.old_hash), frame_of(&fetched.old)) {
        Ok(side) => side,
        Err(e) => {
            return Err(e);
        },
    };
    if old.missing {
        match &change.old_hash {
            Some(h) => {
                missing.push(h.clone());
            },
            None => {},
        }
    }
    let text = generate_unified_diff_with_content(
        change.path.as_str(),
        old.bytes.as_slice(),
        new.bytes.as_slice(),
        radius,
    );
    assert(crate::text::texts(missing@) =~= change_missing(change@, *fetched));
    Ok(ChangeDiff { text, missing })
}

/// The unified diffs of `changes`, one after the other. `fetched` holds for
/// each change what lies at the object paths of its two sides.
pub fn render_unified(changes: &Vec<Change>, fetched: &Vec<Fetched>, radius: usize) -> (r: Result<
    DiffReport,
    MoteError,
>)
    requires
        fetched@.len() == changes@.len(),
        radius <= usize::MAX / 2,
    ensures
        match changes_text(change_views(changes@), fetched@, radius as int, changes@.len() as int) {
            Some(text) => r matches Ok(report) && report.text@ == text && crate::text::texts(
                report.missing@,
            ) == changes_missing(change_views(changes@), fetched@, changes@.len() as int),
            None => r matches Err(e) && stops_at(
                change_views(changes@),
                fetched@,
                radius as int,
                changes@.len() as int,
                e,
            ),
        },
{
    let mut text = String::new();
    let mut missing: Vec<String> = Vec::new();
    let ghost views = change_views(changes@);
    let mut k: usize = 0;
    while k < changes.len()
        invariant
            k <= changes.len(),
            fetched@.len() == changes@.len(),
            radius <= usize::MAX / 2,
            views == change_views(changes@),
            changes_text(views, fetched@, radius as int, k as int) == Some(text@),
            crate::text::texts(missing@) == changes_missing(views, fetched@, k as int),
        decreases changes.len() - k,
    {
        let change = &changes[k];
        let found = &fetched[k];
        let ghost was_missing = missing@;
        assert(views[k as int] == change@);
        match generate_unified_diff(change, found, radius) {
            Ok(diff) => {
                text.append(diff.text.as_str());
                let mut more = diff.missing;
                let ghost added = more@;
                missing.append(&mut more);
                assert(crate::text::texts(missing@) =~= crate::text::texts(
                    was_missing,
                ) + crate::text::texts(added));
            },
            Err(e) => {
                proof {
                    lemma_text_stays_none(views, fetched@, radius as int, k + 1, changes@.len() as int);
                    lemma_first_unreadable(views, fetched@, radius as int, k as int, changes@.len() as int);
                }
                return Err(e);
            },
        }
        k += 1;
    }
    Ok(DiffReport { text, missing })
}

proof fn lemma_text_stays_none(
    changes: Seq<ChangeView>,
    fetched: Seq<Fetched>,
    radius: int,
    from: int,
    to: int,
)
    requires
        0 <= from <= to,
        changes_text(changes, fetched, radius, from) is None,
    ensures
        changes_text(changes, fetched, radius, to) is None,
    decreases to - from,
{
    if from < to {
        lemma_text_stays_none(changes, fetched, radius, from, to - 1);
    }
}

proof fn lemma_first_unreadable(
    changes: Seq<ChangeView>,
    fetched: Seq<Fetched>,
    radius: int,
    at: int,
    n: int,
)
    requires
        0 <= at < n,
        changes_text(changes, fetched, radius, at) is Some,
        changes_text(changes, fetched, radius, at + 1) is None,
    ensures
        first_unreadable(changes, fetched, radius, n) == at,
    decreases n - at,
{
    if n > at + 1 {
        lemma_text_stays_none(changes, fetched, radius, at + 1, n - 1);
        lemma_first_unreadable(changes, fetched, radius, at, n - 1);
    }
}

} // verus!
