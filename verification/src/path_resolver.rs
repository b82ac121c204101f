//! Paths as text with `/` between the components, and how one path is
//! resolved against another.

use vstd::prelude::*;
use crate::text::{chars_of, string_of_range};

verus! {

/// A path that starts at the root of the file system.
pub open spec fn is_absolute_path(path: Seq<char>) -> bool {
    path.len() > 0 && path[0] == '/'
}

/// `segment` appended to `base`: an absolute `segment` takes the place of
/// `base`; otherwise one `/` separates the two, unless `base` is empty or
/// ends in one.
pub open spec fn join_spec(base: Seq<char>, segment: Seq<char>) -> Seq<char> {
    if is_absolute_path(segment) {
        segment
    } else if base.len() == 0 || base.last() == '/' {
        base + segment
    } else {
        base + seq!['/'] + segment
    }
}

/// Whether `path` starts at the root of the file system.
pub fn is_absolute(path: &str) -> (r: bool)
    ensures
        r == is_absolute_path(path@),
{
    let chars = chars_of(path);
    chars.len() > 0 && chars[0] == '/'
}

/// `segment` appended to `base`.
pub fn join(base: &str, segment: &str) -> (out: String)
    ensures
        out@ == join_spec(base@, segment@),
{
    if is_absolute(segment) {
        return String::from_str(segment);
    }
    let chars = chars_of(base);
    let mut out = String::from_str(base);
    if chars.len() > 0 && chars[chars.len() - 1] != '/' {
        out.push('/');
    }
    out.append(segment);
    out
}

/// Resolves `path` against `base`: an absolute path stays as it is, a
/// relative one is joined to `base`.
pub fn resolve_path(base: &str, path: &str) -> (out: String)
    ensures
        is_absolute_path(path@) ==> out@ == path@,
        !is_absolute_path(path@) ==> out@ == join_spec(base@, path@),
{
    if is_absolute(path) {
        String::from_str(path)
    } else {
        join(base, path)
    }
}

/// The ignore file to use: the path from the command line, resolved against
/// the project root, or else `default_name` in the project root.
pub fn resolve_ignore_file_path(
    project_root: &str,
    cli_path: Option<&str>,
    default_name: &str,
) -> (out: String)
    ensures
        match cli_path {
            Some(path) => out@ == join_spec(project_root@, path@),
            None => out@ == join_spec(project_root@, default_name@),
        },
{
    match cli_path {
        Some(path) => resolve_path(project_root, path),
        None => join(project_root, default_name),
    }
}

/// Whether `..` stands in `path` as a component that begins at `at`.
pub open spec fn parent_at(path: Seq<char>, at: int) -> bool {
    0 <= at && at + 2 <= path.len() && path[at] == '.' && path[at + 1] == '.' && (at == 0
        || path[at - 1] == '/') && (at + 2 == path.len() || path[at + 2] == '/')
}

/// Whether `..` is a component of `path`.
pub open spec fn has_parent_component(path: Seq<char>) -> bool {
    exists|at: int| parent_at(path, at)
}

/// A path inside a tree: relative to its root, and without a step back
/// to a parent.
pub open spec fn is_tree_path(path: Seq<char>) -> bool {
    !is_absolute_path(path) && !has_parent_component(path)
}

/// Whether `path` is a path inside a tree.
pub fn tree_path(path: &str) -> (r: bool)
    ensures
        r == is_tree_path(path@),
{
    let chars = chars_of(path);
    if chars.len() > 0 && chars[0] == '/' {
        return false;
    }
    if chars.len() < 2 {
        assert forall|at: int| !parent_at(chars@, at) by {}
        return true;
    }
    let last: usize = chars.len() - 2;
    let mut i: usize = 0;
    while i <= last
        invariant
            last == chars.len() - 2,
            i <= last + 1,
            chars@ == path@,
            forall|k: int| 0 <= k < i ==> !parent_at(chars@, k),
        decreases last + 1 - i,
    {
        if chars[i] == '.' && chars[i + 1] == '.' && (i == 0 || chars[i - 1] == '/') && (i + 2
            == chars.len() || chars[i + 2] == '/') {
            assert(parent_at(chars@, i as int));
            return false;
        }
        i += 1;
    }
    assert forall|at: int| !parent_at(chars@, at) by {}
    true
}

/// A path without the slashes that it ends with.
pub open spec fn without_trailing_slashes(path: Seq<char>) -> Seq<char>
    decreases path.len(),
{
    if path.len() > 0 && path.last() == '/' {
        without_trailing_slashes(path.drop_last())
    } else {
        path
    }
}

/// Whether `path` lies below the directory `base`: it holds more
/// components than `base`, and those of `base` first.
pub open spec fn lies_below(path: Seq<char>, base: Seq<char>) -> bool {
    let root = without_trailing_slashes(base);
    root.len() < path.len() && path.take(root.len() as int) == root && path[root.len() as int]
        == '/'
}

/// Whether `path` is the directory `base` or lies below it.
pub open spec fn lies_within(path: Seq<char>, base: Seq<char>) -> bool {
    path == without_trailing_slashes(base) || lies_below(path, base)
}

/// `path` relative to `root`, where it lies in `root`; else `path` as it
/// is.
pub open spec fn stripped(root: Seq<char>, path: Seq<char>) -> Seq<char> {
    if path == without_trailing_slashes(root) {
        Seq::empty()
    } else if lies_below(path, root) {
        path.skip(without_trailing_slashes(root).len() as int + 1)
    } else {
        path
    }
}

fn trimmed_len(root: &Vec<char>) -> (end: usize)
    ensures
        end <= root@.len(),
        root@.take(end as int) == without_trailing_slashes(root@),
{
    let mut end: usize = root.len();
    assert(root@.take(end as int) =~= root@);
    while end > 0 && root[end - 1] == '/'
        invariant
            end <= root.len(),
            without_trailing_slashes(root@.take(end as int)) == without_trailing_slashes(root@),
        decreases end,
    {
        proof {
            assert(root@.take(end as int).drop_last() =~= root@.take(end - 1));
        }
        end -= 1;
    }
    proof {
        let kept = root@.take(end as int);
        if kept.len() > 0 {
            assert(kept.last() == root@[end - 1]);
        }
    }
    end
}

fn same_start(a: &Vec<char>, b: &Vec<char>, n: usize) -> (r: bool)
    requires
        n <= a@.len(),
        n <= b@.len(),
    ensures
        r == (a@.take(n as int) == b@.take(n as int)),
{
    let mut i: usize = 0;
    while i < n
        invariant
            i <= n <= a@.len(),
            n <= b@.len(),
            forall|j: int| 0 <= j < i ==> a@[j] == b@[j],
        decreases n - i,
    {
        if a[i] != b[i] {
            assert(a@.take(n as int)[i as int] != b@.take(n as int)[i as int]);
            return false;
        }
        i += 1;
    }
    assert(a@.take(n as int) =~= b@.take(n as int));
    true
}

/// Whether `path` is the directory `base` or lies below it.
pub fn starts_with_path(path: &str, base: &str) -> (r: bool)
    ensures
        r == lies_within(path@, base@),
{
    let root = chars_of(base);
    let chars = chars_of(path);
    let end = trimmed_len(&root);
    if chars.len() < end {
        return false;
    }
    let same = same_start(&chars, &root, end);
    if chars.len() == end {
        assert(chars@.take(end as int) =~= chars@);
        return same;
    }
    same && chars[end] == '/'
}

/// `path` relative to `root`, where it lies in `root`; else `path` as it
/// is.
pub fn strip_prefix(path: &str, root: &str) -> (out: String)
    ensures
        out@ == stripped(root@, path@),
{
    let base = chars_of(root);
    let chars = chars_of(path);
    let end = trimmed_len(&base);
    if chars.len() < end {
        return String::from_str(path);
    }
    let same = same_start(&chars, &base, end);
    if chars.len() == end {
        assert(chars@.take(end as int) =~= chars@);
        if same {
            return String::new();
        } else {
            return String::from_str(path);
        }
    }
    if !same || chars[end] != '/' {
        return String::from_str(path);
    }
    let out = string_of_range(&chars, end + 1, chars.len());
    assert(out@ =~= chars@.skip(end as int + 1));
    out
}

} // verus!
