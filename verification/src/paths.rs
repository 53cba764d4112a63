//! File-system paths held as text, and the std path operations on them.

use vstd::prelude::*;

use crate::text::{seq_contains, seq_ends_with, seq_starts_with, str_eq, views};

verus! {

/// What std `Path::parent` gives for a path (it depends on the platform's
/// separators).
pub uninterp spec fn spec_path_parent(p: Seq<char>) -> Option<Seq<char>>;

/// What std `Path::file_name` gives for a path.
pub uninterp spec fn spec_file_name(p: Seq<char>) -> Option<Seq<char>>;

/// What std `Path::starts_with` says of a path and a base (whole components).
pub uninterp spec fn spec_path_starts_with(p: Seq<char>, base: Seq<char>) -> bool;

/// A relative path (with `/` between components) that has a `..`
/// component.
pub open spec fn has_parent_segment(rel: Seq<char>) -> bool {
    rel == ".."@ || seq_starts_with(rel, "../"@) || seq_ends_with(rel, "/.."@) || seq_contains(rel, "/../"@)
}

/// A path that begins with a Windows drive prefix: an ASCII letter and `:`
/// (std parses `C:x` as drive `C:` and the relative `x`).
pub open spec fn has_drive_prefix(rel: Seq<char>) -> bool {
    rel.len() >= 2 && (('a' <= rel[0] <= 'z') || ('A' <= rel[0] <= 'Z')) && rel[1] == ':'
}

/// What std `Path::join` gives for a base and a relative path.
pub uninterp spec fn spec_path_join(base: Seq<char>, rel: Seq<char>) -> Seq<char>;

/// std `Path::new(p).parent()`: the path without its last component; the
/// empty path has none (as documented).
#[verifier::external_body]
pub(crate) fn path_parent(p: &str) -> (r: Option<String>)
    ensures
        r matches Some(q) ==> q@ == spec_path_parent(p@)->0,
        r is None <==> spec_path_parent(p@) is None,
        p@.len() == 0 ==> r is None,
{
    std::path::Path::new(p).parent().map(|q| q.to_string_lossy().to_string())
}

/// std `Path::new(p).file_name()`: the last component, if it is a name.
#[verifier::external_body]
pub(crate) fn path_file_name(p: &str) -> (r: Option<String>)
    ensures
        r matches Some(q) ==> q@ == spec_file_name(p@)->0,
        r is None <==> spec_file_name(p@) is None,
{
    std::path::Path::new(p).file_name().map(|q| q.to_string_lossy().to_string())
}

/// std `Path::new(p).starts_with(base)`.
#[verifier::external_body]
pub(crate) fn path_starts_with(p: &str, base: &str) -> (r: bool)
    ensures
        r == spec_path_starts_with(p@, base@),
{
    std::path::Path::new(p).starts_with(base)
}

/// std `Path::new(base).join(rel)`. As `PathBuf::push` documents, a path
/// without a root or a prefix is adjoined to the base, component by
/// component (under a verbatim base, `\\?\...`, `.` and `..` components of
/// the pushed path are resolved against it); `Path::starts_with` compares
/// whole components, so such a join of a path with no `..` component starts
/// with its base. A path that starts with neither `/` nor `\\` and holds no
/// `:` has neither a root nor a prefix, on Unix and on Windows.
#[verifier::external_body]
pub(crate) fn path_join(base: &str, rel: &str) -> (r: String)
    ensures
        r@ == spec_path_join(base@, rel@),
        !seq_starts_with(rel@, "/"@) && !seq_contains(rel@, "\\"@) && !has_drive_prefix(rel@)
            && !has_parent_segment(rel@) ==> spec_path_starts_with(r@, base@),
{
    std::path::Path::new(base).join(rel).to_string_lossy().to_string()
}

/// std `Path::exists`: whether something is on disk at `p`. This depends on
/// the disk, so nothing is stated of the result.
#[verifier::external_body]
pub(crate) fn path_exists(p: &str) -> (r: bool) {
    std::path::Path::new(p).exists()
}

} // verus!

verus! {

/// What std `Path` equality says of two paths (whole components).
pub uninterp spec fn spec_path_eq(a: Seq<char>, b: Seq<char>) -> bool;

/// std `Path::new(a) == Path::new(b)`.
#[verifier::external_body]
pub(crate) fn path_eq(a: &str, b: &str) -> (r: bool)
    ensures
        r == spec_path_eq(a@, b@),
{
    std::path::Path::new(a) == std::path::Path::new(b)
}

} // verus!

verus! {

/// What std `Path::file_stem` gives for a path.
pub uninterp spec fn spec_file_stem(p: Seq<char>) -> Option<Seq<char>>;

/// std `Path::new(p).file_stem()`: the file name without its extension.
#[verifier::external_body]
pub(crate) fn path_file_stem(p: &str) -> (r: Option<String>)
    ensures
        r matches Some(q) ==> q@ == spec_file_stem(p@)->0,
        r is None <==> spec_file_stem(p@) is None,
{
    std::path::Path::new(p).file_stem().map(|q| q.to_string_lossy().to_string())
}

} // verus!

verus! {

/// What std `Path::is_absolute` says of a path.
pub uninterp spec fn spec_is_absolute(p: Seq<char>) -> bool;

/// std `Path::new(p).is_absolute()`.
#[verifier::external_body]
pub(crate) fn path_is_absolute(p: &str) -> (r: bool)
    ensures
        r == spec_is_absolute(p@),
{
    std::path::Path::new(p).is_absolute()
}

/// The texts of the components that std `Path::components` yields for a path.
pub uninterp spec fn spec_path_components(p: Seq<char>) -> Seq<Seq<char>>;

/// std `Path::new(p).components()`, each component taken as its text
/// (`Component::as_os_str`). std documents the text of `ParentDir` as `..` and
/// that of `CurDir` as `.`; a `Normal` component is never either of them.
#[verifier::external_body]
pub(crate) fn path_components(p: &str) -> (r: Vec<String>)
    ensures
        views(r@) == spec_path_components(p@),
{
    std::path::Path::new(p).components().map(|c| c.as_os_str().to_string_lossy().to_string()).collect()
}

/// The path that the components `parts` give when they are pushed one by one
/// onto an empty path, `..` dropping the last component (none on a path
/// without parent) and `.` doing nothing.
pub open spec fn normalized(parts: Seq<Seq<char>>) -> Seq<char>
    decreases parts.len(),
{
    if parts.len() == 0 {
        Seq::empty()
    } else {
        let acc = normalized(parts.drop_last());
        let c = parts.last();
        if c == ".."@ {
            match spec_path_parent(acc) {
                Some(q) => q,
                None => acc,
            }
        } else if c == "."@ {
            acc
        } else {
            spec_path_join(acc, c)
        }
    }
}

/// Lexical normalisation of a path: its components folded as `normalized`
/// says. The path need not exist.
pub fn normalize_path(p: &str) -> (r: String)
    ensures
        r@ == normalized(spec_path_components(p@)),
{
    let parts = path_components(p);
    let ghost pv = views(parts@);
    let mut acc = String::new();
    let mut i: usize = 0;
    while i < parts.len()
        invariant
            i <= parts@.len(),
            pv == views(parts@),
            pv == spec_path_components(p@),
            acc@ == normalized(pv.take(i as int)),
        decreases parts@.len() - i,
    {
        assert(pv.take(i + 1).drop_last() =~= pv.take(i as int));
        let c = parts[i].as_str();
        if str_eq(c, "..") {
            match path_parent(acc.as_str()) {
                Some(q) => {
                    acc = q;
                },
                None => {},
            }
        } else if str_eq(c, ".") {
        } else {
            acc = path_join(acc.as_str(), c);
        }
        i += 1;
    }
    assert(pv.take(parts@.len() as int) =~= pv);
    acc
}

/// Where a tool's path argument `p` points and whether that place is allowed:
/// an absolute path as it is, a relative one under `cwd`, normalised; it is
/// inside when it lies under the workspace or under `cwd`.
pub open spec fn resolved_path(workspace: Seq<char>, cwd: Seq<char>, p: Seq<char>) -> (Seq<char>, bool) {
    let abs = if spec_is_absolute(p) {
        p
    } else {
        spec_path_join(cwd, p)
    };
    let n = normalized(spec_path_components(abs));
    (n, spec_path_starts_with(n, workspace) || spec_path_starts_with(n, cwd))
}

/// Resolves a tool's path argument against the working directory and tells
/// whether the result lies in the workspace or the working directory.
pub fn resolve_path(workspace: &str, cwd: &str, p: &str) -> (r: (String, bool))
    ensures
        (r.0@, r.1) == resolved_path(workspace@, cwd@, p@),
{
    let abs = if path_is_absolute(p) {
        String::from_str(p)
    } else {
        path_join(cwd, p)
    };
    let n = normalize_path(abs.as_str());
    let inside = path_starts_with(n.as_str(), workspace) || path_starts_with(n.as_str(), cwd);
    (n, inside)
}

} // verus!
