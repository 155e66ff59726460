//! Computations on path texts. They touch no file: `camino` takes a path
//! apart and puts paths together. What it gives is named here, not spelled
//! out, but for the extension of a file name, which a few words state in full.

use crate::text::last_at;
use vstd::prelude::*;

verus! {

/// The path that `camino` gives for `tail` adjoined to `base`.
pub uninterp spec fn joined(base: Seq<char>, tail: Seq<char>) -> Seq<char>;

/// The final component that `camino` finds in `path`, if it finds one.
pub uninterp spec fn file_name_of(path: Seq<char>) -> Option<Seq<char>>;

/// The path without its final component, as `camino` gives it, if there is one.
pub uninterp spec fn parent_of(path: Seq<char>) -> Option<Seq<char>>;

/// The extension of a file name: what follows its last `.`, unless the name
/// has no `.` or only the one it begins with.
pub open spec fn extension_in(file: Seq<char>) -> Option<Seq<char>> {
    let dot = last_at(file, '.');
    if dot <= 0 {
        None
    } else {
        Some(file.skip(dot + 1))
    }
}

/// The extension of a path: that of its final component, if it has one.
pub open spec fn extension_of(path: Seq<char>) -> Option<Seq<char>> {
    match file_name_of(path) {
        Some(file) => extension_in(file),
        None => None,
    }
}

/// Whether `camino` finds the components of `base` at the start of those of
/// `path`.
pub uninterp spec fn begins_with(path: Seq<char>, base: Seq<char>) -> bool;

/// The text of an optional string.
pub open spec fn text_of(s: Option<String>) -> Option<Seq<char>> {
    match s {
        Some(s) => Some(s@),
        None => None,
    }
}

/// Calls `camino::Utf8Path::join` on the path `base` with `tail`. Trusted:
/// the result is the path that `joined` names for the two texts.
#[verifier::external_body]
pub(crate) fn join_path(base: &str, tail: &str) -> (r: String)
    ensures
        r@ == joined(base@, tail@),
{
    camino::Utf8Path::new(base).join(tail).into_string()
}

/// Calls `camino::Utf8Path::file_name` on `path`. Trusted: the result is the
/// component that `file_name_of` names, and `None` where it names none.
#[verifier::external_body]
pub(crate) fn file_name(path: &str) -> (r: Option<String>)
    ensures
        text_of(r) == file_name_of(path@),
{
    camino::Utf8Path::new(path).file_name().map(|name| name.to_owned())
}

/// Calls `camino::Utf8Path::parent` on `path`. Trusted: the result is the
/// path that `parent_of` names, and `None` where it names none.
#[verifier::external_body]
pub(crate) fn parent(path: &str) -> (r: Option<String>)
    ensures
        text_of(r) == parent_of(path@),
{
    camino::Utf8Path::new(path).parent().map(|dir| dir.as_str().to_owned())
}

/// Calls `camino::Utf8Path::extension` on `path`. Trusted: as its
/// documentation says, there is no extension where there is no final
/// component, where that component holds no `.`, and where it begins with its
/// only `.`; otherwise the extension is what follows the component's last `.`.
#[verifier::external_body]
pub(crate) fn extension(path: &str) -> (r: Option<String>)
    ensures
        text_of(r) == extension_of(path@),
{
    camino::Utf8Path::new(path).extension().map(|ext| ext.to_owned())
}

/// Calls `camino::Utf8Path::starts_with` on `path` with `base`. Trusted: the
/// result is what `begins_with` says of the two texts.
#[verifier::external_body]
pub(crate) fn starts_with(path: &str, base: &str) -> (r: bool)
    ensures
        r == begins_with(path@, base@),
{
    camino::Utf8Path::new(path).starts_with(base)
}

} // verus!
