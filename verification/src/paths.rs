//! The parts of `std::path` that the naming rules read: a path's final
//! component, its stem and its extension, each as UTF-8 text.
use vstd::prelude::*;

use std::path::{Path, PathBuf};

verus! {

/// A borrowed file-system path.
#[verifier::external_type_specification]
#[verifier::external_body]
pub struct ExPath(Path);

/// An owned file-system path.
#[verifier::external_type_specification]
#[verifier::external_body]
pub struct ExPathBuf(PathBuf);

/// `PathBuf::clone`. Trusted; nothing is stated of the copy: a path
/// buffer is opaque here, and spec equality with the original would also
/// claim the same allocation, which the standard library does not promise.
pub assume_specification[ <PathBuf as Clone>::clone ](path: &PathBuf) -> PathBuf;

/// The path an owned path buffer holds, as `PathBuf::as_path` borrows it.
pub uninterp spec fn borrowed_path(path: &PathBuf) -> &Path;

/// The final component of `path` as UTF-8 text: `Path::file_name` followed
/// by `OsStr::to_str`, `None` when either gives none.
pub uninterp spec fn path_file_name(path: &Path) -> Option<Seq<char>>;

/// The stem of `path` as UTF-8 text: `Path::file_stem` followed by
/// `OsStr::to_str`.
pub uninterp spec fn path_file_stem(path: &Path) -> Option<Seq<char>>;

/// The extension of `path` as UTF-8 text: `Path::extension` followed by
/// `OsStr::to_str`.
pub uninterp spec fn path_extension(path: &Path) -> Option<Seq<char>>;

/// The whole of `path` as text, invalid UTF-8 replaced
/// (`Path::to_string_lossy`).
pub uninterp spec fn path_text(path: &Path) -> Seq<char>;

/// The borrowed path of an owned one (`PathBuf::as_path`). Trusted: the
/// result is the path the buffer holds, named `borrowed_path`.
#[verifier::external_body]
pub(crate) fn path_of(path: &PathBuf) -> (borrowed: &Path)
    ensures
        borrowed == borrowed_path(path),
{
    path.as_path()
}

/// `Path::file_name` of `path`, when it is valid UTF-8. Trusted: the result
/// depends on the path alone and is named `path_file_name`; as the standard
/// library documents it, a final component is non-empty and holds no `/`
/// separator.
#[verifier::external_body]
pub(crate) fn file_name_text(path: &Path) -> (name: Option<String>)
    ensures
        path_file_name(path) == match name {
            Some(n) => Some(n@),
            None => None,
        },
        name matches Some(n) ==> n@.len() > 0 && !n@.contains('/'),
{
    path.file_name().and_then(|name| name.to_str()).map(|name| name.to_owned())
}

/// `Path::file_stem` of `path`, when it is valid UTF-8. Trusted: the result
/// depends on the path alone and is named `path_file_stem`; a stem is part
/// of a final component and so holds no `/` separator.
#[verifier::external_body]
pub(crate) fn file_stem_text(path: &Path) -> (stem: Option<String>)
    ensures
        path_file_stem(path) == match stem {
            Some(s) => Some(s@),
            None => None,
        },
        stem matches Some(s) ==> !s@.contains('/'),
{
    path.file_stem().and_then(|stem| stem.to_str()).map(|stem| stem.to_owned())
}

/// `Path::extension` of `path`, when it is valid UTF-8. Trusted: the result
/// depends on the path alone and is named `path_extension`; as the standard
/// library documents it, an extension is the text after the last `.` of a
/// final component, so it holds neither `.` nor `/`.
#[verifier::external_body]
pub(crate) fn extension_text(path: &Path) -> (extension: Option<String>)
    ensures
        path_extension(path) == match extension {
            Some(e) => Some(e@),
            None => None,
        },
        extension matches Some(e) ==> !e@.contains('.') && !e@.contains('/'),
{
    path.extension().and_then(|extension| extension.to_str()).map(
        |extension| extension.to_owned(),
    )
}

/// The whole path as text, with invalid UTF-8 replaced
/// (`Path::to_string_lossy`). Trusted: the result depends on the path alone
/// and is named `path_text`.
#[verifier::external_body]
pub(crate) fn path_display_text(path: &Path) -> (text: String)
    ensures
        text@ == path_text(path),
{
    path.to_string_lossy().into_owned()
}

} // verus!
