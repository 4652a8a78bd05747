//! File-system paths, which the workspace carries without looking inside.
use std::path::PathBuf;
use vstd::prelude::*;

verus! {

#[verifier::external_type_specification]
#[verifier::external_body]
pub struct ExPathBuf(PathBuf);

/// `PathBuf::clone`: a path equal to `path`.
#[verifier::external_body]
pub(crate) fn path_clone(path: &PathBuf) -> (copy: PathBuf)
    ensures
        copy == *path,
{
    path.clone()
}

/// The file name of a path: its last component, as text, if the path has
/// one. A path that ends in `..` or is a root has none.
pub uninterp spec fn file_name_of(path: PathBuf) -> Option<Seq<char>>;

/// The extension of a path: the part of its file name behind the last dot,
/// if the file name has a dot that is not its first character, and if that
/// part is valid Unicode.
pub uninterp spec fn extension_of_path(path: PathBuf) -> Option<Seq<char>>;

/// The path that comes of `path` when it is extended by `name`.
pub uninterp spec fn pushed(path: PathBuf, name: Seq<char>) -> PathBuf;

/// `Path::file_name`: the last component of `path`, as text, if the path has
/// one. The result is the file name of the path.
#[verifier::external_body]
pub(crate) fn path_file_name(path: &PathBuf) -> (name: Option<String>)
    ensures
        match name {
            Some(n) => file_name_of(*path) == Some(n@),
            None => file_name_of(*path) is None,
        },
{
    path.file_name().map(|name| name.to_string_lossy().to_string())
}

/// `Path::extension`: the part of the file name of `path` behind its last
/// dot, if there is one and it is valid Unicode. The result is the extension
/// of the path.
#[verifier::external_body]
pub(crate) fn path_extension(path: &PathBuf) -> (extension: Option<String>)
    ensures
        match extension {
            Some(e) => extension_of_path(*path) == Some(e@),
            None => extension_of_path(*path) is None,
        },
{
    path.extension().and_then(|extension| extension.to_str()).map(|extension| extension.to_string())
}

/// `PathBuf::push`: extends `path` by `name`. If `name` is absolute it
/// replaces the path. The result is the path pushed by the name.
#[verifier::external_body]
pub(crate) fn path_push(path: &mut PathBuf, name: &str)
    ensures
        *final(path) == pushed(*old(path), name@),
{
    path.push(name)
}

} // verus!
