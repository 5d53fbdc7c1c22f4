//! Where a downloaded resource is stored.
//!
//! The file name is the last non-empty segment of the resource's URL path. A
//! URL whose path has no such segment gets a fixed default name. Joining the
//! name to the target directory is `std::path`'s.

use vstd::prelude::*;
use vstd::string::StringExecFns;
use std::path::{Path, PathBuf};
use crate::error::DestinationError;
use crate::extension::{final_segment, lemma_final_segment};
use crate::resolve::{is_absolute_url, parse_absolute, parsed_url, ResolvedUrl};
use crate::text::{lemma_last_position_unique, to_chars};

verus! {

/// The name given to a resource whose URL path names no file.
pub const DEFAULT_FILENAME: &'static str = "default_filename";

/// `path` without the `/`s at its end.
pub open spec fn without_trailing_slashes(path: Seq<char>) -> Seq<char>
    decreases path.len(),
{
    if path.len() > 0 && path.last() == '/' {
        without_trailing_slashes(path.drop_last())
    } else {
        path
    }
}

/// The last non-empty segment of `path`; empty where `path` has none.
pub open spec fn last_segment(path: Seq<char>) -> Seq<char> {
    final_segment(without_trailing_slashes(path))
}

/// The file name for a URL path: the last non-empty segment of a path that
/// starts with `/`, the default name for every other path.
pub open spec fn filename_of(path: Seq<char>) -> Seq<char> {
    if path.len() > 0 && path[0] == '/' && last_segment(path).len() > 0 {
        last_segment(path)
    } else {
        DEFAULT_FILENAME@
    }
}

/// Cutting the trailing `/`s leaves the prefix that ends at the last
/// character other than `/`.
pub proof fn lemma_without_trailing_slashes(path: Seq<char>, end: int)
    requires
        0 <= end <= path.len(),
        forall|j: int| end <= j < path.len() ==> path[j] == '/',
        end > 0 ==> path[end - 1] != '/',
    ensures
        without_trailing_slashes(path) == path.take(end),
    decreases path.len(),
{
    if end == path.len() {
        assert(path.take(end) =~= path);
    } else {
        let front = path.drop_last();
        lemma_without_trailing_slashes(front, end);
        assert(front.take(end) =~= path.take(end));
    }
}

/// A file name is never empty and never holds a `/`: it names one entry of
/// the target directory.
pub proof fn lemma_filename_is_one_segment(path: Seq<char>)
    ensures
        filename_of(path).len() > 0,
        !filename_of(path).contains('/'),
{
    reveal_strlit("default_filename");
    lemma_final_segment(without_trailing_slashes(path));
}

/// The file name under which the resource at `url` is stored.
pub fn extract_filename_from_url(url: &ResolvedUrl) -> (name: String)
    ensures
        name@ == filename_of(url@.path),
{
    let path = url.path.as_str();
    let chars = to_chars(path);
    let n: usize = chars.len();
    if n == 0 || chars[0] != '/' {
        return String::from_str(DEFAULT_FILENAME);
    }
    let mut end: usize = n;
    while end > 0 && chars[end - 1] == '/'
        invariant
            end <= n,
            n == chars@.len(),
            forall|j: int| end <= j < n ==> chars@[j] == '/',
        decreases end,
    {
        end = end - 1;
    }
    proof {
        lemma_without_trailing_slashes(path@, end as int);
    }
    if end == 0 {
        proof {
            lemma_final_segment(path@.take(0));
        }
        return String::from_str(DEFAULT_FILENAME);
    }
    let mut start: usize = end;
    while start > 0 && chars[start - 1] != '/'
        invariant
            start <= end <= n,
            n == chars@.len(),
            forall|j: int| start <= j < end ==> chars@[j] != '/',
        decreases start,
    {
        start = start - 1;
    }
    proof {
        let trimmed = path@.take(end as int);
        assert(start > 0);
        assert(trimmed[start - 1] == '/');
        assert forall|j: int| start - 1 < j < trimmed.len() implies trimmed[j] != '/' by {
            assert(trimmed[j] == chars@[j]);
        }
        lemma_last_position_unique(trimmed, '/', start - 1);
        assert(final_segment(trimmed) =~= path@.subrange(start as int, end as int));
    }
    path.substring_char(start, end).to_owned()
}

/// `std::path::PathBuf`, an owned file-system path. Nothing is read from it.
#[verifier::external_type_specification]
#[verifier::external_body]
pub struct ExPathBuf(PathBuf);

/// `std::path::Path`, a borrowed file-system path. Nothing is read from it.
#[verifier::external_type_specification]
#[verifier::external_body]
pub struct ExPath(Path);

/// What `std::path::Path::join` makes of `file_name` on `target_dir`: the
/// path with the name adjoined, as the platform the library is built for puts
/// the two together.
pub uninterp spec fn joined_path(target_dir: &Path, file_name: Seq<char>) -> PathBuf;

/// What `std::path::Path::to_str` makes of `path`: the path as text, or `None`
/// where the path is not valid Unicode.
pub uninterp spec fn text_of_path(path: PathBuf) -> Option<Seq<char>>;

/// Calls `std::path::Path::join`: `file_name` adjoined to `target_dir`. The
/// call reads nothing but its two arguments, so the contract names its result
/// `joined_path(target_dir, file_name)`; how the two are put together is left
/// to the platform and not stated.
#[verifier::external_body]
fn join_path(target_dir: &Path, file_name: &str) -> (joined: PathBuf)
    ensures
        joined == joined_path(target_dir, file_name@),
{
    target_dir.join(file_name)
}

/// Calls `std::path::Path::to_str`: the path as text, where it is valid
/// Unicode. The call reads nothing but the path, so the contract names its
/// result `text_of_path(path)`.
#[verifier::external_body]
fn path_text(path: &PathBuf) -> (text: Option<String>)
    ensures
        text is Some <==> text_of_path(*path) is Some,
        text matches Some(t) ==> Some(t@) == text_of_path(*path),
{
    path.to_str().map(String::from)
}

/// What becomes of a joined path: it is accepted where it can be written as
/// text.
pub open spec fn accepted_path(path: PathBuf) -> Result<PathBuf, DestinationError> {
    match text_of_path(path) {
        Some(_) => Ok(path),
        None => Err(DestinationError::InvalidPath),
    }
}

/// The path of the file `file_name` in `target_dir`: the two joined, or
/// `InvalidPath` where the joined path is not valid Unicode.
pub open spec fn file_path(target_dir: &Path, file_name: Seq<char>) -> Result<
    PathBuf,
    DestinationError,
> {
    accepted_path(joined_path(target_dir, file_name))
}

/// A joined path is accepted where it can be written as text.
pub fn accept_path(path: PathBuf, text: Option<String>) -> (accepted: Result<
    PathBuf,
    DestinationError,
>)
    ensures
        accepted == (match text {
            Some(_) => Ok::<PathBuf, DestinationError>(path),
            None => Err::<PathBuf, DestinationError>(DestinationError::InvalidPath),
        }),
{
    match text {
        Some(_) => Ok(path),
        None => Err(DestinationError::InvalidPath),
    }
}

/// The path of the file `file_name` in `target_dir`, as the platform joins
/// the two. Fails with `InvalidPath` just when the joined path is not valid
/// Unicode; otherwise the result is the joined path itself.
pub fn construct_file_path(target_dir: &Path, file_name: &str) -> (path: Result<
    PathBuf,
    DestinationError,
>)
    ensures
        path == file_path(target_dir, file_name@),
        path is Err <==> text_of_path(joined_path(target_dir, file_name@)) is None,
        path matches Ok(joined) ==> joined == joined_path(target_dir, file_name@),
        path matches Err(error) ==> error == DestinationError::InvalidPath,
{
    let joined = join_path(target_dir, file_name);
    let text = path_text(&joined);
    accept_path(joined, text)
}

/// The file name for the resource at `file_url`, as a value of the model:
/// `InvalidUrl` where `file_url` is no absolute URL.
pub open spec fn filename_for(file_url: Seq<char>) -> Result<Seq<char>, DestinationError> {
    match parsed_url(file_url) {
        Some(url) => Ok(filename_of(url.path)),
        None => Err(DestinationError::InvalidUrl),
    }
}

/// The local path for the resource at `file_url`: the file named by
/// `filename_for` in `target_dir`, or the error of either step.
pub open spec fn destination(file_url: Seq<char>, target_dir: &Path) -> Result<
    PathBuf,
    DestinationError,
> {
    match filename_for(file_url) {
        Ok(name) => file_path(target_dir, name),
        Err(error) => Err(error),
    }
}

/// The file name under which the resource at `file_url` is stored. Fails with
/// `InvalidUrl` where `file_url` is no absolute URL.
pub fn resource_filename(file_url: &str) -> (name: Result<String, DestinationError>)
    ensures
        name is Ok <==> filename_for(file_url@) is Ok,
        name matches Ok(n) ==> Ok::<Seq<char>, DestinationError>(n@) == filename_for(file_url@),
        name matches Err(e) ==> Err::<Seq<char>, DestinationError>(e) == filename_for(file_url@),
{
    match parse_absolute(file_url) {
        Err(_) => Err(DestinationError::InvalidUrl),
        Ok(url) => Ok(extract_filename_from_url(&url)),
    }
}

/// The local path for the resource at `file_url`: the file named by
/// `resource_filename`, joined to `target_dir`. Fails with `InvalidUrl` just
/// when `file_url` is no absolute URL, and with `InvalidPath` just when the
/// joined path is not valid Unicode.
pub fn download_destination(file_url: &str, target_dir: &Path) -> (path: Result<
    PathBuf,
    DestinationError,
>)
    ensures
        path == destination(file_url@, target_dir),
        !is_absolute_url(file_url@) <==> path == Err::<PathBuf, DestinationError>(
            DestinationError::InvalidUrl,
        ),
{
    match resource_filename(file_url) {
        Err(error) => Err(error),
        Ok(name) => construct_file_path(target_dir, name.as_str()),
    }
}

} // verus!
